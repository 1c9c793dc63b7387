//! The processor: a fixed number of worker slots, a table of the records it
//! has seen, a count of the calls in flight, and a registry of transforms
//! applied to every record it processes.

use vstd::prelude::*;
use crate::config::ProcessorConfig;
use crate::error::{Error, error_text};
use crate::record::{Record, RecordView, RecordStatus, MetadataView};
use crate::sources::now_millis;
use crate::table::RecordTable;
use crate::metrics::{elapsed_between, elapsed_ms};
use crate::transform::{RecordTransform, Transform};

verus! {

/// What processing one record produced.
#[derive(Debug)]
pub struct ProcessingResult {
    /// The processed record; on failure, the table's copy.
    pub record: Record,
    /// How long processing took, in milliseconds.
    pub duration_ms: u64,
    /// Whether every transform succeeded.
    pub success: bool,
    /// The failure, when there was one.
    pub error: Option<String>,
}

/// The record `r` as marked for processing at time `t`.
pub open spec fn processing_view(r: RecordView, t: i64) -> RecordView {
    RecordView {
        metadata: MetadataView {
            status: RecordStatus::Processing,
            process_count: (r.metadata.process_count + 1) as u32,
            updated_at: t,
            ..r.metadata
        },
        ..r
    }
}

/// The record `r` as marked completed at time `t`.
pub open spec fn completed_view(r: RecordView, t: i64) -> RecordView {
    RecordView {
        metadata: MetadataView {
            status: RecordStatus::Completed,
            last_error: None,
            updated_at: t,
            ..r.metadata
        },
        ..r
    }
}

/// The transforms applied one after the other, in order; `None` as soon as
/// one rejects.
pub open spec fn apply_all(ts: Seq<RecordTransform>, r: RecordView) -> Option<RecordView>
    decreases ts.len(),
{
    if ts.len() == 0 {
        Some(r)
    } else {
        match apply_all(ts.drop_last(), r) {
            Some(x) => ts.last().spec_apply(x),
            None => None,
        }
    }
}

/// The text of the error of the first transform that rejects `r`, when
/// one does.
pub open spec fn apply_error(ts: Seq<RecordTransform>, r: RecordView) -> Seq<char>
    decreases ts.len(),
{
    if ts.len() == 0 {
        Seq::empty()
    } else {
        match apply_all(ts.drop_last(), r) {
            Some(x) => ts.last().spec_rejection(x),
            None => apply_error(ts.drop_last(), r),
        }
    }
}

/// The table after each result's record is stored in turn.
pub open spec fn with_results(m: Map<u128, RecordView>, rs: Seq<ProcessingResult>) -> Map<u128, RecordView>
    decreases rs.len(),
{
    if rs.len() == 0 {
        m
    } else {
        with_results(m, rs.drop_last()).insert(rs.last().record.id, rs.last().record@)
    }
}

/// A call on `r` succeeded exactly when the transforms accepted `r` as
/// marked for processing at some time.
pub open spec fn success_matches(success: bool, r: RecordView, ts: Seq<RecordTransform>) -> bool {
    exists|t: i64| #![trigger processing_view(r, t)] success <==> apply_all(ts, processing_view(r, t)) is Some
}

/// Index `i` holds the transform named `name`.
pub open spec fn named_at(ts: Seq<RecordTransform>, name: Seq<char>, i: int) -> bool {
    0 <= i < ts.len() && ts[i].spec_name() == name
}

/// The registry after registering `t`: in place of the transform of the same
/// name, or appended.
pub open spec fn registered(ts: Seq<RecordTransform>, t: RecordTransform) -> Seq<RecordTransform> {
    if exists|i: int| named_at(ts, t.spec_name(), i) {
        ts.update(choose|i: int| named_at(ts, t.spec_name(), i), t)
    } else {
        ts.push(t)
    }
}

/// No two transforms of the registry share a name.
pub open spec fn names_unique(ts: Seq<RecordTransform>) -> bool {
    forall|i: int, j: int|
        0 <= i < ts.len() && 0 <= j < ts.len() && i != j ==> ts[i].spec_name() != ts[j].spec_name()
}

/// Processes records under a fixed budget of concurrent calls.
#[derive(Debug)]
pub struct Processor {
    config: ProcessorConfig,
    records: RecordTable,
    active_tasks: u64,
    admitted: usize,
    transforms: Vec<RecordTransform>,
}

impl Processor {
    /// The configuration.
    pub closed spec fn spec_config(&self) -> ProcessorConfig {
        self.config
    }

    /// The record table, by identifier.
    pub closed spec fn spec_records(&self) -> Map<u128, RecordView> {
        self.records@
    }

    /// The number of calls in flight.
    pub closed spec fn spec_active(&self) -> u64 {
        self.active_tasks
    }

    /// The number of calls holding a worker slot.
    pub closed spec fn spec_admitted(&self) -> usize {
        self.admitted
    }

    /// The registered transforms, in registration order.
    pub closed spec fn spec_transforms(&self) -> Seq<RecordTransform> {
        self.transforms@
    }

    /// The processor's invariants: no more calls hold a slot than
    /// there are workers, and each call in flight holds one place.
    pub closed spec fn wf(&self) -> bool {
        &&& self.config.spec_valid()
        &&& self.records.wf()
        &&& self.admitted <= self.config.max_workers
        &&& self.active_tasks == self.admitted
        &&& names_unique(self.transforms@)
    }

    /// A processor for a valid configuration: an empty table, no call in
    /// flight, no transform. An invalid configuration is refused.
    pub fn new(config: ProcessorConfig) -> (r: Result<Processor, Error>)
        ensures
            r is Ok <==> config.spec_valid(),
            r is Err ==> r->Err_0 is Config,
            r is Ok ==> {
                let p = r->Ok_0;
                &&& p.wf()
                &&& p.spec_config() == config
                &&& p.spec_records() == Map::<u128, RecordView>::empty()
                &&& p.spec_active() == 0
                &&& p.spec_admitted() == 0
                &&& p.spec_transforms() == Seq::<RecordTransform>::empty()
            },
    {
        match config.validate() {
            Ok(()) => {},
            Err(e) => {
                return Err(e);
            },
        }
        Ok(
            Processor {
                config,
                records: RecordTable::new(),
                active_tasks: 0,
                admitted: 0,
                transforms: Vec::new(),
            },
        )
    }

    /// Takes a worker slot for `record`: marks it as processing,
    /// counts the call as active and stores a copy in the table. Refused with
    /// a concurrency error, changing nothing, when every place is taken.
    pub fn begin(&mut self, record: Record) -> (r: Result<Record, Error>)
        requires
            old(self).wf(),
            record.metadata.process_count < u32::MAX,
        ensures
            final(self).wf(),
            final(self).spec_config() == old(self).spec_config(),
            final(self).spec_transforms() == old(self).spec_transforms(),
            r is Err <==> old(self).spec_admitted() == old(self).spec_config().max_workers,
            r is Err ==> r->Err_0 is Concurrency && final(self).spec_records() == old(self).spec_records()
                && final(self).spec_active() == old(self).spec_active()
                && final(self).spec_admitted() == old(self).spec_admitted(),
            r is Ok ==> {
                &&& r->Ok_0@ == processing_view(record@, r->Ok_0@.metadata.updated_at)
                &&& final(self).spec_records() == old(self).spec_records().insert(record.id, r->Ok_0@)
                &&& final(self).spec_active() == old(self).spec_active() + 1
                &&& final(self).spec_admitted() == old(self).spec_admitted() + 1
            },
    {
        if self.admitted >= self.config.max_workers {
            return Err(Error::concurrency("Failed to acquire permit: every worker is busy"));
        }
        self.admitted = self.admitted + 1;
        self.active_tasks = self.active_tasks + 1;
        let mut record = record;
        record.mark_processing();
        self.records.upsert(record.clone());
        Ok(record)
    }

    /// Applies every registered transform, in registration order, stopping
    /// at the first that rejects the record.
    pub fn run_transforms(&self, record: Record) -> (r: Result<Record, Error>)
        ensures
            match r {
                Ok(x) => apply_all(self.spec_transforms(), record@) == Some(x@) && x.id == record.id,
                Err(e) => apply_all(self.spec_transforms(), record@) is None && error_text(e)
                    == apply_error(self.spec_transforms(), record@),
            },
    {
        let ghost start = record@;
        let ghost start_id = record.id;
        let mut current = record;
        let mut i: usize = 0;
        while i < self.transforms.len()
            invariant
                i <= self.transforms.len(),
                start == record@,
                start_id == record.id,
                current.id == record.id,
                apply_all(self.transforms@.subrange(0, i as int), start) == Some(current@),
            decreases self.transforms.len() - i,
        {
            proof {
                let next = self.transforms@.subrange(0, i as int + 1);
                assert(next.drop_last() =~= self.transforms@.subrange(0, i as int));
            }
            match self.transforms[i].transform(current) {
                Ok(x) => {
                    current = x;
                },
                Err(e) => {
                    proof {
                        lemma_apply_none(self.transforms@, start, i as int + 1);
                    }
                    return Err(e);
                },
            }
            i = i + 1;
        }
        proof {
            assert(self.transforms@.subrange(0, self.transforms.len() as int) =~= self.transforms@);
        }
        Ok(current)
    }

    /// Ends a call begun with [`Processor::begin`]: gives back its place and
    /// reports the outcome. On success the record is marked completed and
    /// stored again; on failure the result carries the table's copy, or the
    /// admitted record when the table holds none.
    pub fn complete(&mut self, admitted: Record, outcome: Result<Record, Error>, started_at: i64) -> (r:
        ProcessingResult)
        requires
            old(self).wf(),
            old(self).spec_admitted() > 0,
        ensures
            final(self).wf(),
            final(self).spec_config() == old(self).spec_config(),
            final(self).spec_transforms() == old(self).spec_transforms(),
            final(self).spec_active() == old(self).spec_active() - 1,
            final(self).spec_admitted() == old(self).spec_admitted() - 1,
            r.success == outcome is Ok,
            exists|now: i64| r.duration_ms == elapsed_ms(started_at, now),
            match outcome {
                Ok(x) => {
                    &&& r.record@ == completed_view(x@, r.record@.metadata.updated_at)
                    &&& r.error is None
                    &&& final(self).spec_records() == old(self).spec_records().insert(x.id, r.record@)
                },
                Err(e) => {
                    &&& r.record@ == if old(self).spec_records().contains_key(admitted.id) {
                        old(self).spec_records()[admitted.id]
                    } else {
                        admitted@
                    }
                    &&& r.error is Some && r.error->Some_0@ == error_text(e)
                    &&& final(self).spec_records() == old(self).spec_records()
                },
            },
    {
        self.admitted = self.admitted - 1;
        self.active_tasks = self.active_tasks - 1;
        let finished = now_millis();
        let duration_ms = elapsed_between(started_at, finished);
        match outcome {
            Ok(x) => {
                let mut done = x;
                done.mark_completed();
                self.records.upsert(done.clone());
                ProcessingResult { record: done, duration_ms, success: true, error: None }
            },
            Err(e) => {
                let record = match self.records.get(admitted.id) {
                    Some(stored) => stored,
                    None => admitted,
                };
                ProcessingResult {
                    record,
                    duration_ms,
                    success: false,
                    error: Some(e.describe()),
                }
            },
        }
    }
}

impl Processor {
    /// Processes one record: takes a worker slot, marks the record as
    /// processing, stores it, applies the registered transforms in order,
    /// marks it completed and stores it again, then gives the place back. A
    /// rejected transform gives a failed result, not an error; the only error
    /// is that every slot is taken, which changes nothing.
    pub fn process(&mut self, record: Record) -> (r: Result<ProcessingResult, Error>)
        requires
            old(self).wf(),
            record.metadata.process_count < u32::MAX,
        ensures
            final(self).wf(),
            final(self).spec_config() == old(self).spec_config(),
            final(self).spec_transforms() == old(self).spec_transforms(),
            final(self).spec_active() == old(self).spec_active(),
            final(self).spec_admitted() == old(self).spec_admitted(),
            r is Err <==> old(self).spec_admitted() == old(self).spec_config().max_workers,
            r is Err ==> r->Err_0 is Concurrency && final(self).spec_records() == old(self).spec_records(),
            r is Ok ==> success_matches(r->Ok_0.success, record@, old(self).spec_transforms()),
            r is Ok ==> r->Ok_0.record.id == record.id && final(self).spec_records() == old(
                self,
            ).spec_records().insert(record.id, r->Ok_0.record@),
            r is Ok ==> exists|t: i64| #![trigger processing_view(record@, t)] {
                let marked = processing_view(record@, t);
                let res = r->Ok_0;
                match apply_all(old(self).spec_transforms(), marked) {
                    Some(x) => {
                        &&& res.success
                        &&& res.error is None
                        &&& res.record@ == completed_view(x, res.record@.metadata.updated_at)
                    },
                    None => {
                        &&& !res.success
                        &&& res.error is Some
                        &&& res.error->Some_0@ == apply_error(old(self).spec_transforms(), marked)
                        &&& res.record@ == marked
                    },
                }
            },
    {
        let started_at = now_millis();
        let id = record.id;
        let admitted = match self.begin(record) {
            Ok(x) => x,
            Err(e) => {
                return Err(e);
            },
        };
        let ghost marked = admitted@;
        let ghost table = self.records@;
        let copy = admitted.clone();
        let outcome = self.run_transforms(copy);
        let result = self.complete(admitted, outcome, started_at);
        proof {
            assert(table.contains_key(id) && table[id] == marked);
            if result.success {
                assert(table.insert(id, result.record@) =~= old(self).records@.insert(id, result.record@));
            }
            assert(marked == processing_view(record@, marked.metadata.updated_at));
            assert(success_matches(result.success, record@, old(self).transforms@)) by {
                let t = marked.metadata.updated_at;
                assert(processing_view(record@, t) == marked);
            }
        }
        Ok(result)
    }

    /// Admits a batch of `len` records: refused with a processing error when
    /// it is larger than the configured maximum.
    pub fn admit_batch(&self, len: usize) -> (r: Result<(), Error>)
        ensures
            r is Err <==> len > self.spec_config().max_batch_size,
            r is Err ==> r->Err_0 is Processing,
    {
        if len > self.config.max_batch_size {
            return Err(Error::processing("Batch size exceeds the configured maximum"));
        }
        Ok(())
    }

    /// Processes a batch, one record after the other, and collects the
    /// results in completion order. A batch larger than the configured
    /// maximum is refused with a processing error and nothing is admitted. A
    /// record refused a slot is left out of the results.
    pub fn process_batch(&mut self, records: Vec<Record>) -> (r: Result<Vec<ProcessingResult>, Error>)
        requires
            old(self).wf(),
            records.len() <= old(self).spec_config().max_batch_size ==> forall|i: int|
                0 <= i < records.len() ==> #[trigger] records@[i].metadata.process_count < u32::MAX,
        ensures
            final(self).wf(),
            final(self).spec_config() == old(self).spec_config(),
            final(self).spec_transforms() == old(self).spec_transforms(),
            final(self).spec_active() == old(self).spec_active(),
            final(self).spec_admitted() == old(self).spec_admitted(),
            r is Err <==> records.len() > old(self).spec_config().max_batch_size,
            r is Err ==> r->Err_0 is Processing && final(self).spec_records() == old(self).spec_records(),
            r is Ok ==> r->Ok_0.len() <= records.len(),
            r is Ok ==> final(self).spec_records() == with_results(old(self).spec_records(), r->Ok_0@),
            r is Ok && old(self).spec_admitted() < old(self).spec_config().max_workers ==> {
                &&& r->Ok_0.len() == records.len()
                &&& forall|i: int| 0 <= i < records.len() ==> (#[trigger] r->Ok_0@[i]).record.id == records@[i].id
                &&& forall|i: int| 0 <= i < records.len() ==> success_matches(
                    #[trigger] r->Ok_0@[i].success,
                    records@[i]@,
                    old(self).spec_transforms(),
                )
            },
    {
        match self.admit_batch(records.len()) {
            Ok(()) => {},
            Err(e) => {
                return Err(e);
            },
        }
        let ghost free = self.admitted < self.config.max_workers;
        let mut results: Vec<ProcessingResult> = Vec::new();
        let mut i: usize = 0;
        while i < records.len()
            invariant
                i <= records.len(),
                self.wf(),
                self.config == old(self).config,
                self.transforms@ == old(self).transforms@,
                self.active_tasks == old(self).active_tasks,
                self.admitted == old(self).admitted,
                free == (old(self).admitted < old(self).config.max_workers),
                forall|j: int| 0 <= j < records.len() ==> #[trigger] records@[j].metadata.process_count < u32::MAX,
                results.len() <= i,
                self.records@ == with_results(old(self).records@, results@),
                free ==> results.len() == i,
                free ==> forall|j: int| 0 <= j < i ==> (#[trigger] results@[j]).record.id == records@[j].id,
                free ==> forall|j: int| 0 <= j < i ==> success_matches(
                    #[trigger] results@[j].success,
                    records@[j]@,
                    old(self).transforms@,
                ),
            decreases records.len() - i,
        {
            let record = records[i].clone();
            match self.process(record) {
                Ok(res) => {
                    let ghost before = results@;
                    results.push(res);
                    proof {
                        assert(results@.drop_last() =~= before);
                        assert forall|j: int| 0 <= j < i + 1 && free implies (#[trigger] results@[j]).record.id
                            == records@[j].id by {
                            if j < i {
                                assert(results@[j] == before[j]);
                            }
                        }
                        assert forall|j: int| 0 <= j < i + 1 && free implies success_matches(
                            #[trigger] results@[j].success,
                            records@[j]@,
                            old(self).transforms@,
                        ) by {
                            if j < i {
                                assert(results@[j] == before[j]);
                            }
                        }
                    }
                },
                Err(_) => {},
            }
            i = i + 1;
        }
        Ok(results)
    }

    /// Registers a transform for every later call, in place of the one with
    /// the same name or after the others.
    pub fn register_transform(&mut self, transform: RecordTransform)
        requires
            old(self).wf(),
        ensures
            final(self).wf(),
            final(self).spec_transforms() == registered(old(self).spec_transforms(), transform),
            final(self).spec_config() == old(self).spec_config(),
            final(self).spec_records() == old(self).spec_records(),
            final(self).spec_active() == old(self).spec_active(),
            final(self).spec_admitted() == old(self).spec_admitted(),
    {
        let ghost name = transform.spec_name();
        let mut i: usize = 0;
        while i < self.transforms.len()
            invariant
                i <= self.transforms.len(),
                self.transforms@ == old(self).transforms@,
                name == transform.spec_name(),
                self.wf(),
                self.config == old(self).config,
                self.records == old(self).records,
                self.active_tasks == old(self).active_tasks,
                self.admitted == old(self).admitted,
                forall|j: int| 0 <= j < i ==> self.transforms@[j].spec_name() != name,
            decreases self.transforms.len() - i,
        {
            if self.transforms[i].name().eq(transform.name()) {
                proof {
                    assert(named_at(self.transforms@, name, i as int));
                    let c = choose|c: int| named_at(self.transforms@, name, c);
                    assert(c == i);
                }
                self.transforms.set(i, transform);
                proof {
                    assert forall|a: int, b: int|
                        0 <= a < self.transforms@.len() && 0 <= b < self.transforms@.len() && a != b
                        implies self.transforms@[a].spec_name() != self.transforms@[b].spec_name() by {
                        if a != i && b != i {
                            assert(self.transforms@[a] == old(self).transforms@[a]);
                            assert(self.transforms@[b] == old(self).transforms@[b]);
                        } else if a == i {
                            assert(self.transforms@[b] == old(self).transforms@[b]);
                            assert(old(self).transforms@[i as int].spec_name() == name);
                        } else {
                            assert(self.transforms@[a] == old(self).transforms@[a]);
                            assert(old(self).transforms@[i as int].spec_name() == name);
                        }
                    }
                }
                return;
            }
            i = i + 1;
        }
        proof {
            assert(!(exists|c: int| named_at(self.transforms@, name, c)));
        }
        self.transforms.push(transform);
        proof {
            assert forall|a: int, b: int|
                0 <= a < self.transforms@.len() && 0 <= b < self.transforms@.len() && a != b
                implies self.transforms@[a].spec_name() != self.transforms@[b].spec_name() by {
                if a < old(self).transforms@.len() && b < old(self).transforms@.len() {
                    assert(self.transforms@[a] == old(self).transforms@[a]);
                    assert(self.transforms@[b] == old(self).transforms@[b]);
                } else if a < old(self).transforms@.len() {
                    assert(self.transforms@[a] == old(self).transforms@[a]);
                } else {
                    assert(self.transforms@[b] == old(self).transforms@[b]);
                }
            }
        }
    }

    /// A copy of the record with this identifier.
    pub fn get_record(&self, id: u128) -> (r: Option<Record>)
        requires
            self.wf(),
        ensures
            match r {
                Some(x) => self.spec_records().contains_key(id) && self.spec_records()[id] == x@,
                None => !self.spec_records().contains_key(id),
            },
    {
        self.records.get(id)
    }

    /// The number of calls in flight.
    pub fn active_tasks(&self) -> (r: u64)
        ensures
            r == self.spec_active(),
    {
        self.active_tasks
    }

    /// The number of records in the table.
    pub fn total_records(&self) -> (r: usize)
        requires
            self.wf(),
        ensures
            r == self.spec_records().len(),
    {
        self.records.len()
    }

    /// Empties the table.
    pub fn clear_records(&mut self)
        requires
            old(self).wf(),
        ensures
            final(self).wf(),
            final(self).spec_records() == Map::<u128, RecordView>::empty(),
            final(self).spec_config() == old(self).spec_config(),
            final(self).spec_transforms() == old(self).spec_transforms(),
            final(self).spec_active() == old(self).spec_active(),
            final(self).spec_admitted() == old(self).spec_admitted(),
    {
        self.records.clear();
    }

    /// The configuration.
    pub fn config(&self) -> (r: &ProcessorConfig)
        ensures
            *r == self.spec_config(),
    {
        &self.config
    }
}

/// The admission bound: in every state of a processor, the calls holding a slot
/// number at most `max_workers`, and the active count equals
/// them. Every operation keeps `wf`, and `begin` refuses a call when every
/// place is taken.
pub proof fn lemma_admission_bounded(p: Processor)
    requires
        p.wf(),
    ensures
        p.spec_admitted() <= p.spec_config().max_workers,
        p.spec_active() == p.spec_admitted(),
        p.spec_config().spec_valid(),
        p.spec_records().dom().finite(),
{
    p.records.lemma_finite();
}

/// Once a transform rejects, the whole run is rejected.
proof fn lemma_apply_none(ts: Seq<RecordTransform>, r: RecordView, n: int)
    requires
        0 < n <= ts.len(),
        apply_all(ts.subrange(0, n), r) is None,
    ensures
        apply_all(ts, r) is None,
        apply_error(ts, r) == apply_error(ts.subrange(0, n), r),
    decreases ts.len() - n,
{
    if n < ts.len() {
        let next = ts.subrange(0, n + 1);
        assert(next.drop_last() =~= ts.subrange(0, n));
        lemma_apply_none(ts, r, n + 1);
    } else {
        assert(ts.subrange(0, n) =~= ts);
    }
}

} // verus!
