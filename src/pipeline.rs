//! Pipelines: a named, ordered list of validate, transform and store stages,
//! run in order and stopped by the first failure.

use vstd::prelude::*;
use crate::error::{Error, error_text};
use crate::record::{Record, RecordView};
use crate::storage::Storage;
use crate::transform::{RecordTransform, Transform};
use crate::validation::{Validator, all_accept, rejected_by};

verus! {

/// One step of a pipeline.
#[derive(Debug)]
pub enum PipelineStage<S: Storage> {
    /// Passes the record on unchanged when every rule accepts it.
    Validation(Validator),
    /// Passes on what the transform makes of the record.
    Transform(RecordTransform),
    /// Stores the record in the backend and passes it on unchanged.
    Storage(S),
}

/// What a stage passes on, when it succeeds; a store is taken to succeed.
pub open spec fn stage_output<S: Storage>(stage: PipelineStage<S>, input: RecordView) -> Option<RecordView> {
    match stage {
        PipelineStage::Validation(v) => if all_accept(v.spec_rules(), input) {
            Some(input)
        } else {
            None
        },
        PipelineStage::Transform(t) => t.spec_apply(input),
        PipelineStage::Storage(_) => Some(input),
    }
}

/// The record that enters stage `n` (or leaves the last stage, for `n` equal
/// to the number of stages), when no earlier stage rejected it.
#[verifier::opaque]
pub open spec fn run_prefix<S: Storage>(stages: Seq<PipelineStage<S>>, input: RecordView, n: nat) -> Option<RecordView>
    decreases n,
{
    if n == 0 {
        Some(input)
    } else {
        match run_prefix(stages, input, (n - 1) as nat) {
            Some(x) => stage_output(stages[n - 1], x),
            None => None,
        }
    }
}

/// Stage `after` is stage `before` having handled `rec` successfully: a
/// store holds `rec` afterwards, any other stage is unchanged.
#[verifier::opaque]
pub open spec fn handled<S: Storage>(before: PipelineStage<S>, after: PipelineStage<S>, rec: RecordView) -> bool {
    match before {
        PipelineStage::Storage(a) => match after {
            PipelineStage::Storage(b) => {
                &&& b.well_formed()
                &&& a.coherent() ==> b.coherent() && b.stored() == a.stored().insert(rec.id, rec)
            },
            _ => false,
        },
        _ => after == before,
    }
}

/// Every backend of the stages is well formed.
#[verifier::opaque]
pub open spec fn stages_wf<S: Storage>(stages: Seq<PipelineStage<S>>) -> bool {
    forall|j: int| 0 <= j < stages.len() ==> match #[trigger] stages[j] {
        PipelineStage::Storage(s) => s.well_formed(),
        _ => true,
    }
}

/// A named, ordered list of stages.
#[derive(Debug)]
pub struct Pipeline<S: Storage> {
    name: String,
    stages: Vec<PipelineStage<S>>,
}

fn run_stage<S: Storage>(stage: PipelineStage<S>, record: Record) -> (r: (PipelineStage<S>, Result<Record, Error>))
    requires
        stages_wf(seq![stage]),
    ensures
        stages_wf(seq![r.0]),
        r.1 is Ok ==> stage_output(stage, record@) == Some(r.1->Ok_0@) && handled(stage, r.0, record@),
        r.1 is Err ==> (stage_output(stage, record@) is None || stage is Storage),
        r.1 is Err && stage is Validation ==> rejected_by(stage->Validation_0.spec_rules(), record@, r.1->Err_0),
        r.1 is Err && stage is Storage ==> stage->Storage_0.may_fail(),
        r.1 is Err && stage is Transform ==> error_text(r.1->Err_0) == stage->Transform_0.spec_rejection(record@),
        !(stage is Storage) ==> r.0 == stage,
        stage is Storage ==> r.0 is Storage,
{
    reveal(handled);
    reveal(stages_wf);
    match stage {
        PipelineStage::Validation(v) => {
            assert(seq![PipelineStage::<S>::Validation(v)][0] == PipelineStage::<S>::Validation(v));
            let out = match v.validate(&record) {
                Ok(()) => Ok(record),
                Err(e) => Err(e),
            };
            (PipelineStage::Validation(v), out)
        },
        PipelineStage::Transform(t) => {
            let out = t.transform(record);
            (PipelineStage::Transform(t), out)
        },
        PipelineStage::Storage(s) => {
            let mut s = s;
            assert(seq![PipelineStage::<S>::Storage(s)][0] == PipelineStage::<S>::Storage(s));
            let stored = s.store(&record);
            let out = match stored {
                Ok(()) => Ok(record),
                Err(e) => Err(e),
            };
            let after = PipelineStage::Storage(s);
            assert(seq![after][0] == after);
            (after, out)
        },
    }
}

proof fn lemma_wf_concat<S: Storage>(a: Seq<PipelineStage<S>>, b: Seq<PipelineStage<S>>)
    requires
        stages_wf(a),
        stages_wf(b),
    ensures
        stages_wf(a + b),
{
    reveal(stages_wf);
    assert forall|j: int| 0 <= j < (a + b).len() implies match #[trigger] (a + b)[j] {
        PipelineStage::Storage(s) => s.well_formed(),
        _ => true,
    } by {
        if j < a.len() {
            assert((a + b)[j] == a[j]);
        } else {
            assert((a + b)[j] == b[j - a.len()]);
        }
    }
}

/// One more stage: what it passes on.
pub proof fn lemma_run_step<S: Storage>(stages: Seq<PipelineStage<S>>, input: RecordView, n: nat)
    ensures
        run_prefix(stages, input, 0) == Some(input),
        run_prefix(stages, input, n + 1) == match run_prefix(stages, input, n) {
            Some(x) => stage_output(stages[n as int], x),
            None => None,
        },
{
    reveal_with_fuel(run_prefix, 2);
}

proof fn lemma_wf_subrange<S: Storage>(a: Seq<PipelineStage<S>>, lo: int, hi: int)
    requires
        stages_wf(a),
        0 <= lo <= hi <= a.len(),
    ensures
        stages_wf(a.subrange(lo, hi)),
        lo < hi ==> stages_wf(seq![a[lo]]),
{
    reveal(stages_wf);
    assert forall|j: int| 0 <= j < a.subrange(lo, hi).len() implies match #[trigger] a.subrange(lo, hi)[j] {
        PipelineStage::Storage(s) => s.well_formed(),
        _ => true,
    } by {
        assert(a.subrange(lo, hi)[j] == a[lo + j]);
    }
    if lo < hi {
        assert(seq![a[lo]][0] == a[lo]);
    }
}

proof fn lemma_handled_prefix<S: Storage>(
    before: Seq<PipelineStage<S>>,
    after: Seq<PipelineStage<S>>,
    done: Seq<PipelineStage<S>>,
    start: RecordView,
    i: int,
)
    requires
        0 <= i <= done.len() <= after.len(),
        forall|j: int| 0 <= j < done.len() ==> after[j] == done[j],
        forall|j: int| 0 <= j < i ==> handled(
            before[j],
            #[trigger] done[j],
            run_prefix(before, start, j as nat)->Some_0,
        ),
    ensures
        forall|j: int| 0 <= j < i ==> handled(
            before[j],
            #[trigger] after[j],
            run_prefix(before, start, j as nat)->Some_0,
        ),
{
    assert forall|j: int| 0 <= j < i implies handled(
        before[j],
        #[trigger] after[j],
        run_prefix(before, start, j as nat)->Some_0,
    ) by {
        assert(after[j] == done[j]);
    }
}

impl<S: Storage> Pipeline<S> {
    /// The stages, in order.
    pub closed spec fn spec_stages(&self) -> Seq<PipelineStage<S>> {
        self.stages@
    }

    /// The name.
    pub closed spec fn spec_name(&self) -> Seq<char> {
        self.name@
    }

    /// An empty pipeline named `name`.
    pub fn new(name: &str) -> (r: Self)
        ensures
            r.spec_name() == name@,
            r.spec_stages() == Seq::<PipelineStage<S>>::empty(),
    {
        Pipeline { name: String::from_str(name), stages: Vec::new() }
    }

    /// Appends a stage.
    pub fn add_stage(&mut self, stage: PipelineStage<S>)
        ensures
            final(self).spec_stages() == old(self).spec_stages().push(stage),
            final(self).spec_name() == old(self).spec_name(),
    {
        self.stages.push(stage);
    }

    /// Runs the stages in order on the record. The first failure stops the
    /// run: later stages are not reached, the record is dropped, and the
    /// failing stage's own error is returned unchanged (the first rejecting
    /// rule's validation error, the transform's rejection, or the backend's
    /// error; a backend that cannot fail never ends a run).
    pub fn execute(&mut self, record: Record) -> (r: Result<Record, Error>)
        requires
            stages_wf(old(self).spec_stages()),
        ensures
            stages_wf(final(self).spec_stages()),
            final(self).spec_name() == old(self).spec_name(),
            final(self).spec_stages().len() == old(self).spec_stages().len(),
            r is Ok ==> {
                &&& run_prefix(old(self).spec_stages(), record@, old(self).spec_stages().len()) == Some(r->Ok_0@)
                &&& forall|j: int| 0 <= j < old(self).spec_stages().len() ==> handled(
                    old(self).spec_stages()[j],
                    #[trigger] final(self).spec_stages()[j],
                    run_prefix(old(self).spec_stages(), record@, j as nat)->Some_0,
                )
            },
            r is Err ==> exists|k: int| {
                &&& 0 <= k < old(self).spec_stages().len()
                &&& run_prefix(old(self).spec_stages(), record@, k as nat) is Some
                &&& (stage_output(
                    old(self).spec_stages()[k],
                    run_prefix(old(self).spec_stages(), record@, k as nat)->Some_0,
                ) is None || old(self).spec_stages()[k] is Storage)
                &&& (old(self).spec_stages()[k] is Validation ==> rejected_by(
                    old(self).spec_stages()[k]->Validation_0.spec_rules(),
                    run_prefix(old(self).spec_stages(), record@, k as nat)->Some_0,
                    r->Err_0,
                ))
                &&& (old(self).spec_stages()[k] is Storage ==> old(self).spec_stages()[k]->Storage_0.may_fail())
                &&& (old(self).spec_stages()[k] is Transform ==> error_text(r->Err_0)
                    == old(self).spec_stages()[k]->Transform_0.spec_rejection(
                    run_prefix(old(self).spec_stages(), record@, k as nat)->Some_0,
                ))
                &&& forall|j: int| 0 <= j < k ==> handled(
                    old(self).spec_stages()[j],
                    #[trigger] final(self).spec_stages()[j],
                    run_prefix(old(self).spec_stages(), record@, j as nat)->Some_0,
                )
                &&& forall|j: int| k < j < old(self).spec_stages().len() ==> #[trigger] final(self).spec_stages()[j]
                    == old(self).spec_stages()[j]
            },
    {
        let ghost start = record@;
        let ghost before = self.stages@;
        let mut pending: Vec<PipelineStage<S>> = Vec::new();
        std::mem::swap(&mut pending, &mut self.stages);
        let mut done: Vec<PipelineStage<S>> = Vec::new();
        let mut current = record;
        let n = pending.len();
        let mut i: usize = 0;
        proof {
            lemma_wf_subrange(before, 0, 0);
            lemma_run_step(before, start, 0);
            assert(done@ =~= before.subrange(0, 0));
            assert(before.subrange(0, n as int) =~= before);
        }
        while i < n
            invariant
                i <= n,
                n == before.len(),
                before == old(self).spec_stages(),
                self.name == old(self).name,
                done.len() == i,
                pending@ == before.subrange(i as int, n as int),
                stages_wf(before),
                stages_wf(done@),
                run_prefix(before, start, i as nat) == Some(current@),
                start == record@,
                forall|j: int| 0 <= j < i ==> handled(
                    before[j],
                    #[trigger] done@[j],
                    run_prefix(before, start, j as nat)->Some_0,
                ),
            decreases n - i,
        {
            let stage = pending.remove(0);
            proof {
                lemma_run_step(before, start, i as nat);
                lemma_wf_subrange(before, i as int, n as int);
                assert(stage == before[i as int]);
                assert(seq![stage][0] == stage);
                assert(pending@ =~= before.subrange(i as int + 1, n as int));
            }
            let ghost record_in = current@;
            let (stage, out) = run_stage(stage, current);
            let ghost prior = done@;
            done.push(stage);
            proof {
                assert(seq![stage][0] == stage);
                lemma_wf_concat(prior, seq![stage]);
                assert(prior + seq![stage] =~= done@);
                lemma_handled_prefix(before, done@, prior, start, i as int);
            }
            match out {
                Ok(next) => {
                    current = next;
                },
                Err(e) => {
                    let ghost tail = pending@;
                    let ghost head = done@;
                    done.append(&mut pending);
                    self.stages = done;
                    proof {
                        assert(self.stages@ == head + tail);
                        lemma_wf_subrange(before, i + 1, n as int);
                        lemma_wf_concat(head, tail);
                        assert forall|j: int| i < j < n implies #[trigger] self.stages@[j] == before[j] by {
                            assert(self.stages@[j] == tail[j - i - 1]);
                        }
                        lemma_handled_prefix(before, self.stages@, head, start, i as int);
                        let k = i as int;
                        assert(run_prefix(before, start, k as nat) == Some(record_in));
                        assert(stage_output(before[k], record_in) is None || before[k] is Storage);
                        assert(before[k] is Validation ==> rejected_by(before[k]->Validation_0.spec_rules(), record_in, e));
                        assert(before[k] is Storage ==> before[k]->Storage_0.may_fail());
                        assert(before[k] is Transform ==> error_text(e) == before[k]->Transform_0.spec_rejection(record_in));
                        assert(forall|j: int| k < j < old(self).spec_stages().len() ==> #[trigger] self.spec_stages()[j]
                            == old(self).spec_stages()[j]);
                        assert(forall|j: int| 0 <= j < k ==> handled(
                            old(self).spec_stages()[j],
                            #[trigger] self.spec_stages()[j],
                            run_prefix(old(self).spec_stages(), start, j as nat)->Some_0,
                        ));
                    }
                    return Err(e);
                },
            }
            i = i + 1;
        }
        self.stages = done;
        Ok(current)
    }

    /// The name.
    pub fn name(&self) -> (r: &String)
        ensures
            r@ == self.spec_name(),
    {
        &self.name
    }

    /// The number of stages.
    pub fn stage_count(&self) -> (r: usize)
        ensures
            r == self.spec_stages().len(),
    {
        self.stages.len()
    }

    /// The backend of stage `i`, when that stage stores.
    pub fn storage_at(&self, i: usize) -> (r: Option<&S>)
        ensures
            match r {
                Some(s) => i < self.spec_stages().len() && self.spec_stages()[i as int] == PipelineStage::Storage(*s),
                None => i >= self.spec_stages().len() || !(self.spec_stages()[i as int] is Storage),
            },
    {
        if i < self.stages.len() {
            match &self.stages[i] {
                PipelineStage::Storage(s) => Some(s),
                _ => None,
            }
        } else {
            None
        }
    }
}

/// Builds a [`Pipeline`] stage by stage.
#[derive(Debug)]
pub struct PipelineBuilder<S: Storage> {
    pipeline: Pipeline<S>,
}

impl<S: Storage> PipelineBuilder<S> {
    /// The pipeline built so far.
    pub closed spec fn spec_pipeline(&self) -> Pipeline<S> {
        self.pipeline
    }

    /// A builder for an empty pipeline named `name`.
    pub fn new(name: &str) -> (r: Self)
        ensures
            r.spec_pipeline().spec_name() == name@,
            r.spec_pipeline().spec_stages() == Seq::<PipelineStage<S>>::empty(),
    {
        PipelineBuilder { pipeline: Pipeline::new(name) }
    }

    /// Appends a validation stage.
    pub fn validate(self, validator: Validator) -> (r: Self)
        ensures
            r.spec_pipeline().spec_name() == self.spec_pipeline().spec_name(),
            r.spec_pipeline().spec_stages() == self.spec_pipeline().spec_stages().push(
                PipelineStage::Validation(validator),
            ),
    {
        let mut b = self;
        b.pipeline.add_stage(PipelineStage::Validation(validator));
        b
    }

    /// Appends a transform stage.
    pub fn transform(self, transform: RecordTransform) -> (r: Self)
        ensures
            r.spec_pipeline().spec_name() == self.spec_pipeline().spec_name(),
            r.spec_pipeline().spec_stages() == self.spec_pipeline().spec_stages().push(
                PipelineStage::Transform(transform),
            ),
    {
        let mut b = self;
        b.pipeline.add_stage(PipelineStage::Transform(transform));
        b
    }

    /// Appends a storage stage.
    pub fn store(self, storage: S) -> (r: Self)
        ensures
            r.spec_pipeline().spec_name() == self.spec_pipeline().spec_name(),
            r.spec_pipeline().spec_stages() == self.spec_pipeline().spec_stages().push(
                PipelineStage::Storage(storage),
            ),
    {
        let mut b = self;
        b.pipeline.add_stage(PipelineStage::Storage(storage));
        b
    }

    /// The pipeline.
    pub fn build(self) -> (r: Pipeline<S>)
        ensures
            r == self.spec_pipeline(),
    {
        self.pipeline
    }
}

/// Fail-fast: once a stage rejects the record, no later stage passes
/// anything on, so no later stage's effect reaches the result.
pub proof fn lemma_fail_fast<S: Storage>(stages: Seq<PipelineStage<S>>, input: RecordView, k: nat, n: nat)
    requires
        k < n <= stages.len(),
        run_prefix(stages, input, k) is Some,
        stage_output(stages[k as int], run_prefix(stages, input, k)->Some_0) is None,
    ensures
        run_prefix(stages, input, n) is None,
    decreases n - k,
{
    lemma_run_step(stages, input, k);
    if n > k + 1 {
        lemma_none_stays(stages, input, k + 1, n);
    }
}

proof fn lemma_none_stays<S: Storage>(stages: Seq<PipelineStage<S>>, input: RecordView, m: nat, n: nat)
    requires
        m <= n <= stages.len(),
        run_prefix(stages, input, m) is None,
    ensures
        run_prefix(stages, input, n) is None,
    decreases n - m,
{
    if m < n {
        lemma_run_step(stages, input, m);
        lemma_none_stays(stages, input, m + 1, n);
    }
}

} // verus!
