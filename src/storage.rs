//! Storage backends: the interface, an in-memory table, and a write-through
//! cache over any backend.

use vstd::prelude::*;
use crate::error::Error;
use crate::record::{Record, RecordView};
use crate::table::RecordTable;

verus! {

/// The model of an optional record.
pub open spec fn opt_record(o: Option<Record>) -> Option<RecordView> {
    match o {
        Some(r) => Some(r@),
        None => None,
    }
}

/// The model of a map lookup.
pub open spec fn map_get(m: Map<u128, RecordView>, id: u128) -> Option<RecordView> {
    if m.contains_key(id) {
        Some(m[id])
    } else {
        None
    }
}

/// A place that keeps records by identifier. Every operation may fail with
/// an error of the backend's own; what follows a success is stated below,
/// for a backend whose lookups answer from what it stores (`coherent`).
pub trait Storage {
    /// The records a lookup answers with, by identifier.
    spec fn stored(&self) -> Map<u128, RecordView>;

    /// Internal invariants, kept by every operation.
    spec fn well_formed(&self) -> bool;

    /// No stale entry stands between a lookup and what is stored.
    spec fn coherent(&self) -> bool;

    /// Whether an operation can fail for a cause of the backend's own. An
    /// operation of a backend that cannot fail fails only where stated.
    spec fn may_fail(&self) -> bool;

    /// Stores the record, in place of any with the same identifier.
    fn store(&mut self, record: &Record) -> (r: Result<(), Error>)
        requires
            old(self).well_formed(),
        ensures
            final(self).well_formed(),
            final(self).may_fail() == old(self).may_fail(),
            r is Err ==> old(self).may_fail(),
            old(self).coherent() && r is Ok ==> final(self).coherent() && final(self).stored()
                == old(self).stored().insert(record.id, record@),
    ;

    /// The record with this identifier.
    fn get(&mut self, id: u128) -> (r: Result<Option<Record>, Error>)
        requires
            old(self).well_formed(),
        ensures
            final(self).well_formed(),
            final(self).may_fail() == old(self).may_fail(),
            r is Err ==> old(self).may_fail(),
            old(self).coherent() && r is Ok ==> {
                &&& final(self).coherent()
                &&& final(self).stored() == old(self).stored()
                &&& opt_record(r->Ok_0) == map_get(old(self).stored(), id)
            },
    ;

    /// Replaces a stored record; fails with `NotFound` when none has its
    /// identifier.
    fn update(&mut self, record: &Record) -> (r: Result<(), Error>)
        requires
            old(self).well_formed(),
        ensures
            final(self).well_formed(),
            final(self).may_fail() == old(self).may_fail(),
            r is Err ==> old(self).may_fail() || !old(self).coherent() || !old(self).stored().contains_key(
                record.id,
            ),
            old(self).coherent() && r is Ok ==> {
                &&& old(self).stored().contains_key(record.id)
                &&& final(self).coherent()
                &&& final(self).stored() == old(self).stored().insert(record.id, record@)
            },
    ;

    /// Removes the record with this identifier; tells whether one was there.
    fn delete(&mut self, id: u128) -> (r: Result<bool, Error>)
        requires
            old(self).well_formed(),
        ensures
            final(self).well_formed(),
            final(self).may_fail() == old(self).may_fail(),
            r is Err ==> old(self).may_fail(),
            old(self).coherent() && r is Ok ==> {
                &&& r->Ok_0 == old(self).stored().contains_key(id)
                &&& final(self).coherent()
                &&& final(self).stored() == old(self).stored().remove(id)
            },
    ;

    /// The identifiers stored, each once, in no promised order.
    fn list(&self) -> (r: Result<Vec<u128>, Error>)
        requires
            self.well_formed(),
        ensures
            r is Err ==> self.may_fail(),
            self.coherent() && r is Ok ==> r->Ok_0@.to_set() == self.stored().dom()
                && r->Ok_0@.no_duplicates(),
    ;

    /// The number of records stored.
    fn count(&self) -> (r: Result<usize, Error>)
        requires
            self.well_formed(),
        ensures
            r is Err ==> self.may_fail(),
            self.coherent() && r is Ok ==> r->Ok_0 == self.stored().len(),
    ;

    /// Removes every record.
    fn clear(&mut self) -> (r: Result<(), Error>)
        requires
            old(self).well_formed(),
        ensures
            final(self).well_formed(),
            final(self).may_fail() == old(self).may_fail(),
            r is Err ==> old(self).may_fail(),
            r is Ok ==> final(self).coherent() && final(self).stored() == Map::<
                u128,
                RecordView,
            >::empty(),
    ;
}

/// A backend that keeps its records in memory. No operation fails.
#[derive(Debug)]
pub struct InMemoryStorage {
    records: RecordTable,
}

impl InMemoryStorage {
    /// An empty store.
    pub fn new() -> (r: InMemoryStorage)
        ensures
            r.well_formed(),
            r.coherent(),
            r.stored() == Map::<u128, RecordView>::empty(),
    {
        InMemoryStorage { records: RecordTable::new() }
    }
}

impl InMemoryStorage {
    /// A well-formed store holds finitely many records.
    pub proof fn lemma_stored_finite(&self)
        requires
            self.well_formed(),
        ensures
            self.stored().dom().finite(),
    {
        self.records.lemma_finite();
    }
}

impl Default for InMemoryStorage {
    fn default() -> (r: InMemoryStorage)
        ensures
            r.well_formed(),
            r.stored() == Map::<u128, RecordView>::empty(),
    {
        InMemoryStorage::new()
    }
}

impl Storage for InMemoryStorage {
    closed spec fn stored(&self) -> Map<u128, RecordView> {
        self.records@
    }

    closed spec fn well_formed(&self) -> bool {
        self.records.wf()
    }

    open spec fn coherent(&self) -> bool {
        true
    }

    open spec fn may_fail(&self) -> bool {
        false
    }

    fn store(&mut self, record: &Record) -> (r: Result<(), Error>)
        ensures
            r is Ok,
            final(self).stored() == old(self).stored().insert(record.id, record@),
    {
        self.records.upsert(record.clone());
        Ok(())
    }

    fn get(&mut self, id: u128) -> (r: Result<Option<Record>, Error>)
        ensures
            r is Ok,
            final(self).stored() == old(self).stored(),
            opt_record(r->Ok_0) == map_get(old(self).stored(), id),
    {
        match self.records.get(id) {
            Some(x) => Ok(Some(x)),
            None => Ok(None),
        }
    }

    fn update(&mut self, record: &Record) -> (r: Result<(), Error>)
        ensures
            r is Ok <==> old(self).stored().contains_key(record.id),
            r is Ok ==> final(self).stored() == old(self).stored().insert(record.id, record@),
            r is Err ==> r->Err_0 is NotFound && final(self).stored() == old(self).stored(),
    {
        if self.records.contains(record.id) {
            self.records.upsert(record.clone());
            Ok(())
        } else {
            Err(Error::not_found("Record with this ID not found"))
        }
    }

    fn delete(&mut self, id: u128) -> (r: Result<bool, Error>)
        ensures
            r is Ok,
            r->Ok_0 == old(self).stored().contains_key(id),
            final(self).stored() == old(self).stored().remove(id),
    {
        let removed = self.records.remove(id);
        Ok(removed.is_some())
    }

    fn list(&self) -> (r: Result<Vec<u128>, Error>)
        ensures
            r is Ok,
            r->Ok_0@.to_set() == self.stored().dom(),
            r->Ok_0@.no_duplicates(),
    {
        Ok(self.records.ids())
    }

    fn count(&self) -> (r: Result<usize, Error>)
        ensures
            r is Ok,
            r->Ok_0 == self.stored().len(),
    {
        Ok(self.records.len())
    }

    fn clear(&mut self) -> (r: Result<(), Error>)
        ensures
            r is Ok,
            final(self).stored() == Map::<u128, RecordView>::empty(),
    {
        self.records.clear();
        Ok(())
    }
}

/// The cache after making room: when it holds at least `capacity` entries
/// (and any at all), exactly one of them is gone; otherwise it is unchanged.
pub open spec fn evicted(before: Map<u128, RecordView>, capacity: nat, after: Map<u128, RecordView>) -> bool {
    if before.len() >= capacity && before.len() > 0 {
        exists|k: u128| before.contains_key(k) && after == before.remove(k)
    } else {
        after == before
    }
}

/// The most entries a cache of size `cache_size` holds: one entry always
/// fits, so that a record can be admitted.
pub open spec fn capacity_bound(cache_size: usize) -> nat {
    if cache_size == 0 {
        1
    } else {
        cache_size as nat
    }
}

/// A write-through cache in front of a backend: a bounded table of records
/// kept apart from the backend. Lookups answer from the cache first.
#[derive(Debug)]
pub struct CachedStorage<S: Storage> {
    inner: S,
    cache: RecordTable,
    cache_size: usize,
}

impl<S: Storage> CachedStorage<S> {
    /// The cached records, by identifier.
    pub closed spec fn spec_cache(&self) -> Map<u128, RecordView> {
        self.cache@
    }

    /// The backend.
    pub closed spec fn spec_inner(&self) -> S {
        self.inner
    }

    /// The configured cache size.
    pub closed spec fn spec_cache_size(&self) -> usize {
        self.cache_size
    }

    /// A cache of `cache_size` entries in front of `inner`, empty.
    pub fn new(inner: S, cache_size: usize) -> (r: Self)
        requires
            inner.well_formed(),
        ensures
            r.well_formed(),
            r.spec_cache() == Map::<u128, RecordView>::empty(),
            r.spec_inner() == inner,
            r.spec_cache_size() == cache_size,
            inner.coherent() ==> r.coherent(),
    {
        CachedStorage { inner, cache: RecordTable::new(), cache_size }
    }

    /// The number of cached records.
    pub fn cache_len(&self) -> (r: usize)
        requires
            self.well_formed(),
        ensures
            r == self.spec_cache().len(),
    {
        self.cache.len()
    }

    /// Whether a record with this identifier is cached.
    pub fn is_cached(&self, id: u128) -> (r: bool)
        ensures
            r == self.spec_cache().contains_key(id),
    {
        self.cache.contains(id)
    }

    /// The backend.
    pub fn inner(&self) -> (r: &S)
        ensures
            *r == self.spec_inner(),
    {
        &self.inner
    }

    /// Makes room for one entry: at capacity, one arbitrary entry leaves the
    /// cache. The backend is not involved.
    fn evict_if_needed(&mut self)
        requires
            old(self).cache.wf(),
            old(self).cache@.len() <= capacity_bound(old(self).cache_size),
        ensures
            final(self).cache.wf(),
            final(self).inner == old(self).inner,
            final(self).cache_size == old(self).cache_size,
            evicted(old(self).cache@, old(self).cache_size as nat, final(self).cache@),
            final(self).cache@.len() < capacity_bound(final(self).cache_size),
    {
        proof {
            self.cache.lemma_finite();
        }
        if self.cache.len() >= self.cache_size {
            match self.cache.first_id() {
                Some(id) => {
                    self.cache.remove(id);
                },
                None => {},
            }
        }
    }
}

/// A coherent cache adds nothing to what the backend answers.
proof fn lemma_coherent_union(m: Map<u128, RecordView>, c: Map<u128, RecordView>)
    requires
        forall|k: u128| #[trigger] c.contains_key(k) ==> m.contains_key(k) && m[k] == c[k],
    ensures
        m.union_prefer_right(c) == m,
{
    broadcast use vstd::map_lib::group_map_union;

    assert(m.union_prefer_right(c) =~= m);
}

impl<S: Storage> Storage for CachedStorage<S> {
    open spec fn stored(&self) -> Map<u128, RecordView> {
        self.spec_inner().stored().union_prefer_right(self.spec_cache())
    }

    closed spec fn well_formed(&self) -> bool {
        &&& self.inner.well_formed()
        &&& self.cache.wf()
        &&& self.cache@.len() <= capacity_bound(self.cache_size)
    }

    open spec fn coherent(&self) -> bool {
        &&& self.spec_inner().coherent()
        &&& forall|k: u128|
            #[trigger] self.spec_cache().contains_key(k) ==> self.spec_inner().stored().contains_key(k)
                && self.spec_inner().stored()[k] == self.spec_cache()[k]
    }

    open spec fn may_fail(&self) -> bool {
        self.spec_inner().may_fail()
    }

    fn store(&mut self, record: &Record) -> (r: Result<(), Error>)
        ensures
            old(self).spec_inner().coherent() && r is Ok ==> final(self).spec_inner().coherent()
                && final(self).spec_inner().stored() == old(self).spec_inner().stored().insert(
                record.id,
                record@,
            ),
            exists|m: Map<u128, RecordView>|
                evicted(old(self).spec_cache(), old(self).spec_cache_size() as nat, m)
                    && final(self).spec_cache() == m.insert(record.id, record@),
            final(self).spec_cache_size() == old(self).spec_cache_size(),
    {
        self.evict_if_needed();
        let ghost m = self.cache@;
        self.cache.upsert(record.clone());
        let r = self.inner.store(record);
        proof {
            if old(self).coherent() && r is Ok {
                lemma_coherent_union(old(self).spec_inner().stored(), old(self).spec_cache());
                lemma_coherent_union(self.spec_inner().stored(), self.spec_cache());
            }
        }
        r
    }

    fn get(&mut self, id: u128) -> (r: Result<Option<Record>, Error>)
        ensures
            old(self).spec_cache().contains_key(id) ==> {
                &&& r is Ok
                &&& opt_record(r->Ok_0) == Some(old(self).spec_cache()[id])
                &&& final(self).spec_cache() == old(self).spec_cache()
                &&& final(self).spec_inner() == old(self).spec_inner()
            },
            !old(self).spec_cache().contains_key(id) ==> match r {
                Ok(Some(x)) => if x.id == id {
                    exists|m: Map<u128, RecordView>|
                        evicted(old(self).spec_cache(), old(self).spec_cache_size() as nat, m)
                            && final(self).spec_cache() == m.insert(id, x@)
                } else {
                    final(self).spec_cache() == old(self).spec_cache()
                },
                _ => final(self).spec_cache() == old(self).spec_cache(),
            },
            !old(self).spec_cache().contains_key(id) && old(self).spec_inner().coherent() && r is Ok ==> {
                &&& opt_record(r->Ok_0) == map_get(old(self).spec_inner().stored(), id)
                &&& final(self).spec_inner().coherent()
                &&& final(self).spec_inner().stored() == old(self).spec_inner().stored()
            },
            final(self).spec_cache_size() == old(self).spec_cache_size(),
    {
        match self.cache.get(id) {
            Some(x) => {
                return Ok(Some(x));
            },
            None => {},
        }
        let found = self.inner.get(id);
        proof {
            if old(self).coherent() {
                lemma_coherent_union(old(self).spec_inner().stored(), old(self).spec_cache());
            }
        }
        match found {
            Ok(Some(x)) => {
                if x.id != id {
                    return Ok(Some(x));
                }
                let ghost before = self.cache@;
                self.evict_if_needed();
                let ghost kept = self.cache@;
                let copy = x.clone();
                self.cache.upsert(copy);
                proof {
                    if old(self).coherent() {
                        assert forall|k: u128| #[trigger] kept.contains_key(k) implies before.contains_key(k)
                            && before[k] == kept[k] by {
                            if before.len() >= old(self).cache_size as nat && before.len() > 0 {
                                let j = choose|j: u128| before.contains_key(j) && kept == before.remove(j);
                            }
                        }
                        assert(self.inner.stored() == old(self).inner.stored());
                        assert(self.inner.stored().contains_key(id) && self.inner.stored()[id] == x@);
                        assert forall|k: u128| #[trigger] self.cache@.contains_key(k) implies self.inner.stored().contains_key(k)
                            && self.inner.stored()[k] == self.cache@[k] by {
                            if k != id {
                                assert(kept.contains_key(k));
                            }
                        }
                        lemma_coherent_union(self.spec_inner().stored(), self.spec_cache());
                    }
                }
                Ok(Some(x))
            },
            Ok(None) => Ok(None),
            Err(e) => Err(e),
        }
    }

    fn update(&mut self, record: &Record) -> (r: Result<(), Error>)
        ensures
            old(self).spec_inner().coherent() && r is Ok ==> {
                &&& old(self).spec_inner().stored().contains_key(record.id)
                &&& final(self).spec_inner().coherent()
                &&& final(self).spec_inner().stored() == old(self).spec_inner().stored().insert(
                    record.id,
                    record@,
                )
            },
            r is Err ==> old(self).spec_inner().may_fail() || !old(self).spec_inner().coherent()
                || !old(self).spec_inner().stored().contains_key(record.id),
            exists|m: Map<u128, RecordView>|
                evicted(old(self).spec_cache(), old(self).spec_cache_size() as nat, m)
                    && final(self).spec_cache() == m.insert(record.id, record@),
            final(self).spec_cache_size() == old(self).spec_cache_size(),
    {
        self.evict_if_needed();
        self.cache.upsert(record.clone());
        let r = self.inner.update(record);
        proof {
            if old(self).coherent() && r is Ok {
                lemma_coherent_union(old(self).spec_inner().stored(), old(self).spec_cache());
                lemma_coherent_union(self.spec_inner().stored(), self.spec_cache());
            }
        }
        r
    }

    fn delete(&mut self, id: u128) -> (r: Result<bool, Error>)
        ensures
            final(self).spec_cache() == old(self).spec_cache().remove(id),
            old(self).spec_inner().coherent() && r is Ok ==> {
                &&& r->Ok_0 == old(self).spec_inner().stored().contains_key(id)
                &&& final(self).spec_inner().coherent()
                &&& final(self).spec_inner().stored() == old(self).spec_inner().stored().remove(id)
            },
            final(self).spec_cache_size() == old(self).spec_cache_size(),
    {
        self.cache.remove(id);
        let r = self.inner.delete(id);
        proof {
            if old(self).coherent() && r is Ok {
                lemma_coherent_union(old(self).spec_inner().stored(), old(self).spec_cache());
                lemma_coherent_union(self.spec_inner().stored(), self.spec_cache());
            }
        }
        r
    }

    fn list(&self) -> (r: Result<Vec<u128>, Error>) {
        proof {
            if self.coherent() {
                lemma_coherent_union(self.spec_inner().stored(), self.spec_cache());
            }
        }
        self.inner.list()
    }

    fn count(&self) -> (r: Result<usize, Error>) {
        proof {
            if self.coherent() {
                lemma_coherent_union(self.spec_inner().stored(), self.spec_cache());
            }
        }
        self.inner.count()
    }

    fn clear(&mut self) -> (r: Result<(), Error>)
        ensures
            final(self).spec_cache() == Map::<u128, RecordView>::empty(),
            final(self).spec_cache_size() == old(self).spec_cache_size(),
    {
        self.cache.clear();
        let r = self.inner.clear();
        proof {
            if r is Ok {
                lemma_coherent_union(self.spec_inner().stored(), self.spec_cache());
            }
        }
        r
    }
}

/// Store, then get: after a successful store of `rec` into a coherent
/// backend, a lookup of its identifier answers a record equal to `rec`;
/// after a successful delete, it answers none; after a successful clear,
/// nothing is counted.
pub proof fn lemma_storage_round_trip<S: Storage>(s0: S, s1: S, s2: S, s3: S, rec: RecordView)
    requires
        s0.coherent(),
        s1.coherent() && s1.stored() == s0.stored().insert(rec.id, rec),
        s2.coherent() && s2.stored() == s1.stored().remove(rec.id),
        s3.stored() == Map::<u128, RecordView>::empty(),
    ensures
        map_get(s1.stored(), rec.id) == Some(rec),
        map_get(s2.stored(), rec.id) is None,
        s3.stored().len() == 0,
{
}

/// The cache never holds more than `cache_size` entries (for a positive
/// size).
pub proof fn lemma_cache_bounded<S: Storage>(c: CachedStorage<S>)
    requires
        c.well_formed(),
        c.spec_cache_size() > 0,
    ensures
        c.spec_cache().len() <= c.spec_cache_size(),
        c.spec_cache().dom().finite(),
{
    c.cache.lemma_finite();
}

/// Storing one more identifier into a full cache evicts exactly one prior
/// entry and leaves the cache exactly full; the stored record is what a
/// lookup of its identifier then answers from the cache.
pub proof fn lemma_store_into_full_cache(
    before: Map<u128, RecordView>,
    cache_size: usize,
    kept: Map<u128, RecordView>,
    rec: RecordView,
)
    requires
        cache_size > 0,
        before.dom().finite(),
        before.len() == cache_size,
        !before.contains_key(rec.id),
        evicted(before, cache_size as nat, kept),
    ensures
        exists|k: u128|
            before.contains_key(k) && kept.insert(rec.id, rec) == before.remove(k).insert(rec.id, rec),
        kept.insert(rec.id, rec).len() == cache_size,
        kept.insert(rec.id, rec).contains_key(rec.id),
        kept.insert(rec.id, rec)[rec.id] == rec,
{
    let k = choose|k: u128| before.contains_key(k) && kept == before.remove(k);
    before.lemma_remove_key_len(k);
    assert(!kept.contains_key(rec.id));
}

} // verus!
