//! A table of records keyed by their identifiers, kept in a `DashMap`.

use vstd::prelude::*;
use crate::record::{Record, RecordView};

verus! {

#[verifier::external_type_specification]
#[verifier::external_body]
#[verifier::reject_recursive_types(K)]
#[verifier::reject_recursive_types(V)]
#[verifier::reject_recursive_types(S)]
pub struct ExDashMap<K, V, S>(dashmap::DashMap<K, V, S>);

/// The records a `DashMap` holds, by identifier.
pub uninterp spec fn dash_records(m: dashmap::DashMap<u128, Record>) -> Map<u128, Record>;

/// Relies on `DashMap::new`: an empty map.
#[verifier::external_body]
fn dash_new() -> (r: dashmap::DashMap<u128, Record>)
    ensures
        dash_records(r).is_empty(),
{
    dashmap::DashMap::new()
}

/// Relies on `DashMap::insert`: the key maps to the value afterwards, every
/// other key is unchanged.
#[verifier::external_body]
fn dash_insert(m: &mut dashmap::DashMap<u128, Record>, k: u128, v: Record)
    ensures
        dash_records(*final(m)) == dash_records(*old(m)).insert(k, v),
{
    m.insert(k, v);
}

/// Relies on `DashMap::remove`: the key is gone afterwards, and its value is
/// returned when it was there.
#[verifier::external_body]
fn dash_remove(m: &mut dashmap::DashMap<u128, Record>, k: u128) -> (r: Option<Record>)
    ensures
        dash_records(*final(m)) == dash_records(*old(m)).remove(k),
        match r {
            Some(v) => dash_records(*old(m)).contains_key(k) && dash_records(*old(m))[k] == v,
            None => !dash_records(*old(m)).contains_key(k),
        },
{
    m.remove(&k).map(|e| e.1)
}

/// Relies on `DashMap::get`: the value of the key, copied out by
/// [`Record::clone`].
#[verifier::external_body]
fn dash_get(m: &dashmap::DashMap<u128, Record>, k: u128) -> (r: Option<Record>)
    ensures
        match r {
            Some(v) => dash_records(*m).contains_key(k) && v@ == dash_records(*m)[k]@,
            None => !dash_records(*m).contains_key(k),
        },
{
    m.get(&k).map(|e| e.value().clone())
}

/// Relies on `DashMap::contains_key`.
#[verifier::external_body]
fn dash_contains(m: &dashmap::DashMap<u128, Record>, k: u128) -> (r: bool)
    ensures
        r == dash_records(*m).contains_key(k),
{
    m.contains_key(&k)
}

/// Relies on `DashMap::len`: the number of keys.
#[verifier::external_body]
fn dash_len(m: &dashmap::DashMap<u128, Record>) -> (r: usize)
    ensures
        r == dash_records(*m).len(),
{
    m.len()
}

/// Relies on `DashMap::clear`: no key is left.
#[verifier::external_body]
fn dash_clear(m: &mut dashmap::DashMap<u128, Record>)
    ensures
        dash_records(*final(m)).is_empty(),
{
    m.clear();
}

/// Relies on `DashMap::iter`: each key once, in the map's own order.
#[verifier::external_body]
fn dash_keys(m: &dashmap::DashMap<u128, Record>) -> (r: Vec<u128>)
    ensures
        r@.to_set() == dash_records(*m).dom(),
        r@.no_duplicates(),
{
    m.iter().map(|e| *e.key()).collect()
}

/// Relies on `DashMap::iter`: the first key the map's iteration yields.
#[verifier::external_body]
fn dash_first_key(m: &dashmap::DashMap<u128, Record>) -> (r: Option<u128>)
    ensures
        match r {
            Some(k) => dash_records(*m).contains_key(k),
            None => dash_records(*m).dom() == Set::<u128>::empty(),
        },
{
    m.iter().next().map(|e| *e.key())
}

/// Records keyed by identifier.
#[derive(Debug)]
pub struct RecordTable {
    map: dashmap::DashMap<u128, Record>,
}

impl RecordTable {
    /// Finitely many records are held.
    pub closed spec fn wf(self) -> bool {
        dash_records(self.map).dom().finite()
    }

    /// The records held, by identifier.
    pub closed spec fn spec_map(self) -> Map<u128, RecordView> {
        dash_records(self.map).map_values(|r: Record| r@)
    }

    /// An empty table.
    pub fn new() -> (r: RecordTable)
        ensures
            r.wf(),
            r@ == Map::<u128, RecordView>::empty(),
    {
        let r = RecordTable { map: dash_new() };
        assert(r@ =~= Map::<u128, RecordView>::empty());
        r
    }

    /// The number of records held.
    pub fn len(&self) -> (r: usize)
        requires
            self.wf(),
        ensures
            r == self@.len(),
    {
        assert(self@.dom() =~= dash_records(self.map).dom());
        dash_len(&self.map)
    }

    /// Whether a record with this identifier is held.
    pub fn contains(&self, id: u128) -> (r: bool)
        ensures
            r == self@.contains_key(id),
    {
        dash_contains(&self.map, id)
    }

    /// A copy of the record with this identifier.
    pub fn get(&self, id: u128) -> (r: Option<Record>)
        requires
            self.wf(),
        ensures
            match r {
                Some(x) => self@.contains_key(id) && self@[id] == x@,
                None => !self@.contains_key(id),
            },
    {
        dash_get(&self.map, id)
    }

    /// Stores the record, in place of any record with the same identifier.
    pub fn upsert(&mut self, record: Record)
        requires
            old(self).wf(),
        ensures
            final(self).wf(),
            final(self)@ == old(self)@.insert(record.id, record@),
            final(self)@.dom().finite(),
            final(self)@.len() == if old(self)@.contains_key(record.id) {
                old(self)@.len()
            } else {
                old(self)@.len() + 1
            },
    {
        let ghost rv = record@;
        let id = record.id;
        dash_insert(&mut self.map, id, record);
        proof {
            assert(self@ =~= old(self)@.insert(id, rv));
            assert(self@.dom() =~= dash_records(self.map).dom());
            assert(old(self)@.dom() =~= dash_records(old(self).map).dom());
        }
    }

    /// Removes the record with this identifier, returning it.
    pub fn remove(&mut self, id: u128) -> (r: Option<Record>)
        requires
            old(self).wf(),
        ensures
            final(self).wf(),
            final(self)@ == old(self)@.remove(id),
            final(self)@.dom().finite(),
            final(self)@.len() == if old(self)@.contains_key(id) {
                old(self)@.len() - 1
            } else {
                old(self)@.len() as int
            },
            match r {
                Some(x) => old(self)@.contains_key(id) && old(self)@[id] == x@,
                None => !old(self)@.contains_key(id),
            },
    {
        let r = dash_remove(&mut self.map, id);
        proof {
            assert(self@ =~= old(self)@.remove(id));
            assert(self@.dom() =~= dash_records(self.map).dom());
            assert(old(self)@.dom() =~= dash_records(old(self).map).dom());
        }
        r
    }

    /// A well-formed table holds finitely many records.
    pub proof fn lemma_finite(&self)
        requires
            self.wf(),
        ensures
            self@.dom().finite(),
    {
        assert(self@.dom() =~= dash_records(self.map).dom());
    }

    /// Removes every record.
    pub fn clear(&mut self)
        requires
            old(self).wf(),
        ensures
            final(self).wf(),
            final(self)@ == Map::<u128, RecordView>::empty(),
    {
        dash_clear(&mut self.map);
        assert(self@ =~= Map::<u128, RecordView>::empty());
    }

    /// The identifiers held, each once, in no promised order.
    pub fn ids(&self) -> (r: Vec<u128>)
        requires
            self.wf(),
        ensures
            r@.to_set() == self@.dom(),
            r@.no_duplicates(),
    {
        assert(self@.dom() =~= dash_records(self.map).dom());
        dash_keys(&self.map)
    }

    /// The identifier the table's iteration yields first, if any.
    pub fn first_id(&self) -> (r: Option<u128>)
        requires
            self.wf(),
        ensures
            match r {
                Some(id) => self@.contains_key(id),
                None => self@.len() == 0,
            },
    {
        assert(self@.dom() =~= dash_records(self.map).dom());
        dash_first_key(&self.map)
    }
}

impl View for RecordTable {
    type V = Map<u128, RecordView>;

    open spec fn view(&self) -> Map<u128, RecordView> {
        self.spec_map()
    }
}

} // verus!
