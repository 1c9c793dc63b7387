//! The unit of work: a keyed, tagged payload with lifecycle metadata.

use vstd::prelude::*;
use crate::error::Error;
use crate::json::{JsonValue, JsonView, find_key, has_key, lookup, upsert, remove_key, lemma_first_key, keys_unique, lemma_unique_kept};
use crate::sources::{now_millis, fresh_id};

verus! {

/// Processing status of a record.
#[derive(Debug, Clone, Copy, PartialEq, Eq, Structural)]
pub enum RecordStatus {
    /// Waiting to be processed.
    Pending,
    /// Being processed.
    Processing,
    /// Processed successfully.
    Completed,
    /// Processing failed.
    Failed,
    /// Archived; set only from outside this library.
    Archived,
}

/// Lifecycle metadata of a record. Times are milliseconds since the Unix epoch.
#[derive(Debug)]
pub struct RecordMetadata {
    /// When the record was created.
    pub created_at: i64,
    /// When the record was last changed.
    pub updated_at: i64,
    /// The system or component that created the record.
    pub source: String,
    /// Grows by one with every change of the value.
    pub version: u64,
    /// Processing status.
    pub status: RecordStatus,
    /// Number of times processing started.
    pub process_count: u32,
    /// Number of times processing failed.
    pub failure_count: u32,
    /// The last failure, if any.
    pub last_error: Option<String>,
}

/// A record: identity, key, payload, metadata and tags.
#[derive(Debug)]
pub struct Record {
    /// Unique identifier, assigned once at creation.
    pub id: u128,
    /// Caller's label.
    pub key: String,
    /// The payload.
    pub value: JsonValue,
    /// Lifecycle metadata.
    pub metadata: RecordMetadata,
    /// Tags as key/value pairs, in insertion order.
    pub tags: Vec<(String, String)>,
}

/// The model of [`RecordMetadata`].
pub struct MetadataView {
    pub created_at: i64,
    pub updated_at: i64,
    pub source: Seq<char>,
    pub version: u64,
    pub status: RecordStatus,
    pub process_count: u32,
    pub failure_count: u32,
    pub last_error: Option<Seq<char>>,
}

/// The model of a [`Record`].
pub struct RecordView {
    pub id: u128,
    pub key: Seq<char>,
    pub value: JsonView,
    pub metadata: MetadataView,
    pub tags: Seq<(Seq<char>, Seq<char>)>,
}

/// The model of an optional text.
pub open spec fn opt_text(o: Option<String>) -> Option<Seq<char>> {
    match o {
        Some(s) => Some(s@),
        None => None,
    }
}

/// The model of a list of text pairs.
pub open spec fn pairs_view(p: Seq<(String, String)>) -> Seq<(Seq<char>, Seq<char>)> {
    p.map_values(|e: (String, String)| (e.0@, e.1@))
}

impl View for RecordMetadata {
    type V = MetadataView;

    open spec fn view(&self) -> MetadataView {
        MetadataView {
            created_at: self.created_at,
            updated_at: self.updated_at,
            source: self.source@,
            version: self.version,
            status: self.status,
            process_count: self.process_count,
            failure_count: self.failure_count,
            last_error: opt_text(self.last_error),
        }
    }
}

impl View for Record {
    type V = RecordView;

    open spec fn view(&self) -> RecordView {
        RecordView {
            id: self.id,
            key: self.key@,
            value: self.value@,
            metadata: self.metadata@,
            tags: pairs_view(self.tags@),
        }
    }
}

/// The metadata of a record just created from `source` at time `now`.
pub open spec fn fresh_metadata(source: Seq<char>, now: i64) -> MetadataView {
    MetadataView {
        created_at: now,
        updated_at: now,
        source: source,
        version: 1,
        status: RecordStatus::Pending,
        process_count: 0,
        failure_count: 0,
        last_error: None,
    }
}

fn copy_text(o: &Option<String>) -> (r: Option<String>)
    ensures
        opt_text(r) == opt_text(*o),
{
    match o {
        Some(s) => Some(s.clone()),
        None => None,
    }
}

fn copy_pairs(p: &Vec<(String, String)>) -> (r: Vec<(String, String)>)
    ensures
        pairs_view(r@) == pairs_view(p@),
{
    let mut out: Vec<(String, String)> = Vec::new();
    let mut i: usize = 0;
    while i < p.len()
        invariant
            i <= p.len(),
            out.len() == i,
            forall|j: int| 0 <= j < i ==> out@[j].0@ == p@[j].0@ && out@[j].1@ == p@[j].1@,
        decreases p.len() - i,
    {
        out.push((p[i].0.clone(), p[i].1.clone()));
        i = i + 1;
    }
    proof {
        lemma_pairs_view(out@);
        lemma_pairs_view(p@);
        assert(pairs_view(out@) =~= pairs_view(p@));
    }
    out
}

impl Clone for RecordMetadata {
    fn clone(&self) -> (r: Self)
        ensures
            r@ == self@,
    {
        RecordMetadata {
            created_at: self.created_at,
            updated_at: self.updated_at,
            source: self.source.clone(),
            version: self.version,
            status: self.status,
            process_count: self.process_count,
            failure_count: self.failure_count,
            last_error: copy_text(&self.last_error),
        }
    }
}

impl Clone for Record {
    fn clone(&self) -> (r: Self)
        ensures
            r@ == self@,
    {
        Record {
            id: self.id,
            key: self.key.clone(),
            value: self.value.clone(),
            metadata: self.metadata.clone(),
            tags: copy_pairs(&self.tags),
        }
    }
}

/// The entries of a list of text pairs, entry by entry.
proof fn lemma_pairs_view(p: Seq<(String, String)>)
    ensures
        pairs_view(p).len() == p.len(),
        forall|j: int| 0 <= j < p.len() ==> #[trigger] pairs_view(p)[j] == (p[j].0@, p[j].1@),
{
}

impl Record {
    /// A new pending record with the given key and value, a fresh identifier,
    /// source `"default"`, version 1 and no tags.
    pub fn new(key: &str, value: JsonValue) -> (r: Record)
        ensures
            r@.key == key@,
            r@.value == value@,
            r@.metadata == fresh_metadata("default"@, r@.metadata.created_at),
            r@.tags.len() == 0,
    {
        let now = now_millis();
        Record {
            id: fresh_id(),
            key: String::from_str(key),
            value,
            metadata: RecordMetadata {
                created_at: now,
                updated_at: now,
                source: String::from_str("default"),
                version: 1,
                status: RecordStatus::Pending,
                process_count: 0,
                failure_count: 0,
                last_error: None,
            },
            tags: Vec::new(),
        }
    }

    /// A builder for records.
    pub fn builder() -> (r: RecordBuilder)
        ensures
            r.id is None && r.key is None && r.value is None && r.source is None && r.tags@.len() == 0,
    {
        RecordBuilder::new()
    }

    /// Replaces the value; the version grows by exactly one.
    pub fn update_value(&mut self, value: JsonValue)
        requires
            old(self).metadata.version < u64::MAX,
        ensures
            final(self)@ == (RecordView {
                value: value@,
                metadata: MetadataView {
                    version: (old(self).metadata.version + 1) as u64,
                    updated_at: final(self).metadata.updated_at,
                    ..old(self)@.metadata
                },
                ..old(self)@
            }),
    {
        self.value = value;
        self.metadata.updated_at = now_millis();
        self.metadata.version = self.metadata.version + 1;
    }

    /// Marks the record as being processed, counting the attempt.
    pub fn mark_processing(&mut self)
        requires
            old(self).metadata.process_count < u32::MAX,
        ensures
            final(self)@ == (RecordView {
                metadata: MetadataView {
                    status: RecordStatus::Processing,
                    process_count: (old(self).metadata.process_count + 1) as u32,
                    updated_at: final(self).metadata.updated_at,
                    ..old(self)@.metadata
                },
                ..old(self)@
            }),
    {
        self.metadata.status = RecordStatus::Processing;
        self.metadata.updated_at = now_millis();
        self.metadata.process_count = self.metadata.process_count + 1;
    }

    /// Marks the record as processed and clears the last error.
    pub fn mark_completed(&mut self)
        ensures
            final(self)@ == (RecordView {
                metadata: MetadataView {
                    status: RecordStatus::Completed,
                    last_error: None,
                    updated_at: final(self).metadata.updated_at,
                    ..old(self)@.metadata
                },
                ..old(self)@
            }),
    {
        self.metadata.status = RecordStatus::Completed;
        self.metadata.updated_at = now_millis();
        self.metadata.last_error = None;
    }

    /// Marks the record as failed with the given error, counting the failure.
    pub fn mark_failed(&mut self, error: &str)
        requires
            old(self).metadata.failure_count < u32::MAX,
        ensures
            final(self)@ == (RecordView {
                metadata: MetadataView {
                    status: RecordStatus::Failed,
                    failure_count: (old(self).metadata.failure_count + 1) as u32,
                    last_error: Some(error@),
                    updated_at: final(self).metadata.updated_at,
                    ..old(self)@.metadata
                },
                ..old(self)@
            }),
    {
        self.metadata.status = RecordStatus::Failed;
        self.metadata.updated_at = now_millis();
        self.metadata.failure_count = self.metadata.failure_count + 1;
        self.metadata.last_error = Some(String::from_str(error));
    }

    /// Sets the tag `key` to `value`.
    pub fn add_tag(&mut self, key: &str, value: &str)
        ensures
            keys_unique(old(self)@.tags) ==> keys_unique(final(self)@.tags),
            final(self)@ == (RecordView {
                tags: upsert(old(self)@.tags, key@, value@),
                metadata: MetadataView {
                    updated_at: final(self).metadata.updated_at,
                    ..old(self)@.metadata
                },
                ..old(self)@
            }),
    {
        proof {
            if keys_unique(old(self)@.tags) {
                lemma_unique_kept(old(self)@.tags, key@, value@);
            }
        }
        set_pair(&mut self.tags, key, value);
        self.metadata.updated_at = now_millis();
    }

    /// Removes the tag `key`, returning its value. The record changes only
    /// when the tag was there.
    pub fn remove_tag(&mut self, key: &str) -> (r: Option<String>)
        ensures
            keys_unique(old(self)@.tags) ==> keys_unique(final(self)@.tags),
            opt_text(r) == lookup(old(self)@.tags, key@),
            r is None ==> final(self)@ == old(self)@,
            r is Some ==> final(self)@ == (RecordView {
                tags: remove_key(old(self)@.tags, key@),
                metadata: MetadataView {
                    updated_at: final(self).metadata.updated_at,
                    ..old(self)@.metadata
                },
                ..old(self)@
            }),
    {
        proof {
            lemma_pairs_view(self.tags@);
            if keys_unique(old(self)@.tags) {
                lemma_unique_kept(old(self)@.tags, key@, key@);
            }
        }
        match find_key(&self.tags, key) {
            Some(i) => {
                proof {
                    lemma_first_key(old(self)@.tags, key@, i as int);
                }
                let (_, v) = self.tags.remove(i);
                proof {
                    lemma_pairs_view(self.tags@);
                    assert(pairs_view(self.tags@) =~= old(self)@.tags.remove(i as int));
                }
                self.metadata.updated_at = now_millis();
                Some(v)
            },
            None => None,
        }
    }

    /// Whether the tag `key` is set.
    pub fn has_tag(&self, key: &str) -> (r: bool)
        ensures
            r == has_key(self@.tags, key@),
    {
        proof {
            lemma_pairs_view(self.tags@);
        }
        match find_key(&self.tags, key) {
            Some(i) => {
                proof {
                    lemma_first_key(self@.tags, key@, i as int);
                }
                true
            },
            None => false,
        }
    }

    /// The value of the tag `key`.
    pub fn get_tag(&self, key: &str) -> (r: Option<&String>)
        ensures
            match r {
                Some(s) => lookup(self@.tags, key@) == Some(s@),
                None => lookup(self@.tags, key@) is None,
            },
    {
        proof {
            lemma_pairs_view(self.tags@);
        }
        match find_key(&self.tags, key) {
            Some(i) => {
                proof {
                    lemma_first_key(self@.tags, key@, i as int);
                }
                Some(&self.tags[i].1)
            },
            None => None,
        }
    }
}

/// Sets `key` to `value` among the pairs: in place of its first occurrence,
/// or appended.
fn set_pair(pairs: &mut Vec<(String, String)>, key: &str, value: &str)
    ensures
        pairs_view(final(pairs)@) == upsert(pairs_view(old(pairs)@), key@, value@),
{
    proof {
        lemma_pairs_view(pairs@);
    }
    let entry = (String::from_str(key), String::from_str(value));
    match find_key(pairs, key) {
        Some(i) => {
            proof {
                lemma_first_key(pairs_view(old(pairs)@), key@, i as int);
            }
            pairs[i] = entry;
            proof {
                lemma_pairs_view(pairs@);
                assert(pairs_view(pairs@) =~= pairs_view(old(pairs)@).update(i as int, (key@, value@)));
            }
        },
        None => {
            pairs.push(entry);
            proof {
                lemma_pairs_view(pairs@);
                assert(pairs_view(pairs@) =~= pairs_view(old(pairs)@).push((key@, value@)));
            }
        },
    }
}

/// Builds a [`Record`]; key and value are required.
#[derive(Debug)]
pub struct RecordBuilder {
    pub id: Option<u128>,
    pub key: Option<String>,
    pub value: Option<JsonValue>,
    pub source: Option<String>,
    pub tags: Vec<(String, String)>,
}

impl RecordBuilder {
    /// An empty builder.
    pub fn new() -> (r: Self)
        ensures
            r.id is None && r.key is None && r.value is None && r.source is None && r.tags@.len() == 0,
    {
        RecordBuilder { id: None, key: None, value: None, source: None, tags: Vec::new() }
    }

    /// Sets the identifier.
    pub fn id(self, id: u128) -> (r: Self)
        ensures
            r == (RecordBuilder { id: Some(id), ..self }),
    {
        RecordBuilder { id: Some(id), ..self }
    }

    /// Sets the key.
    pub fn key(self, key: &str) -> (r: Self)
        ensures
            r.key is Some && r.key->Some_0@ == key@,
            r.id == self.id && r.value == self.value && r.source == self.source && r.tags == self.tags,
    {
        RecordBuilder { key: Some(String::from_str(key)), ..self }
    }

    /// Sets the value.
    pub fn value(self, value: JsonValue) -> (r: Self)
        ensures
            r == (RecordBuilder { value: Some(value), ..self }),
    {
        RecordBuilder { value: Some(value), ..self }
    }

    /// Sets the source.
    pub fn source(self, source: &str) -> (r: Self)
        ensures
            r.source is Some && r.source->Some_0@ == source@,
            r.id == self.id && r.key == self.key && r.value == self.value && r.tags == self.tags,
    {
        RecordBuilder { source: Some(String::from_str(source)), ..self }
    }

    /// Sets a tag.
    pub fn tag(self, key: &str, value: &str) -> (r: Self)
        ensures
            keys_unique(pairs_view(self.tags@)) ==> keys_unique(pairs_view(r.tags@)),
            pairs_view(r.tags@) == upsert(pairs_view(self.tags@), key@, value@),
            r.id == self.id && r.key == self.key && r.value == self.value && r.source == self.source,
    {
        proof {
            if keys_unique(pairs_view(self.tags@)) {
                lemma_unique_kept(pairs_view(self.tags@), key@, value@);
            }
        }
        let mut b = self;
        set_pair(&mut b.tags, key, value);
        b
    }

    /// The record, when key and value were given; the identifier is fresh
    /// unless one was set, the source `"default"` unless one was set.
    pub fn build(self) -> (r: Result<Record, Error>)
        ensures
            r is Ok <==> (self.key is Some && self.value is Some),
            r is Err ==> r->Err_0 is Config,
            r is Ok ==> {
                let rec = r->Ok_0@;
                &&& rec.key == self.key->Some_0@
                &&& rec.value == self.value->Some_0@
                &&& self.id is Some ==> rec.id == self.id->Some_0
                &&& rec.metadata == fresh_metadata(
                    match self.source {
                        Some(s) => s@,
                        None => "default"@,
                    },
                    rec.metadata.created_at,
                )
                &&& rec.tags == pairs_view(self.tags@)
            },
    {
        let key = match self.key {
            Some(k) => k,
            None => {
                return Err(Error::config("Record key is required"));
            },
        };
        let value = match self.value {
            Some(v) => v,
            None => {
                return Err(Error::config("Record value is required"));
            },
        };
        let id = match self.id {
            Some(id) => id,
            None => fresh_id(),
        };
        let source = match self.source {
            Some(s) => s,
            None => String::from_str("default"),
        };
        let now = now_millis();
        Ok(
            Record {
                id,
                key,
                value,
                metadata: RecordMetadata {
                    created_at: now,
                    updated_at: now,
                    source,
                    version: 1,
                    status: RecordStatus::Pending,
                    process_count: 0,
                    failure_count: 0,
                    last_error: None,
                },
                tags: self.tags,
            },
        )
    }
}

impl Default for RecordBuilder {
    fn default() -> (r: Self)
        ensures
            r.id is None && r.key is None && r.value is None && r.source is None && r.tags@.len() == 0,
    {
        RecordBuilder::new()
    }
}

} // verus!
