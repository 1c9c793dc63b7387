//! Transforms: steps that turn a record into another, or reject it.

use vstd::prelude::*;
use crate::error::{Error, error_text};
use crate::json::{JsonValue, JsonView};
use crate::record::{Record, RecordView};
use crate::text::{trimmed, lowercased, trim_text, lowercase_text};

verus! {

/// A step that turns a record into another, or rejects it. A transform
/// keeps the record's identifier, and a rejection's error text is
/// `spec_rejection` of the record.
pub trait Transform {
    /// Name of the transform.
    spec fn spec_name(&self) -> Seq<char>;

    /// The record the transform makes of `r`; `None` when it rejects `r`.
    spec fn spec_apply(&self, r: RecordView) -> Option<RecordView>;

    /// The text of the error with which the transform rejects `r`.
    spec fn spec_rejection(&self, r: RecordView) -> Seq<char>;

    /// Transforms the record.
    fn transform(&self, record: Record) -> (r: Result<Record, Error>)
        ensures
            match r {
                Ok(x) => self.spec_apply(record@) == Some(x@) && x.id == record.id,
                Err(e) => self.spec_apply(record@) is None && error_text(e) == self.spec_rejection(record@),
            },
    ;

    /// Name of the transform.
    fn name(&self) -> (r: &String)
        ensures
            r@ == self.spec_name(),
    ;
}

/// Sets one field of an object value to a fixed value.
#[derive(Debug)]
pub struct EnrichTransform {
    name: String,
    field: String,
    value: JsonValue,
}

impl EnrichTransform {
    /// The field that is set.
    pub closed spec fn spec_field(&self) -> Seq<char> {
        self.field@
    }

    /// The value it is set to.
    pub closed spec fn spec_value(&self) -> JsonView {
        self.value@
    }

    /// A transform named `name` that sets `field` to `value`.
    pub fn new(name: &str, field: &str, value: JsonValue) -> (r: Self)
        ensures
            r.spec_name() == name@,
            r.spec_field() == field@,
            r.spec_value() == value@,
    {
        EnrichTransform { name: String::from_str(name), field: String::from_str(field), value }
    }
}

impl Transform for EnrichTransform {
    closed spec fn spec_name(&self) -> Seq<char> {
        self.name@
    }

    open spec fn spec_apply(&self, r: RecordView) -> Option<RecordView> {
        Some(RecordView { value: r.value.with_field(self.spec_field(), self.spec_value()), ..r })
    }

    open spec fn spec_rejection(&self, r: RecordView) -> Seq<char> {
        Seq::empty()
    }

    fn transform(&self, record: Record) -> (r: Result<Record, Error>) {
        let mut record = record;
        record.value.insert(self.field.clone(), self.value.clone());
        Ok(record)
    }

    fn name(&self) -> (r: &String) {
        &self.name
    }
}

/// The normal form of a text: trimmed, then lowercased.
pub open spec fn normal_text(s: Seq<char>) -> Seq<char> {
    lowercased(trimmed(s))
}

/// The value with each listed field that holds a string replaced by its
/// normal form, field by field in order.
pub open spec fn normalized_fields(v: JsonView, fields: Seq<Seq<char>>) -> JsonView
    decreases fields.len(),
{
    if fields.len() == 0 {
        v
    } else {
        let before = normalized_fields(v, fields.drop_last());
        let f = fields.last();
        match before.field(f) {
            Some(JsonView::Str(s)) => before.with_field(f, JsonView::Str(normal_text(s))),
            _ => before,
        }
    }
}

/// Trims and lowercases a text.
pub fn normalize_text(s: &str) -> (r: String)
    ensures
        r@ == normal_text(s@),
{
    let t = trim_text(s);
    lowercase_text(t.as_str())
}

/// Trims and lowercases the listed string fields of an object value.
#[derive(Debug)]
pub struct NormalizeTransform {
    name: String,
    fields: Vec<String>,
}

impl NormalizeTransform {
    /// The fields that are normalized, in order.
    pub closed spec fn spec_fields(&self) -> Seq<Seq<char>> {
        self.fields@.map_values(|f: String| f@)
    }

    /// A transform named `name` over `fields`.
    pub fn new(name: &str, fields: Vec<String>) -> (r: Self)
        ensures
            r.spec_name() == name@,
            r.spec_fields() == fields@.map_values(|f: String| f@),
    {
        NormalizeTransform { name: String::from_str(name), fields }
    }
}

impl Transform for NormalizeTransform {
    closed spec fn spec_name(&self) -> Seq<char> {
        self.name@
    }

    open spec fn spec_apply(&self, r: RecordView) -> Option<RecordView> {
        Some(RecordView { value: normalized_fields(r.value, self.spec_fields()), ..r })
    }

    open spec fn spec_rejection(&self, r: RecordView) -> Seq<char> {
        Seq::empty()
    }

    fn transform(&self, record: Record) -> (r: Result<Record, Error>) {
        let mut record = record;
        let ghost start = record@;
        let mut i: usize = 0;
        while i < self.fields.len()
            invariant
                i <= self.fields.len(),
                record@ == (RecordView {
                    value: normalized_fields(start.value, self.spec_fields().subrange(0, i as int)),
                    ..start
                }),
            decreases self.fields.len() - i,
        {
            let ghost prefix = self.spec_fields().subrange(0, i as int + 1);
            proof {
                assert(prefix.drop_last() =~= self.spec_fields().subrange(0, i as int));
                assert(prefix.last() == self.fields@[i as int]@);
            }
            let field = &self.fields[i];
            let text = match record.value.get(field.as_str()) {
                Some(v) => match v.as_str() {
                    Some(s) => Some(normalize_text(s.as_str())),
                    None => None,
                },
                None => None,
            };
            match text {
                Some(n) => {
                    record.value.insert(field.clone(), JsonValue::Str(n));
                },
                None => {},
            }
            i = i + 1;
        }
        proof {
            assert(self.spec_fields().subrange(0, self.fields.len() as int) =~= self.spec_fields());
        }
        Ok(record)
    }

    fn name(&self) -> (r: &String) {
        &self.name
    }
}

/// Keeps the records whose key starts with a prefix and rejects the others.
#[derive(Debug)]
pub struct KeyPrefixFilter {
    name: String,
    prefix: String,
}

impl KeyPrefixFilter {
    /// The prefix a kept key starts with.
    pub closed spec fn spec_prefix(&self) -> Seq<char> {
        self.prefix@
    }

    /// A filter named `name` keeping keys that start with `prefix`.
    pub fn new(name: &str, prefix: &str) -> (r: Self)
        ensures
            r.spec_name() == name@,
            r.spec_prefix() == prefix@,
    {
        KeyPrefixFilter { name: String::from_str(name), prefix: String::from_str(prefix) }
    }
}

/// `prefix` is a prefix of `s`.
pub open spec fn starts_with(s: Seq<char>, prefix: Seq<char>) -> bool {
    prefix.len() <= s.len() && s.subrange(0, prefix.len() as int) == prefix
}

/// Whether `s` starts with `prefix`.
pub fn text_starts_with(s: &str, prefix: &String) -> (r: bool)
    ensures
        r == starts_with(s@, prefix@),
{
    let n = s.unicode_len();
    let m = prefix.as_str().unicode_len();
    if m > n {
        return false;
    }
    let head = String::from_str(s.substring_char(0, m));
    head.eq(prefix)
}

impl Transform for KeyPrefixFilter {
    closed spec fn spec_name(&self) -> Seq<char> {
        self.name@
    }

    open spec fn spec_apply(&self, r: RecordView) -> Option<RecordView> {
        if starts_with(r.key, self.spec_prefix()) {
            Some(r)
        } else {
            None
        }
    }

    open spec fn spec_rejection(&self, r: RecordView) -> Seq<char> {
        "Processing error: "@ + "Record filtered out"@
    }

    fn transform(&self, record: Record) -> (r: Result<Record, Error>) {
        if text_starts_with(record.key.as_str(), &self.prefix) {
            Ok(record)
        } else {
            Err(Error::processing("Record filtered out"))
        }
    }

    fn name(&self) -> (r: &String) {
        &self.name
    }
}

/// The transforms a processor or pipeline can hold.
#[derive(Debug)]
pub enum RecordTransform {
    Enrich(EnrichTransform),
    Normalize(NormalizeTransform),
    KeyPrefix(KeyPrefixFilter),
}

impl Transform for RecordTransform {
    open spec fn spec_name(&self) -> Seq<char> {
        match self {
            RecordTransform::Enrich(t) => t.spec_name(),
            RecordTransform::Normalize(t) => t.spec_name(),
            RecordTransform::KeyPrefix(t) => t.spec_name(),
        }
    }

    open spec fn spec_apply(&self, r: RecordView) -> Option<RecordView> {
        match self {
            RecordTransform::Enrich(t) => t.spec_apply(r),
            RecordTransform::Normalize(t) => t.spec_apply(r),
            RecordTransform::KeyPrefix(t) => t.spec_apply(r),
        }
    }

    open spec fn spec_rejection(&self, r: RecordView) -> Seq<char> {
        match self {
            RecordTransform::Enrich(t) => t.spec_rejection(r),
            RecordTransform::Normalize(t) => t.spec_rejection(r),
            RecordTransform::KeyPrefix(t) => t.spec_rejection(r),
        }
    }

    fn transform(&self, record: Record) -> (r: Result<Record, Error>) {
        match self {
            RecordTransform::Enrich(t) => t.transform(record),
            RecordTransform::Normalize(t) => t.transform(record),
            RecordTransform::KeyPrefix(t) => t.transform(record),
        }
    }

    fn name(&self) -> (r: &String) {
        match self {
            RecordTransform::Enrich(t) => t.name(),
            RecordTransform::Normalize(t) => t.name(),
            RecordTransform::KeyPrefix(t) => t.name(),
        }
    }
}

} // verus!
