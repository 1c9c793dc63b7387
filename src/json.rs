//! The structured payload carried by a record: a JSON-like tree.

use vstd::prelude::*;

verus! {

broadcast use vstd::std_specs::vec::axiom_vec_index_decreases;

/// A JSON number, kept exactly as it was read.
#[derive(Clone, Copy, Debug, PartialEq, Eq, Structural)]
pub enum JsonNumber {
    /// A non-negative integer.
    PosInt(u64),
    /// A negative integer.
    NegInt(i64),
    /// A floating-point number, held as its IEEE-754 bit pattern.
    FloatBits(u64),
}

/// A structured value: null, boolean, number, string, array or object.
/// An object keeps its fields in insertion order; a key is looked up at its
/// first occurrence.
#[derive(Debug)]
pub enum JsonValue {
    Null,
    Bool(bool),
    Number(JsonNumber),
    Str(String),
    Array(Vec<JsonValue>),
    Object(Vec<(String, JsonValue)>),
}

/// The mathematical model of a [`JsonValue`].
pub enum JsonView {
    Null,
    Bool(bool),
    Number(JsonNumber),
    Str(Seq<char>),
    Array(Seq<JsonView>),
    Object(Seq<(Seq<char>, JsonView)>),
}

impl View for JsonValue {
    type V = JsonView;

    open spec fn view(&self) -> JsonView {
        json_view(*self)
    }
}

/// The model of a value, built bottom-up.
pub open spec fn json_view(v: JsonValue) -> JsonView
    decreases v,
{
    match v {
        JsonValue::Null => JsonView::Null,
        JsonValue::Bool(b) => JsonView::Bool(b),
        JsonValue::Number(n) => JsonView::Number(n),
        JsonValue::Str(s) => JsonView::Str(s@),
        JsonValue::Array(items) => JsonView::Array(
            Seq::new(
                items.len() as nat,
                |i: int|
                    if 0 <= i < items.len() {
                        json_view(items[i])
                    } else {
                        JsonView::Null
                    },
            ),
        ),
        JsonValue::Object(fields) => JsonView::Object(
            Seq::new(
                fields.len() as nat,
                |i: int|
                    if 0 <= i < fields.len() {
                        (fields[i].0@, json_view(fields[i].1))
                    } else {
                        (Seq::empty(), JsonView::Null)
                    },
            ),
        ),
    }
}

/// Index `i` holds the first occurrence of key `k` among the entries `s`.
pub open spec fn first_key_at<V>(s: Seq<(Seq<char>, V)>, k: Seq<char>, i: int) -> bool {
    &&& 0 <= i < s.len()
    &&& s[i].0 == k
    &&& forall|j: int| 0 <= j < i ==> s[j].0 != k
}

/// Some entry of `s` has the key `k`.
pub open spec fn has_key<V>(s: Seq<(Seq<char>, V)>, k: Seq<char>) -> bool {
    exists|i: int| 0 <= i < s.len() && s[i].0 == k
}

/// The position of the first entry with key `k`.
pub open spec fn key_index<V>(s: Seq<(Seq<char>, V)>, k: Seq<char>) -> int {
    choose|i: int| first_key_at(s, k, i)
}

/// The value at the first entry with key `k`, if there is one.
pub open spec fn lookup<V>(s: Seq<(Seq<char>, V)>, k: Seq<char>) -> Option<V> {
    if has_key(s, k) {
        Some(s[key_index(s, k)].1)
    } else {
        None
    }
}

/// The entries with the first entry of key `k` set to `v`, or with `(k, v)`
/// appended when the key is absent.
pub open spec fn upsert<V>(s: Seq<(Seq<char>, V)>, k: Seq<char>, v: V) -> Seq<(Seq<char>, V)> {
    if has_key(s, k) {
        s.update(key_index(s, k), (k, v))
    } else {
        s.push((k, v))
    }
}

/// The entries without the first entry of key `k`.
pub open spec fn remove_key<V>(s: Seq<(Seq<char>, V)>, k: Seq<char>) -> Seq<(Seq<char>, V)> {
    if has_key(s, k) {
        s.remove(key_index(s, k))
    } else {
        s
    }
}

/// Once the first occurrence is known, the spec functions above are fixed by it.
pub proof fn lemma_first_key<V>(s: Seq<(Seq<char>, V)>, k: Seq<char>, i: int)
    requires
        first_key_at(s, k, i),
    ensures
        has_key(s, k),
        key_index(s, k) == i,
        lookup(s, k) == Some(s[i].1),
{
    assert(has_key(s, k));
    let c = key_index(s, k);
    assert(first_key_at(s, k, c));
    if c < i {
        assert(s[c].0 != k);
    } else if c > i {
        assert(s[i].0 != k);
    }
}

/// No two entries of `s` share a key.
pub open spec fn keys_unique<V>(s: Seq<(Seq<char>, V)>) -> bool {
    forall|i: int, j: int| 0 <= i < s.len() && 0 <= j < s.len() && i != j ==> s[i].0 != s[j].0
}

/// Setting or removing a key keeps the keys unique.
pub proof fn lemma_unique_kept<V>(s: Seq<(Seq<char>, V)>, k: Seq<char>, v: V)
    requires
        keys_unique(s),
    ensures
        keys_unique(upsert(s, k, v)),
        keys_unique(remove_key(s, k)),
{
    if has_key(s, k) {
        let i = choose|i: int| 0 <= i < s.len() && s[i].0 == k;
        assert(first_key_at(s, k, i));
        lemma_first_key(s, k, i);
        let u = upsert(s, k, v);
        assert forall|a: int, b: int| 0 <= a < u.len() && 0 <= b < u.len() && a != b implies u[a].0 != u[b].0 by {
            if a != i && b != i {
                assert(u[a] == s[a] && u[b] == s[b]);
            } else if a == i {
                assert(u[b] == s[b]);
            } else {
                assert(u[a] == s[a]);
            }
        }
        let r = remove_key(s, k);
        assert forall|a: int, b: int| 0 <= a < r.len() && 0 <= b < r.len() && a != b implies r[a].0 != r[b].0 by {
            let a2 = if a < i { a } else { a + 1 };
            let b2 = if b < i { b } else { b + 1 };
            assert(r[a] == s[a2] && r[b] == s[b2]);
        }
    } else {
        let u = upsert(s, k, v);
        assert forall|a: int, b: int| 0 <= a < u.len() && 0 <= b < u.len() && a != b implies u[a].0 != u[b].0 by {
            if a < s.len() && b < s.len() {
                assert(u[a] == s[a] && u[b] == s[b]);
            } else if a < s.len() {
                assert(u[a] == s[a]);
            } else {
                assert(u[b] == s[b]);
            }
        }
    }
}

/// Finds the first entry whose key is `key`.
pub fn find_key<V>(entries: &Vec<(String, V)>, key: &str) -> (r: Option<usize>)
    ensures
        match r {
            Some(i) => {
                &&& i < entries.len()
                &&& entries@[i as int].0@ == key@
                &&& forall|j: int| 0 <= j < i ==> entries@[j].0@ != key@
            },
            None => forall|j: int| 0 <= j < entries.len() ==> entries@[j].0@ != key@,
        },
{
    let target = String::from_str(key);
    let mut i: usize = 0;
    while i < entries.len()
        invariant
            i <= entries.len(),
            target@ == key@,
            forall|j: int| 0 <= j < i ==> entries@[j].0@ != key@,
        decreases entries.len() - i,
    {
        if entries[i].0 == target {
            return Some(i);
        }
        i = i + 1;
    }
    None
}

impl JsonView {
    /// The field `k` of an object; nothing for any other kind of value.
    pub open spec fn field(self, k: Seq<char>) -> Option<JsonView> {
        match self {
            JsonView::Object(fields) => lookup(fields, k),
            _ => None,
        }
    }

    /// The value with field `k` set to `v` when it is an object; any other
    /// kind of value is left as it is.
    pub open spec fn with_field(self, k: Seq<char>, v: JsonView) -> JsonView {
        match self {
            JsonView::Object(fields) => JsonView::Object(upsert(fields, k, v)),
            _ => self,
        }
    }
}

/// The view of an object's entries, entry by entry.
proof fn lemma_entries_view(fields: Vec<(String, JsonValue)>, v: JsonValue)
    requires
        v == JsonValue::Object(fields),
    ensures
        v@ is Object,
        v@->Object_0.len() == fields.len(),
        forall|j: int|
            0 <= j < fields.len() ==> #[trigger] v@->Object_0[j] == (fields@[j].0@, fields@[j].1@),
{
}

impl JsonValue {
    /// The field `key` of an object; `None` for a missing key or any other
    /// kind of value.
    pub fn get(&self, key: &str) -> (r: Option<&JsonValue>)
        ensures
            match r {
                Some(x) => self@.field(key@) == Some(x@),
                None => self@.field(key@) is None,
            },
    {
        match self {
            JsonValue::Object(fields) => {
                proof {
                    lemma_entries_view(*fields, *self);
                }
                match find_key(fields, key) {
                    Some(i) => {
                        proof {
                            lemma_first_key(self@->Object_0, key@, i as int);
                        }
                        Some(&fields[i].1)
                    },
                    None => None,
                }
            },
            _ => None,
        }
    }

    /// The text of a string value.
    pub fn as_str(&self) -> (r: Option<&String>)
        ensures
            match r {
                Some(s) => self@ == JsonView::Str(s@),
                None => !(self@ is Str),
            },
    {
        match self {
            JsonValue::Str(s) => Some(s),
            _ => None,
        }
    }

    /// Sets the field `key` of an object to `value`, in place of its first
    /// occurrence or appended; any other kind of value is left unchanged.
    pub fn insert(&mut self, key: String, value: JsonValue)
        ensures
            final(self)@ == old(self)@.with_field(key@, value@),
            old(self)@ is Object && keys_unique(old(self)@->Object_0) ==> keys_unique(final(self)@->Object_0),
    {
        proof {
            if old(self)@ is Object && keys_unique(old(self)@->Object_0) {
                lemma_unique_kept(old(self)@->Object_0, key@, value@);
            }
        }
        match self {
            JsonValue::Object(fields) => {
                proof {
                    lemma_entries_view(*fields, *old(self));
                }
                let ghost before = old(self)@->Object_0;
                let ghost k = key@;
                let ghost entry = (key@, value@);
                match find_key(fields, key.as_str()) {
                    Some(i) => {
                        proof {
                            lemma_first_key(before, k, i as int);
                        }
                        fields[i] = (key, value);
                        proof {
                            lemma_entries_view(*fields, *self);
                            assert(self@->Object_0 =~= before.update(i as int, entry));
                        }
                    },
                    None => {
                        fields.push((key, value));
                        proof {
                            lemma_entries_view(*fields, *self);
                            assert(!has_key(before, k));
                            assert(self@->Object_0 =~= before.push(entry));
                        }
                    },
                }
            },
            _ => {},
        }
    }
}

impl Clone for JsonValue {
    fn clone(&self) -> (r: Self)
        ensures
            r@ == self@,
    {
        copy_value(self)
    }
}

fn copy_value(v: &JsonValue) -> (r: JsonValue)
    ensures
        r@ == v@,
    decreases v,
{
        match v {
            JsonValue::Null => JsonValue::Null,
            JsonValue::Bool(b) => JsonValue::Bool(*b),
            JsonValue::Number(n) => JsonValue::Number(*n),
            JsonValue::Str(s) => JsonValue::Str(s.clone()),
            JsonValue::Array(items) => {
                let mut out: Vec<JsonValue> = Vec::new();
                let mut i: usize = 0;
                while i < items.len()
                    invariant
                        i <= items.len(),
                        out.len() == i,
                        *v == JsonValue::Array(*items),
                        forall|j: int| 0 <= j < i ==> out@[j]@ == items@[j]@,
                    decreases items.len() - i,
                {
                    proof {
                        assert(decreases_to!(*v => v->Array_0));
                        assert(decreases_to!(*v => items[i as int]));
                    }
                    out.push(copy_value(&items[i]));
                    i = i + 1;
                }
                let r = JsonValue::Array(out);
                assert(r@ == v@) by {
                    assert(r@->Array_0 =~= v@->Array_0);
                }
                r
            },
            JsonValue::Object(fields) => {
                let mut out: Vec<(String, JsonValue)> = Vec::new();
                let mut i: usize = 0;
                while i < fields.len()
                    invariant
                        i <= fields.len(),
                        out.len() == i,
                        *v == JsonValue::Object(*fields),
                        forall|j: int|
                            0 <= j < i ==> out@[j].0@ == fields@[j].0@ && out@[j].1@ == fields@[j].1@,
                    decreases fields.len() - i,
                {
                    proof {
                        assert(decreases_to!(*v => v->Object_0));
                        assert(decreases_to!(*v => fields[i as int]));
                        assert(decreases_to!(*v => fields[i as int].1));
                    }
                    out.push((fields[i].0.clone(), copy_value(&fields[i].1)));
                    i = i + 1;
                }
                let r = JsonValue::Object(out);
                assert(r@ == v@) by {
                    assert(r@->Object_0 =~= v@->Object_0);
                }
                r
            },
        }
}

} // verus!
