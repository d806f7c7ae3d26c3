//! JSON values as the configuration file holds them.
//!
//! An object is a list of (key, value) entries; where a key occurs more than once the last
//! entry counts, as when the entries are inserted one by one into a map.
use vstd::prelude::*;
use crate::text::str_eq;

verus! {

/// A JSON value. Numbers keep the text in which they were written.
#[derive(Debug)]
pub enum JsonValue {
    Null,
    Bool(bool),
    Number(String),
    String(String),
    Array(Vec<JsonValue>),
    Object(Vec<(String, JsonValue)>),
}

/// The value of the last entry named `k`, if any.
pub open spec fn lookup(es: Seq<(String, JsonValue)>, k: Seq<char>) -> Option<JsonValue>
    decreases es.len(),
{
    if es.len() == 0 {
        None
    } else if es.last().0@ == k {
        Some(es.last().1)
    } else {
        lookup(es.drop_last(), k)
    }
}

/// The entries of an object; nothing for any other value.
pub open spec fn entries(v: JsonValue) -> Seq<(String, JsonValue)> {
    match v {
        JsonValue::Object(es) => es@,
        _ => Seq::empty(),
    }
}

/// `v[k]`: the member `k` of an object, and `null` where there is none or `v` is no object.
pub open spec fn at_key(v: JsonValue, k: Seq<char>) -> JsonValue {
    match lookup(entries(v), k) {
        Some(x) => x,
        None => JsonValue::Null,
    }
}

/// The text of a string value.
pub open spec fn string_of(v: JsonValue) -> Option<Seq<char>> {
    match v {
        JsonValue::String(s) => Some(s@),
        _ => None,
    }
}

/// An object whose members are those of `base`, replaced or joined by those of `top`.
pub open spec fn overlays(merged: Seq<(String, JsonValue)>, base: Seq<(String, JsonValue)>, top: Seq<(String, JsonValue)>) -> bool {
    forall|k: Seq<char>| #[trigger] lookup(merged, k) == match lookup(top, k) {
        Some(x) => Some(x),
        None => lookup(base, k),
    }
}

/// An object may name a key at most once.
pub open spec fn keys_unique(es: Seq<(String, JsonValue)>) -> bool {
    forall|i: int, j: int| 0 <= i < j < es.len() ==> es[i].0@ != es[j].0@
}

pub proof fn lemma_lookup_concat(a: Seq<(String, JsonValue)>, b: Seq<(String, JsonValue)>, k: Seq<char>)
    ensures
        lookup(a + b, k) == match lookup(b, k) {
            Some(x) => Some(x),
            None => lookup(a, k),
        },
    decreases b.len(),
{
    if b.len() == 0 {
        assert(a + b =~= a);
    } else {
        assert((a + b).drop_last() =~= a + b.drop_last());
        assert((a + b).last() == b.last());
        lemma_lookup_concat(a, b.drop_last(), k);
    }
}

pub proof fn lemma_lookup_remove(es: Seq<(String, JsonValue)>, i: int, k: Seq<char>)
    requires
        0 <= i < es.len(),
        es[i].0@ != k,
    ensures
        lookup(es.remove(i), k) == lookup(es, k),
    decreases es.len(),
{
    if i == es.len() - 1 {
        assert(es.remove(i) =~= es.drop_last());
    } else {
        assert(es.remove(i).last() == es.last());
        assert(es.remove(i).drop_last() =~= es.drop_last().remove(i));
        lemma_lookup_remove(es.drop_last(), i, k);
    }
}

/// The value of the entry that `lookup` finds lies at index `i`.
pub proof fn lemma_lookup_found(es: Seq<(String, JsonValue)>, k: Seq<char>, i: int)
    requires
        0 <= i < es.len(),
        es[i].0@ == k,
        forall|j: int| i < j < es.len() ==> es[j].0@ != k,
    ensures
        lookup(es, k) == Some(es[i].1),
    decreases es.len(),
{
    if i < es.len() - 1 {
        lemma_lookup_found(es.drop_last(), k, i);
    }
}

/// In an object whose keys are unique, the member `k` is the value of the entry named `k`.
pub proof fn lemma_lookup_unique(es: Seq<(String, JsonValue)>, i: int)
    requires
        keys_unique(es),
        0 <= i < es.len(),
    ensures
        lookup(es, es[i].0@) == Some(es[i].1),
{
    lemma_lookup_found(es, es[i].0@, i);
}

/// Where in `es` the member `k` is found: the index of the last entry named `k`.
pub fn find_last(es: &Vec<(String, JsonValue)>, k: &str) -> (res: Option<usize>)
    ensures
        match res {
            Some(i) => i < es@.len() && es@[i as int].0@ == k@ && lookup(es@, k@) == Some(es@[i as int].1)
                && forall|j: int| i < j < es@.len() ==> es@[j].0@ != k@,
            None => lookup(es@, k@) is None,
        },
{
    let mut j = es.len();
    assert(es@.take(j as int) =~= es@);
    while j > 0
        invariant
            j <= es@.len(),
            lookup(es@, k@) == lookup(es@.take(j as int), k@),
            forall|m: int| j <= m < es@.len() ==> es@[m].0@ != k@,
        decreases j,
    {
        let ghost pre = es@.take(j as int);
        assert(pre.last() == es@[j - 1]);
        assert(pre.drop_last() =~= es@.take(j - 1));
        if str_eq(es[j - 1].0.as_str(), k) {
            return Some(j - 1);
        }
        j = j - 1;
    }
    None
}

impl JsonValue {
    /// `self[key]` where it is present: the member `key` of an object.
    pub fn get(&self, key: &str) -> (res: Option<&JsonValue>)
        ensures
            match res {
                Some(x) => lookup(entries(*self), key@) == Some(*x),
                None => lookup(entries(*self), key@) is None,
            },
    {
        match self {
            JsonValue::Object(es) => match find_last(es, key) {
                Some(i) => Some(&es[i].1),
                None => None,
            },
            _ => None,
        }
    }

    /// The text of a string value.
    pub fn as_str(&self) -> (res: Option<&str>)
        ensures
            match res {
                Some(s) => string_of(*self) == Some(s@),
                None => string_of(*self) is None,
            },
    {
        match self {
            JsonValue::String(s) => Some(s.as_str()),
            _ => None,
        }
    }

    /// `self[key].as_str()`: the text of the member `key` where it is a string.
    pub fn str_at(&self, key: &str) -> (res: Option<&str>)
        ensures
            match res {
                Some(s) => string_of(at_key(*self, key@)) == Some(s@),
                None => string_of(at_key(*self, key@)) is None,
            },
    {
        match self.get(key) {
            Some(v) => v.as_str(),
            None => None,
        }
    }

    /// Whether this is `null`.
    pub fn is_null(&self) -> (res: bool)
        ensures
            res == (*self is Null),
    {
        match self {
            JsonValue::Null => true,
            _ => false,
        }
    }

    /// Whether this is the boolean `true` (`value == true` on a JSON value).
    pub fn is_true(&self) -> (res: bool)
        ensures
            res == (*self == JsonValue::Bool(true)),
    {
        match self {
            JsonValue::Bool(b) => *b,
            _ => false,
        }
    }

    /// Whether this is the string `s` (`value == s` on a JSON value).
    pub fn is_string(&self, s: &str) -> (res: bool)
        ensures
            res == (string_of(*self) == Some(s@)),
    {
        match self {
            JsonValue::String(t) => str_eq(t.as_str(), s),
            _ => false,
        }
    }

    /// Whether this is an object without members.
    pub fn is_empty_object(&self) -> (res: bool)
        ensures
            res == (*self is Object && entries(*self).len() == 0),
    {
        match self {
            JsonValue::Object(es) => es.len() == 0,
            _ => false,
        }
    }

    /// Moves out `self[key]`.
    pub fn take(self, key: &str) -> (res: JsonValue)
        ensures
            res == at_key(self, key@),
    {
        match self {
            JsonValue::Object(mut es) => match find_last(&es, key) {
                Some(i) => {
                    let (_, v) = es.remove(i);
                    v
                },
                None => JsonValue::Null,
            },
            _ => JsonValue::Null,
        }
    }

    /// Moves out `self[first]` and `self[second]`, for two different keys.
    pub fn take_pair(self, first: &str, second: &str) -> (res: (JsonValue, JsonValue))
        requires
            first@ != second@,
        ensures
            res.0 == at_key(self, first@),
            res.1 == at_key(self, second@),
    {
        match self {
            JsonValue::Object(mut es) => {
                let ghost orig = es@;
                let a = match find_last(&es, first) {
                    Some(i) => {
                        proof {
                            lemma_lookup_remove(orig, i as int, second@);
                        }
                        let (_, v) = es.remove(i);
                        v
                    },
                    None => JsonValue::Null,
                };
                let b = JsonValue::Object(es).take(second);
                (a, b)
            },
            _ => (JsonValue::Null, JsonValue::Null),
        }
    }
}

} // verus!
