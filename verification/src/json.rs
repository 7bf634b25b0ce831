//! JSON documents as the library reads them.
//!
//! A [`JsonValue`] holds a parsed JSON document. A number keeps what the logic reads
//! of it: its value as an unsigned integer when it is one, its value as a float cast
//! to `u64` (rounded toward zero, saturated, negative values giving 0), and its text.
use vstd::prelude::*;
use crate::text::{chars_eq, chars_of};

verus! {

#[derive(Debug)]
pub struct JsonNumber {
    pub as_u64: Option<u64>,
    pub truncated: u64,
    pub text: String,
}

#[derive(Debug)]
pub enum JsonValue {
    Null,
    Bool(bool),
    Number(JsonNumber),
    Str(String),
    Array(Vec<JsonValue>),
    Object(Vec<(String, JsonValue)>),
}

pub enum JsonView {
    Null,
    Bool(bool),
    Number(Option<u64>, u64, Seq<char>),
    Str(Seq<char>),
    Array(Seq<JsonView>),
    Object(Seq<(Seq<char>, JsonView)>),
}

impl JsonValue {
    pub open spec fn jview(self) -> JsonView
        decreases self,
    {
        match self {
            JsonValue::Null => JsonView::Null,
            JsonValue::Bool(b) => JsonView::Bool(b),
            JsonValue::Number(n) => JsonView::Number(n.as_u64, n.truncated, n.text@),
            JsonValue::Str(s) => JsonView::Str(s@),
            JsonValue::Array(v) => JsonView::Array(Seq::new(v@.len(), |i: int| if 0 <= i < v@.len() { v@[i].jview() } else { JsonView::Null })),
            JsonValue::Object(v) => JsonView::Object(Seq::new(v@.len(), |i: int| if 0 <= i < v@.len() { (v@[i].0@, v@[i].1.jview()) } else { (Seq::empty(), JsonView::Null) })),
        }
    }
}

/// Index of the first entry named `key` at or after `k`, if any.
pub open spec fn entry_index(entries: Seq<(String, JsonValue)>, key: Seq<char>, k: int) -> Option<int>
    decreases entries.len() - k,
{
    if k < 0 || k >= entries.len() {
        None
    } else if entries[k].0@ == key {
        Some(k)
    } else {
        entry_index(entries, key, k + 1)
    }
}

/// The member `key` of an object (the first one of that name); `None` for other values.
pub open spec fn json_get(v: JsonValue, key: Seq<char>) -> Option<JsonValue> {
    match v {
        JsonValue::Object(entries) => match entry_index(entries@, key, 0) {
            Some(i) => Some(entries@[i].1),
            None => None,
        },
        _ => None,
    }
}

/// The text of a string value.
pub open spec fn json_str(v: JsonValue) -> Option<Seq<char>> {
    match v {
        JsonValue::Str(s) => Some(s@),
        _ => None,
    }
}

/// The text of the string member `key`.
pub open spec fn json_str_field(v: JsonValue, key: Seq<char>) -> Option<Seq<char>> {
    match json_get(v, key) {
        Some(m) => json_str(m),
        None => None,
    }
}

impl JsonValue {
    /// The member `key` of an object (`serde_json::Value::get` with a string key).
    pub fn get(&self, key: &str) -> (r: Option<&JsonValue>)
        ensures
            match r {
                Some(m) => json_get(*self, key@) == Some(*m),
                None => json_get(*self, key@) is None,
            },
    {
        match self {
            JsonValue::Object(entries) => {
                assert(*self == JsonValue::Object(*entries));
                let kv = chars_of(key);
                let mut i: usize = 0;
                while i < entries.len()
                    invariant
                        i <= entries@.len(),
                        kv@ == key@,
                        *self == JsonValue::Object(*entries),
                        entry_index(entries@, key@, 0) == entry_index(entries@, key@, i as int),
                    decreases entries@.len() - i,
                {
                    let name = chars_of(entries[i].0.as_str());
                    if chars_eq(&name, &kv) {
                        assert(entry_index(entries@, key@, i as int) == Some(i as int));
                        return Some(&entries[i].1);
                    }
                    i = i + 1;
                }
                None
            },
            _ => None,
        }
    }

    /// The text of a string value (`serde_json::Value::as_str`).
    pub fn as_str(&self) -> (r: Option<&str>)
        ensures
            match r {
                Some(s) => json_str(*self) == Some(s@),
                None => json_str(*self) is None,
            },
    {
        match self {
            JsonValue::Str(s) => Some(s.as_str()),
            _ => None,
        }
    }

    /// The items of an array value (`serde_json::Value::as_array`).
    pub fn as_array(&self) -> (r: Option<&Vec<JsonValue>>)
        ensures
            match r {
                Some(items) => *self == JsonValue::Array(*items),
                None => !(*self is Array),
            },
    {
        match self {
            JsonValue::Array(items) => Some(items),
            _ => None,
        }
    }
}

/// The text of the string member `key` (`value.get(key).and_then(Value::as_str)`).
pub fn str_field<'a>(v: &'a JsonValue, key: &str) -> (r: Option<&'a str>)
    ensures
        match r {
            Some(s) => json_str_field(*v, key@) == Some(s@),
            None => json_str_field(*v, key@) is None,
        },
{
    match v.get(key) {
        Some(m) => m.as_str(),
        None => None,
    }
}

/// A copy of `v`.
pub fn clone_json(v: &JsonValue) -> (r: JsonValue)
    ensures
        r.jview() == v.jview(),
    decreases v,
{
    match v {
        JsonValue::Null => JsonValue::Null,
        JsonValue::Bool(b) => JsonValue::Bool(*b),
        JsonValue::Number(n) => JsonValue::Number(
            JsonNumber { as_u64: n.as_u64, truncated: n.truncated, text: n.text.clone() },
        ),
        JsonValue::Str(s) => JsonValue::Str(s.clone()),
        JsonValue::Array(items) => {
            let mut out: Vec<JsonValue> = Vec::new();
            let mut i: usize = 0;
            while i < items.len()
                invariant
                    i <= items@.len(),
                    out@.len() == i,
                    *v == JsonValue::Array(*items),
                    forall|k: int| 0 <= k < i ==> (#[trigger] out@[k]).jview() == items@[k].jview(),
                decreases items@.len() - i,
            {
                assert(decreases_to!(*v => items@[i as int])) by {
                    assert(*v == JsonValue::Array(*items));
                    assert(decreases_to!(*v => (*v)->Array_0));
                    assert(decreases_to!(*items => items@));
                    assert(decreases_to!(items@ => items@[i as int]));
                }
                let c = clone_json(&items[i]);
                out.push(c);
                i = i + 1;
            }
            let r = JsonValue::Array(out);
            assert(r.jview()->Array_0 =~= v.jview()->Array_0);
            r
        },
        JsonValue::Object(entries) => {
            let mut out: Vec<(String, JsonValue)> = Vec::new();
            let mut i: usize = 0;
            while i < entries.len()
                invariant
                    i <= entries@.len(),
                    out@.len() == i,
                    *v == JsonValue::Object(*entries),
                    forall|k: int| 0 <= k < i ==> (#[trigger] out@[k]).0@ == entries@[k].0@ && out@[k].1.jview() == entries@[k].1.jview(),
                decreases entries@.len() - i,
            {
                assert(decreases_to!(*v => entries@[i as int].1)) by {
                    assert(*v == JsonValue::Object(*entries));
                    assert(decreases_to!(*v => (*v)->Object_0));
                    assert(decreases_to!(*entries => entries@));
                    assert(decreases_to!(entries@ => entries@[i as int]));
                    assert(decreases_to!(entries@[i as int] => entries@[i as int].1));
                }
                let c = clone_json(&entries[i].1);
                out.push((entries[i].0.clone(), c));
                i = i + 1;
            }
            let r = JsonValue::Object(out);
            assert(r.jview()->Object_0 =~= v.jview()->Object_0);
            r
        },
    }
}

} // verus!
