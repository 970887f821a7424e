//! A plain model of JSON values, the form in which the raw documentation
//! graph reaches the library.

use vstd::prelude::*;
use crate::text::str_eq;

verus! {

/// A JSON value. Object members keep the order in which they were written.
#[derive(Debug)]
pub enum JsonValue {
    Null,
    Bool(bool),
    /// A non-negative integer that fits in 64 bits.
    UInt(u64),
    /// Any other number, as written.
    Number(String),
    Str(String),
    Array(Vec<JsonValue>),
    Object(Vec<(String, JsonValue)>),
}

/// The value of the first member named `key`.
pub open spec fn find_member(ms: Seq<(String, JsonValue)>, key: Seq<char>) -> Option<JsonValue>
    decreases ms.len(),
{
    if ms.len() == 0 {
        None
    } else if ms[0].0@ == key {
        Some(ms[0].1)
    } else {
        find_member(ms.drop_first(), key)
    }
}

/// What a lookup of `key` finds: the first member of that name of an
/// object, and nothing in any other value.
pub open spec fn member(j: JsonValue, key: Seq<char>) -> Option<JsonValue> {
    match j {
        JsonValue::Object(ms) => find_member(ms@, key),
        _ => None,
    }
}

/// The string held by `j`, if it is a string.
pub open spec fn str_value(j: JsonValue) -> Option<Seq<char>> {
    match j {
        JsonValue::Str(s) => Some(s@),
        _ => None,
    }
}

/// The string found under `key`, if there is one.
pub open spec fn str_member(j: JsonValue, key: Seq<char>) -> Option<Seq<char>> {
    match member(j, key) {
        Some(v) => str_value(v),
        None => None,
    }
}

/// The boolean found under `key`, if there is one.
pub open spec fn bool_member(j: JsonValue, key: Seq<char>) -> Option<bool> {
    match member(j, key) {
        Some(JsonValue::Bool(b)) => Some(b),
        _ => None,
    }
}

/// The array found under `key`, if there is one.
pub open spec fn array_at(j: JsonValue, key: Seq<char>) -> Option<Vec<JsonValue>> {
    match member(j, key) {
        Some(JsonValue::Array(es)) => Some(es),
        _ => None,
    }
}

/// Whether `key` names a member of `j` whose value is not null.
pub open spec fn has_non_null(j: JsonValue, key: Seq<char>) -> bool {
    match member(j, key) {
        Some(JsonValue::Null) => false,
        Some(_) => true,
        None => false,
    }
}

proof fn lemma_find_member_in(ms: Seq<(String, JsonValue)>, key: Seq<char>)
    ensures
        find_member(ms, key) matches Some(v) ==> exists|i: int|
            0 <= i < ms.len() && #[trigger] ms[i].1 == v,
    decreases ms.len(),
{
    if ms.len() > 0 && ms[0].0@ != key {
        lemma_find_member_in(ms.drop_first(), key);
        if let Some(v) = find_member(ms, key) {
            let i = choose|i: int| 0 <= i < ms.drop_first().len() && #[trigger] ms.drop_first()[i].1 == v;
            assert(ms[i + 1].1 == v);
        }
    }
}

/// A member's value is a strict part of the object that holds it.
pub proof fn lemma_member_decreases(j: JsonValue, key: Seq<char>)
    ensures
        member(j, key) matches Some(v) ==> decreases_to!(j => v),
{
    if let JsonValue::Object(ms) = j {
        lemma_find_member_in(ms@, key);
        if let Some(v) = member(j, key) {
            let i = choose|i: int| 0 <= i < ms@.len() && #[trigger] ms@[i].1 == v;
            assert(decreases_to!(ms => ms@));
            assert(decreases_to!(ms@ => ms@[i]));
            assert(decreases_to!(j => v));
        }
    }
}

/// An array found under `key`, and its elements, are strict parts of `j`.
pub proof fn lemma_array_at_decreases(j: JsonValue, key: Seq<char>)
    ensures
        array_at(j, key) matches Some(es) ==> decreases_to!(j => es) && decreases_to!(j => es@),
{
    lemma_member_decreases(j, key);
    if let Some(JsonValue::Array(es)) = member(j, key) {
        assert(decreases_to!(es => es@));
    }
}

impl JsonValue {
    /// Looks up `key` in an object; any other value has no members.
    pub fn get(&self, key: &str) -> (r: Option<&JsonValue>)
        ensures
            match r {
                Some(v) => member(*self, key@) == Some(*v),
                None => member(*self, key@) is None,
            },
    {
        match self {
            JsonValue::Object(ms) => {
                let mut i: usize = 0;
                assert(ms@.skip(0) == ms@);
                while i < ms.len()
                    invariant
                        *self == JsonValue::Object(*ms),
                        0 <= i <= ms@.len(),
                        find_member(ms@, key@) == find_member(ms@.skip(i as int), key@),
                    decreases ms@.len() - i,
                {
                    assert(ms@.skip(i as int).drop_first() == ms@.skip(i + 1));
                    if str_eq(ms[i].0.as_str(), key) {
                        assert(ms@.skip(i as int)[0] == ms@[i as int]);
                        assert(find_member(ms@.skip(i as int), key@) == Some(ms@[i as int].1));
                        let v = &ms[i].1;
                        return Some(v);
                    }
                    assert(ms@.skip(i as int)[0] == ms@[i as int]);
                    i = i + 1;
                }
                assert(ms@.skip(i as int).len() == 0);
                None
            },
            _ => None,
        }
    }

    /// The string this value holds, if it is a string.
    pub fn as_str(&self) -> (r: Option<&String>)
        ensures
            match r {
                Some(s) => str_value(*self) == Some(s@),
                None => str_value(*self) is None,
            },
    {
        match self {
            JsonValue::Str(s) => Some(s),
            _ => None,
        }
    }

    /// The boolean this value holds, if it is one.
    pub fn as_bool(&self) -> (r: Option<bool>)
        ensures
            r == (match *self {
                JsonValue::Bool(b) => Some(b),
                _ => None::<bool>,
            }),
    {
        match self {
            JsonValue::Bool(b) => Some(*b),
            _ => None,
        }
    }

    /// The integer this value holds, if it is a non-negative 64-bit one.
    pub fn as_u64(&self) -> (r: Option<u64>)
        ensures
            r == (match *self {
                JsonValue::UInt(n) => Some(n),
                _ => None::<u64>,
            }),
    {
        match self {
            JsonValue::UInt(n) => Some(*n),
            _ => None,
        }
    }

    /// The elements of this value, if it is an array.
    pub fn as_array(&self) -> (r: Option<&Vec<JsonValue>>)
        ensures
            match r {
                Some(es) => *self == JsonValue::Array(*es),
                None => !(*self is Array),
            },
    {
        match self {
            JsonValue::Array(es) => Some(es),
            _ => None,
        }
    }

    pub fn is_null(&self) -> (r: bool)
        ensures
            r == (*self is Null),
    {
        match self {
            JsonValue::Null => true,
            _ => false,
        }
    }
}

} // verus!
