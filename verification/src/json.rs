//! JSON values, as far as the replies of other services are read.

use crate::text;
use vstd::prelude::*;

verus! {

/// A JSON value. Numbers that are not integers carry no value: nothing reads them.
#[derive(Debug)]
pub enum Json {
    Null,
    Bool(bool),
    Integer(i128),
    Fraction,
    Text(String),
    Array(Vec<Json>),
    Object(Vec<(String, Json)>),
}

impl Json {
    /// The member of an object with a name; null where there is none.
    pub open spec fn member(self, key: Seq<char>) -> Json {
        match self.member_opt(key) {
            Some(v) => v,
            None => Json::Null,
        }
    }

    /// The member of an object with a name, where there is one.
    pub open spec fn member_opt(self, key: Seq<char>) -> Option<Json> {
        match self {
            Json::Object(entries) => entry(entries@, key),
            _ => None,
        }
    }

    pub open spec fn text(self) -> Option<Seq<char>> {
        match self {
            Json::Text(t) => Some(t@),
            _ => None,
        }
    }

    pub open spec fn integer(self) -> Option<int> {
        match self {
            Json::Integer(n) => if i64::MIN <= n <= i64::MAX {
                Some(n as int)
            } else {
                None
            },
            _ => None,
        }
    }

    pub open spec fn truth(self) -> Option<bool> {
        match self {
            Json::Bool(b) => Some(b),
            _ => None,
        }
    }

    /// The number of members of an object.
    pub open spec fn size(self) -> int {
        match self {
            Json::Object(entries) => entries@.len() as int,
            _ => 0,
        }
    }

    /// The name of a member of an object.
    pub open spec fn key_at(self, i: int) -> Seq<char> {
        self->Object_0@[i].0@
    }

    /// The value of a member of an object.
    pub open spec fn value_at(self, i: int) -> Json {
        self->Object_0@[i].1
    }

    pub open spec fn items(self) -> Option<Seq<Json>> {
        match self {
            Json::Array(v) => Some(v@),
            _ => None,
        }
    }

    /// The member of an object with a name; null where there is none.
    pub fn at(&self, key: &str) -> (r: &Json)
        ensures
            *r == self.member(key@),
    {
        match self.get(key) {
            Some(v) => v,
            None => &Json::Null,
        }
    }

    /// The member of an object with a name, where there is one.
    pub fn get(&self, key: &str) -> (r: Option<&Json>)
        ensures
            r is Some <==> self.member_opt(key@) is Some,
            r matches Some(v) ==> self.member_opt(key@) == Some(*v),
    {
        match self {
            Json::Object(entries) => lookup(entries, key),
            _ => None,
        }
    }

    /// The text of a string.
    pub fn as_text(&self) -> (r: Option<&String>)
        ensures
            r is Some <==> self.text() is Some,
            r matches Some(t) ==> self.text() == Some(t@),
    {
        match self {
            Json::Text(t) => Some(t),
            _ => None,
        }
    }

    /// A copy of the text of a string, `default` where there is none.
    pub fn text_or(&self, default: &str) -> (r: String)
        ensures
            r@ == or(self.text(), default@),
    {
        match self {
            Json::Text(t) => text::copy(t.as_str()),
            _ => text::copy(default),
        }
    }

    /// The value of an integer that fits into 64 bits with a sign.
    pub fn as_integer(&self) -> (r: Option<i64>)
        ensures
            r is Some <==> self.integer() is Some,
            r matches Some(n) ==> self.integer() == Some(n as int),
    {
        match self {
            Json::Integer(n) => if i64::MIN as i128 <= *n && *n <= i64::MAX as i128 {
                Some(*n as i64)
            } else {
                None
            },
            _ => None,
        }
    }

    /// The value of a truth value.
    pub fn as_truth(&self) -> (r: Option<bool>)
        ensures
            r == self.truth(),
    {
        match self {
            Json::Bool(b) => Some(*b),
            _ => None,
        }
    }

    /// The elements of an array.
    pub fn as_items(&self) -> (r: Option<&Vec<Json>>)
        ensures
            r is Some <==> self.items() is Some,
            r matches Some(v) ==> self.items() == Some(v@),
    {
        match self {
            Json::Array(v) => Some(v),
            _ => None,
        }
    }
}

/// A member of an object.
pub fn pair(key: &str, value: Json) -> (r: (String, Json))
    ensures
        r.0@ == key@,
        r.1 == value,
{
    (text::copy(key), value)
}

/// A string.
pub fn string(t: &str) -> (r: Json)
    ensures
        r.text() == Some(t@),
{
    Json::Text(text::copy(t))
}

/// What an optional value holds, or else a default.
pub open spec fn or(t: Option<Seq<char>>, default: Seq<char>) -> Seq<char> {
    match t {
        Some(s) => s,
        None => default,
    }
}

/// The value of the first entry with a name.
pub open spec fn entry(entries: Seq<(String, Json)>, key: Seq<char>) -> Option<Json>
    decreases entries.len(),
{
    if entries.len() == 0 {
        None
    } else if entries[0].0@ == key {
        Some(entries[0].1)
    } else {
        entry(entries.skip(1), key)
    }
}

/// The value of the first entry with a name.
pub fn lookup<'a>(entries: &'a Vec<(String, Json)>, key: &str) -> (r: Option<&'a Json>)
    ensures
        r is Some <==> entry(entries@, key@) is Some,
        r matches Some(v) ==> entry(entries@, key@) == Some(*v),
{
    let mut i: usize = 0;
    assert(entries@.skip(0) == entries@);
    while i < entries.len()
        invariant
            i <= entries@.len(),
            entry(entries@, key@) == entry(entries@.skip(i as int), key@),
        decreases entries@.len() - i,
    {
        if text::same(entries[i].0.as_str(), key) {
            return Some(&entries[i].1);
        }
        assert(entries@.skip(i as int).skip(1) == entries@.skip(i + 1));
        i += 1;
    }
    None
}

} // verus!
