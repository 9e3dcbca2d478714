//! Answers of a daemon, as far as they are looked into.
use vstd::prelude::*;

use crate::keymap::KeyMap;

verus! {

/// A JSON value. A number that is no 64-bit integer is kept as it is written.
pub enum Json {
    Null,
    Bool(bool),
    Int(i64),
    Number(String),
    Text(String),
    List(Vec<Json>),
    Object(KeyMap<Json>),
}

/// The member `name` of an object.
pub open spec fn member(v: Json, name: Seq<char>) -> Option<Json> {
    match v {
        Json::Object(m) => if m@.contains_key(name) {
            Some(m@[name])
        } else {
            None
        },
        _ => None,
    }
}

/// The text that the member `name` of an object is.
pub open spec fn member_text(v: Json, name: Seq<char>) -> Option<Seq<char>> {
    match member(v, name) {
        Some(Json::Text(t)) => Some(t@),
        _ => None,
    }
}

/// The integer that the member `name` of an object is.
pub open spec fn member_int(v: Json, name: Seq<char>) -> Option<i64> {
    match member(v, name) {
        Some(Json::Int(n)) => Some(n),
        _ => None,
    }
}

/// The truth value that the member `name` of an object is.
pub open spec fn member_bool(v: Json, name: Seq<char>) -> Option<bool> {
    match member(v, name) {
        Some(Json::Bool(b)) => Some(b),
        _ => None,
    }
}

impl Json {
    /// The member `name`, if this is an object that has one.
    pub fn get(&self, name: &str) -> (r: Option<&Json>)
        ensures
            match r {
                Some(v) => member(*self, name@) == Some(*v),
                None => member(*self, name@) is None,
            },
    {
        match self {
            Json::Object(m) => m.get(name),
            _ => None,
        }
    }

    /// The text in the member `name`.
    pub fn get_text(&self, name: &str) -> (r: Option<&str>)
        ensures
            match r {
                Some(t) => member_text(*self, name@) == Some(t@),
                None => member_text(*self, name@) is None,
            },
    {
        match self.get(name) {
            Some(Json::Text(t)) => Some(t.as_str()),
            _ => None,
        }
    }

    /// The integer in the member `name`.
    pub fn get_int(&self, name: &str) -> (r: Option<i64>)
        ensures
            r == member_int(*self, name@),
    {
        match self.get(name) {
            Some(Json::Int(n)) => Some(*n),
            _ => None,
        }
    }

    /// The truth value in the member `name`.
    pub fn get_bool(&self, name: &str) -> (r: Option<bool>)
        ensures
            r == member_bool(*self, name@),
    {
        match self.get(name) {
            Some(Json::Bool(b)) => Some(*b),
            _ => None,
        }
    }
}

/// What an answer is: nothing where its text is empty, the value that the text
/// could be read as, or else the text itself.
pub fn body_of(text: String, parsed: Option<Json>) -> (r: Json)
    ensures
        text@.len() == 0 ==> r == Json::Null,
        text@.len() > 0 ==> r == match parsed {
            Some(v) => v,
            None => Json::Text(text),
        },
{
    if text.as_str().is_empty() {
        Json::Null
    } else {
        match parsed {
            Some(v) => v,
            None => Json::Text(text),
        }
    }
}

/// A member is one of an object alone, and read only as what it is.
pub proof fn law_members(v: Json, name: Seq<char>)
    ensures
        !(v is Object) ==> member(v, name) is None,
        v matches Json::Object(m) ==> member(v, name) == if m@.contains_key(name) {
            Some(m@[name])
        } else {
            None
        },
        member_text(v, name) == match member(v, name) {
            Some(Json::Text(t)) => Some(t@),
            _ => None,
        },
        member_bool(v, name) == match member(v, name) {
            Some(Json::Bool(b)) => Some(b),
            _ => None,
        },
        member_int(v, name) == match member(v, name) {
            Some(Json::Int(n)) => Some(n),
            _ => None,
        },
{
}

} // verus!
