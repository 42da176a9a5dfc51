//! A JSON document as a value, with the forgiving lookups by which the
//! catalog is read: what is not there is `Null`.

use vstd::prelude::*;

verus! {

/// A JSON document. Numbers are kept only as such: the catalog is read
/// without looking at their values.
#[derive(Debug)]
pub enum Json {
    Null,
    Bool(bool),
    Number,
    Text(String),
    Array(Vec<Json>),
    /// The members in the order of the document.
    Object(Vec<(String, Json)>),
}

/// The value of the first of `members`, from position `from` on, that is
/// named `key`; `Null` if there is none.
pub open spec fn member_from(members: Seq<(String, Json)>, key: Seq<char>, from: int) -> Json
    decreases members.len() - from,
{
    if from < 0 || from >= members.len() {
        Json::Null
    } else if members[from].0@ == key {
        members[from].1
    } else {
        member_from(members, key, from + 1)
    }
}

impl Json {
    /// The member named `key` of an object; `Null` for a name that the
    /// object lacks, and for what is no object.
    pub open spec fn member(self, key: Seq<char>) -> Json {
        match self {
            Json::Object(members) => member_from(members@, key, 0),
            _ => Json::Null,
        }
    }

    /// The element at `idx` of an array; `Null` past the end of the array,
    /// and for what is no array.
    pub open spec fn element(self, idx: int) -> Json {
        match self {
            Json::Array(elements) => if 0 <= idx < elements.len() {
                elements[idx]
            } else {
                Json::Null
            },
            _ => Json::Null,
        }
    }

    /// The text of a string; nothing for what is no string.
    pub open spec fn text(self) -> Option<Seq<char>> {
        match self {
            Json::Text(text) => Some(text@),
            _ => None,
        }
    }

    /// The number of elements of an array; 0 for what is no array.
    pub open spec fn count(self) -> nat {
        match self {
            Json::Array(elements) => elements.len() as nat,
            _ => 0,
        }
    }

    pub fn is_null(&self) -> (null: bool)
        ensures
            null == (*self is Null),
    {
        match self {
            Json::Null => true,
            _ => false,
        }
    }

    /// See [`Json::member`].
    pub fn get(&self, key: &str) -> (out: &Json)
        ensures
            *out == self.member(key@),
    {
        match self {
            Json::Object(members) => {
                let wanted = key.to_owned();
                let mut i: usize = 0;
                while i < members.len()
                    invariant
                        i <= members.len(),
                        wanted@ == key@,
                        self.member(key@) == member_from(members@, key@, i as int),
                    decreases members.len() - i,
                {
                    if members[i].0 == wanted {
                        return &members[i].1;
                    }
                    i += 1;
                }
                &Json::Null
            },
            _ => &Json::Null,
        }
    }

    /// See [`Json::element`].
    pub fn at(&self, idx: usize) -> (out: &Json)
        ensures
            *out == self.element(idx as int),
    {
        match self {
            Json::Array(elements) => if idx < elements.len() {
                &elements[idx]
            } else {
                &Json::Null
            },
            _ => &Json::Null,
        }
    }

    /// A copy of the text of a string; nothing for what is no string.
    pub fn as_text(&self) -> (out: Option<String>)
        ensures
            match out {
                Some(text) => self.text() == Some(text@),
                None => self.text() is None,
            },
    {
        match self {
            Json::Text(text) => Some(text.clone()),
            _ => None,
        }
    }
}

} // verus!
