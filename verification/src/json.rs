//! A JSON document as plain data, and the failures of reading a request
//! out of one.

use vstd::prelude::*;
use crate::text::{concat2, concat3, same_text};

verus! {

/// A JSON value. An object keeps its members in document order; a number
/// keeps its text.
#[derive(Debug)]
pub enum JsonValue {
    Null,
    Bool(bool),
    Number(String),
    Text(String),
    List(Vec<JsonValue>),
    Object(Vec<(String, JsonValue)>),
}

/// Index of the first member named `key` at or after `from`, or
/// `members.len()` when there is none.
pub open spec fn member_index(members: Seq<(String, JsonValue)>, key: Seq<char>, from: int) -> int
    decreases members.len() - from,
{
    if from < 0 || from >= members.len() {
        members.len() as int
    } else if members[from].0@ == key {
        from
    } else {
        member_index(members, key, from + 1)
    }
}

/// No member named `key` in `members[from..k]` and one at `k`, or the end
/// there, fixes `member_index`.
pub proof fn lemma_member_index_at(
    members: Seq<(String, JsonValue)>,
    key: Seq<char>,
    from: int,
    k: int,
)
    requires
        0 <= from <= k <= members.len(),
        forall|j: int| from <= j < k ==> (#[trigger] members[j]).0@ != key,
        k < members.len() ==> members[k].0@ == key,
    ensures
        member_index(members, key, from) == k,
    decreases k - from,
{
    if from < k {
        lemma_member_index_at(members, key, from + 1, k);
    }
}

/// Index of the first member named `key`, or `members.len()` when there is
/// none.
pub fn find_member(members: &Vec<(String, JsonValue)>, key: &str) -> (k: usize)
    ensures
        k == member_index(members@, key@, 0),
        k <= members.len(),
{
    let mut i: usize = 0;
    while i < members.len()
        invariant
            i <= members.len(),
            forall|j: int| 0 <= j < i ==> (#[trigger] members@[j]).0@ != key@,
        decreases members.len() - i,
    {
        if same_text(members[i].0.as_str(), key) {
            proof {
                lemma_member_index_at(members@, key@, 0, i as int);
            }
            return i;
        }
        i = i + 1;
    }
    proof {
        lemma_member_index_at(members@, key@, 0, i as int);
    }
    i
}

impl JsonValue {
    /// The characters of a string value.
    pub open spec fn text(self) -> Option<Seq<char>> {
        match self {
            JsonValue::Text(s) => Some(s@),
            _ => None,
        }
    }

    /// The elements of an array.
    pub open spec fn items(self) -> Option<Seq<JsonValue>> {
        match self {
            JsonValue::List(v) => Some(v@),
            _ => None,
        }
    }

    /// The first member of an object that is named `key`.
    pub open spec fn member(self, key: Seq<char>) -> Option<JsonValue> {
        match self {
            JsonValue::Object(members) => {
                let k = member_index(members@, key, 0);
                if 0 <= k < members@.len() {
                    Some(members@[k].1)
                } else {
                    None
                }
            },
            _ => None,
        }
    }

    /// The characters of the member named `key`, where there is one and it
    /// is a string.
    pub open spec fn text_member(self, key: Seq<char>) -> Option<Seq<char>> {
        match self.member(key) {
            Some(value) => value.text(),
            None => None,
        }
    }

    /// The member named `key`, where there is one and it is not `null`.
    pub open spec fn present_member(self, key: Seq<char>) -> Option<JsonValue> {
        match self.member(key) {
            Some(JsonValue::Null) => None,
            other => other,
        }
    }

    /// The first member of an object that is named `key`.
    pub fn get<'a>(&'a self, key: &str) -> (r: Option<&'a JsonValue>)
        ensures
            match r {
                Some(value) => self.member(key@) == Some(*value),
                None => self.member(key@) is None,
            },
    {
        match self {
            JsonValue::Object(members) => {
                let k = find_member(members, key);
                if k < members.len() {
                    Some(&members[k].1)
                } else {
                    None
                }
            },
            _ => None,
        }
    }

    /// The member named `key`, where there is one and it is not `null`.
    pub fn get_present<'a>(&'a self, key: &str) -> (r: Option<&'a JsonValue>)
        ensures
            match r {
                Some(value) => self.present_member(key@) == Some(*value),
                None => self.present_member(key@) is None,
            },
    {
        match self.get(key) {
            Some(JsonValue::Null) => None,
            other => other,
        }
    }

    /// The string value of the member named `key`.
    pub fn get_text<'a>(&'a self, key: &str) -> (r: Option<&'a String>)
        ensures
            match r {
                Some(s) => self.text_member(key@) == Some(s@),
                None => self.text_member(key@) is None,
            },
    {
        match self.get(key) {
            Some(JsonValue::Text(s)) => Some(s),
            _ => None,
        }
    }
}

/// Why a JSON value is not the request, or the part of one, that was
/// expected.
#[derive(Debug)]
pub enum ParseError {
    /// A required member is absent.
    MissingField(String),
    /// A value has another type than the one named here.
    InvalidType(String),
    /// A template name that is not known.
    UnknownVariant(String),
    /// Any other complaint, in words.
    Custom(String),
}

/// A [`ParseError`] with its text as a sequence of characters.
pub enum ParseErrorModel {
    MissingField(Seq<char>),
    InvalidType(Seq<char>),
    UnknownVariant(Seq<char>),
    Custom(Seq<char>),
}

impl View for ParseError {
    type V = ParseErrorModel;

    open spec fn view(&self) -> ParseErrorModel {
        match *self {
            ParseError::MissingField(m) => ParseErrorModel::MissingField(m@),
            ParseError::InvalidType(m) => ParseErrorModel::InvalidType(m@),
            ParseError::UnknownVariant(m) => ParseErrorModel::UnknownVariant(m@),
            ParseError::Custom(m) => ParseErrorModel::Custom(m@),
        }
    }
}

impl ParseErrorModel {
    /// The text shown for this failure.
    pub open spec fn text(self) -> Seq<char> {
        match self {
            ParseErrorModel::MissingField(name) => "missing field `"@ + name + "`"@,
            ParseErrorModel::InvalidType(expected) => "invalid type: expected "@ + expected,
            ParseErrorModel::UnknownVariant(name) => "unknown variant `"@ + name
                + "`, expected one of `default`, `metaspexet`, `none`"@,
            ParseErrorModel::Custom(message) => message,
        }
    }

    /// This failure as reported from inside a collection: its text, as a
    /// complaint in words.
    pub open spec fn nested(self) -> ParseErrorModel {
        ParseErrorModel::Custom(self.text())
    }
}

impl ParseError {
    /// The text shown for this failure.
    pub fn to_string(&self) -> (s: String)
        ensures
            s@ == self@.text(),
    {
        match self {
            ParseError::MissingField(name) => concat3("missing field `", name.as_str(), "`"),
            ParseError::InvalidType(expected) => concat2(
                "invalid type: expected ",
                expected.as_str(),
            ),
            ParseError::UnknownVariant(name) => concat3(
                "unknown variant `",
                name.as_str(),
                "`, expected one of `default`, `metaspexet`, `none`",
            ),
            ParseError::Custom(message) => message.clone(),
        }
    }

    /// This failure as reported from inside a collection.
    pub fn into_nested(self) -> (e: ParseError)
        ensures
            e@ == self@.nested(),
    {
        ParseError::Custom(self.to_string())
    }
}

} // verus!
