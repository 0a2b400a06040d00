//! Structured documents: the values that a configuration file or a package's
//! metadata file holds once its text has been read.

use vstd::prelude::*;
use vstd::string::*;

verus! {

/// A value of a structured document.
#[derive(Debug, PartialEq, Eq)]
pub enum JsonValue {
    /// The explicit absence of a value.
    Null,
    /// A truth value.
    Boolean(bool),
    /// A whole number.
    Number(i64),
    /// A number that is not whole, or too large to keep. Its value is not kept.
    Fraction,
    /// A text.
    Text(String),
    /// A list of values.
    Array(Vec<JsonValue>),
    /// Named members, in the order in which they were written.
    Object(Vec<(String, JsonValue)>),
}

/// The first of `members` that has the name `key`.
pub open spec fn first_named(members: Seq<(String, JsonValue)>, key: Seq<char>) -> Option<
    JsonValue,
>
    decreases members.len(),
{
    if members.len() == 0 {
        None
    } else if members[0].0@ == key {
        Some(members[0].1)
    } else {
        first_named(members.drop_first(), key)
    }
}

impl JsonValue {
    /// The member named `key`: the first one, where a name occurs twice.
    /// A value that is not an object has no members.
    pub open spec fn member_spec(self, key: Seq<char>) -> Option<JsonValue> {
        match self {
            JsonValue::Object(members) => first_named(members@, key),
            _ => None,
        }
    }

    /// The text that this value is, if it is one.
    pub open spec fn text_spec(self) -> Option<Seq<char>> {
        match self {
            JsonValue::Text(s) => Some(s@),
            _ => None,
        }
    }

    /// The whole number that this value is, if it is one.
    pub open spec fn number_spec(self) -> Option<int> {
        match self {
            JsonValue::Number(n) => Some(n as int),
            _ => None,
        }
    }

    /// The items of this value, if it is a list.
    pub open spec fn items_spec(self) -> Option<Seq<JsonValue>> {
        match self {
            JsonValue::Array(items) => Some(items@),
            _ => None,
        }
    }

    /// The text of the member named `key`, if there is such a member and it is a text.
    pub open spec fn text_member_spec(self, key: Seq<char>) -> Option<Seq<char>> {
        match self.member_spec(key) {
            Some(v) => v.text_spec(),
            None => None,
        }
    }

    /// The number of the member named `key`, if there is such a member and it is
    /// a whole number.
    pub open spec fn number_member_spec(self, key: Seq<char>) -> Option<int> {
        match self.member_spec(key) {
            Some(v) => v.number_spec(),
            None => None,
        }
    }

    /// Looks up the member named `key`.
    pub fn member(&self, key: &str) -> (r: Option<&JsonValue>)
        ensures
            match r {
                Some(v) => self.member_spec(key@) == Some(*v),
                None => self.member_spec(key@) is None,
            },
    {
        match self {
            JsonValue::Object(members) => {
                let wanted = String::from_str(key);
                let mut i: usize = 0;
                assert(members@.skip(0) =~= members@);
                while i < members.len()
                    invariant
                        i <= members.len(),
                        wanted@ == key@,
                        self.member_spec(key@) == first_named(members@, key@),
                        first_named(members@, key@) == first_named(members@.skip(i as int), key@),
                    decreases members.len() - i,
                {
                    assert(members@.skip(i as int)[0] == members@[i as int]);
                    assert(members@.skip(i as int).drop_first() =~= members@.skip(i + 1));
                    if members[i].0 == wanted {
                        return Some(&members[i].1);
                    }
                    i = i + 1;
                }
                None
            },
            _ => None,
        }
    }

    /// This value as a text.
    pub fn as_text(&self) -> (r: Option<&str>)
        ensures
            match r {
                Some(s) => self.text_spec() == Some(s@),
                None => self.text_spec() is None,
            },
    {
        match self {
            JsonValue::Text(s) => Some(s.as_str()),
            _ => None,
        }
    }

    /// This value as a whole number.
    pub fn as_number(&self) -> (r: Option<i64>)
        ensures
            match r {
                Some(n) => self.number_spec() == Some(n as int),
                None => self.number_spec() is None,
            },
    {
        match self {
            JsonValue::Number(n) => Some(*n),
            _ => None,
        }
    }

    /// This value as a list.
    pub fn as_items(&self) -> (r: Option<&Vec<JsonValue>>)
        ensures
            match r {
                Some(items) => self.items_spec() == Some(items@),
                None => self.items_spec() is None,
            },
    {
        match self {
            JsonValue::Array(items) => Some(items),
            _ => None,
        }
    }

    /// The text of the member named `key`, copied.
    pub fn text_member(&self, key: &str) -> (r: Option<String>)
        ensures
            match r {
                Some(s) => self.text_member_spec(key@) == Some(s@),
                None => self.text_member_spec(key@) is None,
            },
    {
        match self.member(key) {
            Some(v) => match v.as_text() {
                Some(s) => Some(String::from_str(s)),
                None => None,
            },
            None => None,
        }
    }

    /// The number of the member named `key`.
    pub fn number_member(&self, key: &str) -> (r: Option<i64>)
        ensures
            match r {
                Some(n) => self.number_member_spec(key@) == Some(n as int),
                None => self.number_member_spec(key@) is None,
            },
    {
        match self.member(key) {
            Some(v) => v.as_number(),
            None => None,
        }
    }
}

} // verus!
