//! JSON documents as the platform sends them, read with `serde_json`.

use vstd::prelude::*;

verus! {

/// `serde_json::Value`, of which nothing is known here: a value of it is
/// copied into a `Json` before anything is read from it.
#[verifier::external_type_specification]
#[verifier::external_body]
pub struct ExValue(serde_json::Value);

/// A JSON value.
#[derive(Debug, PartialEq, Eq)]
pub enum Json {
    Null,
    Bool(bool),
    /// A number that is an integer of 64 bits with a sign.
    Int(i64),
    /// Any other number, as JSON writes it.
    Number(String),
    Text(String),
    Array(Vec<Json>),
    /// The members of an object, each with its name.
    Object(Vec<(String, Json)>),
}

/// The value that `serde_json` reads from `text`, if `text` is a JSON
/// document.
pub uninterp spec fn json_document(text: Seq<char>) -> Option<Json>;

/// Copies a value of `serde_json` into a `Json`, variant by variant. A
/// number is an `Int` where `serde_json::Number::as_i64` gives one, and else
/// a `Number` with the text that `serde_json` writes for it. The members of
/// an object come in the order in which `serde_json` keeps them.
#[verifier::external_body]
fn from_value(value: &serde_json::Value) -> Json {
    match value {
        serde_json::Value::Null => Json::Null,
        serde_json::Value::Bool(b) => Json::Bool(*b),
        serde_json::Value::Number(n) => match n.as_i64() {
            Some(i) => Json::Int(i),
            None => Json::Number(n.to_string()),
        },
        serde_json::Value::String(s) => Json::Text(s.clone()),
        serde_json::Value::Array(a) => Json::Array(a.iter().map(from_value).collect()),
        serde_json::Value::Object(o) => Json::Object(
            o.iter().map(|(k, v)| (k.clone(), from_value(v))).collect(),
        ),
    }
}

/// Calls `serde_json::from_str` for a `serde_json::Value`. The contract
/// names the value that comes back, and says no more of it than that the
/// same text gives the same value; text that is no JSON document gives none.
#[verifier::external_body]
pub(crate) fn read_document(text: &str) -> (json: Option<Json>)
    ensures
        json == json_document(text@),
{
    match serde_json::from_str::<serde_json::Value>(text) {
        Ok(value) => Some(from_value(&value)),
        Err(_) => None,
    }
}

/// The first member with the name `name`.
pub open spec fn find(members: Seq<(String, Json)>, name: Seq<char>) -> Option<Json>
    decreases members.len(),
{
    if members.len() == 0 {
        None
    } else if members[0].0@ == name {
        Some(members[0].1)
    } else {
        find(members.drop_first(), name)
    }
}

impl Json {
    /// The member `name` of an object.
    pub open spec fn member(self, name: Seq<char>) -> Option<Json> {
        match self {
            Json::Object(members) => find(members@, name),
            _ => None,
        }
    }

    /// The item at `index` of an array.
    pub open spec fn item(self, index: int) -> Option<Json> {
        match self {
            Json::Array(items) => if 0 <= index < items@.len() {
                Some(items@[index])
            } else {
                None
            },
            _ => None,
        }
    }

    /// The items of an array.
    pub open spec fn items(self) -> Option<Seq<Json>> {
        match self {
            Json::Array(items) => Some(items@),
            _ => None,
        }
    }

    /// The characters of a string.
    pub open spec fn text(self) -> Option<Seq<char>> {
        match self {
            Json::Text(text) => Some(text@),
            _ => None,
        }
    }

    /// The value of an integer.
    pub open spec fn integer(self) -> Option<i64> {
        match self {
            Json::Int(value) => Some(value),
            _ => None,
        }
    }

    /// The member `name` of an object; none where the value is no object or
    /// has no such member.
    pub fn get(&self, name: &str) -> (value: Option<&Json>)
        ensures
            match value {
                Some(v) => self.member(name@) == Some(*v),
                None => self.member(name@).is_none(),
            },
    {
        match self {
            Json::Object(members) => {
                let mut i: usize = 0;
                assert(members@.skip(0) =~= members@);
                while i < members.len()
                    invariant
                        i <= members.len(),
                        self.member(name@) == find(members@.skip(i as int), name@),
                    decreases members.len() - i,
                {
                    if crate::text::same_text(members[i].0.as_str(), name) {
                        return Some(&members[i].1);
                    }
                    proof {
                        assert(members@.skip(i as int).drop_first() =~= members@.skip(i + 1));
                    }
                    i += 1;
                }
                None
            },
            _ => None,
        }
    }

    /// The item at `index` of an array; none where the value is no array or
    /// is shorter.
    pub fn get_index(&self, index: usize) -> (value: Option<&Json>)
        ensures
            match value {
                Some(v) => self.item(index as int) == Some(*v),
                None => self.item(index as int).is_none(),
            },
    {
        match self {
            Json::Array(items) => if index < items.len() {
                Some(&items[index])
            } else {
                None
            },
            _ => None,
        }
    }

    /// The items of an array; none where the value is no array.
    pub fn as_array(&self) -> (items: Option<&Vec<Json>>)
        ensures
            match items {
                Some(list) => self.items() == Some(list@),
                None => self.items().is_none(),
            },
    {
        match self {
            Json::Array(items) => Some(items),
            _ => None,
        }
    }

    /// The characters of a string; none where the value is no string.
    pub fn as_str(&self) -> (text: Option<&str>)
        ensures
            match text {
                Some(t) => self.text() == Some(t@),
                None => self.text().is_none(),
            },
    {
        match self {
            Json::Text(text) => Some(text.as_str()),
            _ => None,
        }
    }

    /// The value of an integer; none where the value is no integer of 64
    /// bits with a sign.
    pub fn as_i64(&self) -> (value: Option<i64>)
        ensures
            value == self.integer(),
    {
        match self {
            Json::Int(value) => Some(*value),
            _ => None,
        }
    }
}

} // verus!
