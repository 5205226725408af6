//! JSON documents as plain trees, and the one call that produces them.

use crate::error::ParseError;
use vstd::prelude::*;

verus! {

/// A JSON document held as plain values.  Numbers keep their decimal text;
/// an object keeps its members as a list of pairs.
#[derive(Debug)]
pub enum Json {
    Null,
    Bool(bool),
    Number(String),
    Text(String),
    Array(Vec<Json>),
    Object(Vec<(String, Json)>),
}

/// The mathematical value of a [`Json`] tree.
pub ghost enum JsonValue {
    Null,
    Bool(bool),
    Number(Seq<char>),
    Text(Seq<char>),
    Array(Seq<JsonValue>),
    Object(Seq<(Seq<char>, JsonValue)>),
}

impl View for Json {
    type V = JsonValue;

    open spec fn view(&self) -> JsonValue
        decreases self,
    {
        match self {
            Json::Null => JsonValue::Null,
            Json::Bool(b) => JsonValue::Bool(*b),
            Json::Number(n) => JsonValue::Number(n@),
            Json::Text(s) => JsonValue::Text(s@),
            Json::Array(items) => JsonValue::Array(
                Seq::new(
                    items.len() as nat,
                    |i: int|
                        if 0 <= i < items.len() {
                            items[i].view()
                        } else {
                            JsonValue::Null
                        },
                ),
            ),
            Json::Object(members) => JsonValue::Object(
                Seq::new(
                    members.len() as nat,
                    |i: int|
                        (
                            members[i].0@,
                            if 0 <= i < members.len() {
                                members[i].1.view()
                            } else {
                                JsonValue::Null
                            },
                        ),
                ),
            ),
        }
    }
}

/// The value of the first member of `members` whose key is `key`.
pub open spec fn lookup(members: Seq<(Seq<char>, JsonValue)>, key: Seq<char>) -> Option<JsonValue>
    decreases members.len(),
{
    if members.len() == 0 {
        None
    } else if members[0].0 == key {
        Some(members[0].1)
    } else {
        lookup(members.drop_first(), key)
    }
}

impl JsonValue {
    /// The member `key` of an object; `None` for any other value and for an
    /// object without that member.
    pub open spec fn member(self, key: Seq<char>) -> Option<JsonValue> {
        match self {
            JsonValue::Object(members) => lookup(members, key),
            _ => None,
        }
    }

    /// The characters of a string; `None` for any other value.
    pub open spec fn text(self) -> Option<Seq<char>> {
        match self {
            JsonValue::Text(s) => Some(s),
            _ => None,
        }
    }

    /// The elements of an array; `None` for any other value.
    pub open spec fn items(self) -> Option<Seq<JsonValue>> {
        match self {
            JsonValue::Array(items) => Some(items),
            _ => None,
        }
    }

    /// The value of the first member of an object; `None` for any other
    /// value and for the empty object.
    pub open spec fn first_member(self) -> Option<JsonValue> {
        match self {
            JsonValue::Object(members) => if members.len() > 0 {
                Some(members[0].1)
            } else {
                None
            },
            _ => None,
        }
    }
}

/// The values of a list of documents.
pub open spec fn json_views(items: Seq<Json>) -> Seq<JsonValue> {
    items.map_values(|j: Json| j@)
}

impl Json {
    /// The member `key` of an object.
    pub fn member(&self, key: &str) -> (r: Option<&Json>)
        ensures
            r matches Some(j) ==> self@.member(key@) == Some(j@),
            r is None ==> self@.member(key@) is None,
    {
        match self {
            Json::Object(members) => {
                let wanted = key.to_owned();
                let ghost all = self@->Object_0;
                let mut i: usize = 0;
                assert(all.skip(0) =~= all);
                while i < members.len()
                    invariant
                        i <= members.len(),
                        wanted@ == key@,
                        self@ == JsonValue::Object(all),
                        all.len() == members.len(),
                        forall|j: int|
                            0 <= j < members.len() ==> all[j] == (
                                #[trigger] members[j].0@,
                                members[j].1@,
                            ),
                        lookup(all, key@) == lookup(all.skip(i as int), key@),
                    decreases members.len() - i,
                {
                    proof {
                        assert(all.skip(i as int).drop_first() =~= all.skip(i as int + 1));
                        assert(all.skip(i as int)[0] == all[i as int]);
                    }
                    if members[i].0 == wanted {
                        return Some(&members[i].1);
                    }
                    i += 1;
                }
                None
            },
            _ => None,
        }
    }

    /// The characters of a string.
    pub fn as_text(&self) -> (r: Option<&String>)
        ensures
            r matches Some(s) ==> self@.text() == Some(s@),
            r is None ==> self@.text() is None,
    {
        match self {
            Json::Text(s) => Some(s),
            _ => None,
        }
    }

    /// The elements of an array.
    pub fn as_array(&self) -> (r: Option<&Vec<Json>>)
        ensures
            r matches Some(items) ==> self@.items() == Some(json_views(items@)),
            r is None ==> self@.items() is None,
    {
        match self {
            Json::Array(items) => {
                assert(self@->Array_0 =~= json_views(items@));
                Some(items)
            },
            _ => None,
        }
    }

    /// The value of the first member of an object.
    pub fn first_member(&self) -> (r: Option<&Json>)
        ensures
            r matches Some(j) ==> self@.first_member() == Some(j@),
            r is None ==> self@.first_member() is None,
    {
        match self {
            Json::Object(members) => {
                if members.len() > 0 {
                    Some(&members[0].1)
                } else {
                    None
                }
            },
            _ => None,
        }
    }
}

/// The failure that `serde_json` reports; carried, never inspected.
#[verifier::external_type_specification]
#[verifier::external_body]
pub struct ExJsonError(serde_json::Error);

/// The tree that `serde_json` builds; it is moved into a [`Json`] at once.
#[verifier::external_type_specification]
#[verifier::external_body]
pub struct ExJsonTree(serde_json::Value);

/// What `serde_json::from_slice` makes of a body: the document it reads, or
/// `None` where it reports an error.
pub uninterp spec fn json_document(body: Seq<u8>) -> Option<JsonValue>;

/// Moves a `serde_json::Value` into a [`Json`] tree, variant by variant.  A
/// number is kept as the text `serde_json` prints for it, an object as its
/// members in the order `serde_json` yields them.
#[verifier::external_body]
fn lift(value: serde_json::Value) -> Json {
    match value {
        serde_json::Value::Null => Json::Null,
        serde_json::Value::Bool(b) => Json::Bool(b),
        serde_json::Value::Number(n) => Json::Number(n.to_string()),
        serde_json::Value::String(s) => Json::Text(s),
        serde_json::Value::Array(items) => Json::Array(items.into_iter().map(lift).collect()),
        serde_json::Value::Object(members) => Json::Object(
            members.into_iter().map(|(k, v)| (k, lift(v))).collect(),
        ),
    }
}

/// Calls `serde_json::from_slice` for a `serde_json::Value`.  The contract
/// claims only that the outcome is a function of the bytes: the same body
/// always reads as the same document, or always fails.
#[verifier::external_body]
fn decode(body: &[u8]) -> (r: Result<Json, serde_json::Error>)
    ensures
        r matches Ok(doc) ==> json_document(body@) == Some(doc@),
        r is Err ==> json_document(body@) is None,
{
    serde_json::from_slice::<serde_json::Value>(body).map(lift)
}

/// Reads a body as a JSON document.
///
/// Succeeds exactly when `serde_json` accepts the body; every body it
/// rejects is a `Syntax` error.
pub fn parse(body: &[u8]) -> (r: Result<Json, ParseError>)
    ensures
        r matches Ok(doc) ==> json_document(body@) == Some(doc@),
        r matches Err(e) ==> e == ParseError::Syntax && json_document(body@) is None,
{
    match decode(body) {
        Ok(doc) => Ok(doc),
        Err(_) => Err(ParseError::Syntax),
    }
}

} // verus!
