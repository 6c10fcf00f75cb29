//! JSON documents as plain data.

use vstd::prelude::*;
use crate::error::SwitchError;
use crate::cycle::{first_position, is_first, lemma_first_is_position, lemma_nowhere_no_position};
use crate::text::{decode, same_text};
use vstd::utf8::{decode_utf8, valid_utf8};

verus! {

/// What a JSON document says, as a mathematical value.
pub enum JsonValue {
    Null,
    Bool(bool),
    /// A number. Where the document writes it as an unsigned integer, in
    /// digits alone, and it is below 2^64, this holds the number. Of a number
    /// with a sign, a fraction or an exponent, or of a larger one, it holds
    /// nothing.
    Number(Option<u64>),
    String(Seq<char>),
    Array(Seq<JsonValue>),
    /// The members, each a key and what stands under it, in the order in which
    /// the object lists them.
    Object(Seq<(Seq<char>, JsonValue)>),
}

/// The test that picks the members called `key`.
pub open spec fn keyed(key: Seq<char>) -> spec_fn((Seq<char>, JsonValue)) -> bool {
    |member: (Seq<char>, JsonValue)| member.0 == key
}

impl JsonValue {
    /// What stands under `key` in an object: the first member of that name.
    /// Anything but an object has no members.
    pub open spec fn member(self, key: Seq<char>) -> Option<JsonValue> {
        match self {
            JsonValue::Object(members) => match first_position(members, keyed(key)) {
                Some(at) => Some(members[at].1),
                None => None,
            },
            _ => None,
        }
    }

    /// The characters of a string; nothing for any other value.
    pub open spec fn text(self) -> Option<Seq<char>> {
        match self {
            JsonValue::String(text) => Some(text),
            _ => None,
        }
    }

    /// What a number holds; nothing for any other value.
    pub open spec fn unsigned(self) -> Option<u64> {
        match self {
            JsonValue::Number(number) => number,
            _ => None,
        }
    }

    /// The items of an array; nothing for any other value.
    pub open spec fn items(self) -> Option<Seq<JsonValue>> {
        match self {
            JsonValue::Array(items) => Some(items),
            _ => None,
        }
    }

    /// The text that stands under `key`, where the value is an object and that
    /// member is a string.
    pub open spec fn text_member(self, key: Seq<char>) -> Option<Seq<char>> {
        match self.member(key) {
            Some(value) => value.text(),
            None => None,
        }
    }
}

/// One member of a JSON object.
#[derive(Debug, PartialEq, Eq)]
pub struct Member {
    pub key: String,
    pub value: Json,
}

/// A JSON document.
#[derive(Debug, PartialEq, Eq)]
pub enum Json {
    Null,
    Bool(bool),
    /// A number. Where the document writes it as an unsigned integer, in
    /// digits alone, and it is below 2^64, this holds the number. Of a number
    /// with a sign, a fraction or an exponent, or of a larger one, it holds
    /// nothing.
    Number(Option<u64>),
    String(String),
    Array(Vec<Json>),
    /// The members in the order in which the object lists them.
    Object(Vec<Member>),
}

impl View for Json {
    type V = JsonValue;

    open spec fn view(&self) -> JsonValue
        decreases self,
    {
        match self {
            Json::Null => JsonValue::Null,
            Json::Bool(flag) => JsonValue::Bool(*flag),
            Json::Number(number) => JsonValue::Number(*number),
            Json::String(text) => JsonValue::String(text@),
            Json::Array(items) => JsonValue::Array(
                Seq::new(
                    items@.len(),
                    |i: int|
                        if 0 <= i < items@.len() {
                            items@[i].view()
                        } else {
                            JsonValue::Null
                        },
                ),
            ),
            Json::Object(members) => JsonValue::Object(
                Seq::new(
                    members@.len(),
                    |i: int|
                        if 0 <= i < members@.len() {
                            (members@[i].key@, members@[i].value.view())
                        } else {
                            (Seq::empty(), JsonValue::Null)
                        },
                ),
            ),
        }
    }
}

/// What each of a list of documents says.
pub open spec fn values(documents: Seq<Json>) -> Seq<JsonValue> {
    documents.map_values(|document: Json| document@)
}

/// The members that a list of members stands for: each key with what its value says.
pub open spec fn entries(members: Seq<Member>) -> Seq<(Seq<char>, JsonValue)> {
    members.map_values(|member: Member| (member.key@, member.value@))
}

/// An array says what its items say, in their order.
pub proof fn lemma_array_says(items: Vec<Json>)
    ensures
        Json::Array(items)@ == JsonValue::Array(values(items@)),
{
    reveal_with_fuel(<Json as View>::view, 2);
    assert(Json::Array(items)@->Array_0 =~= values(items@));
}

/// An object says what its members say, in their order.
pub proof fn lemma_object_says(members: Vec<Member>)
    ensures
        Json::Object(members)@ == JsonValue::Object(entries(members@)),
{
    reveal_with_fuel(<Json as View>::view, 2);
    assert(Json::Object(members)@->Object_0 =~= entries(members@));
}

impl Json {
    /// What stands under `key`, where this is an object that has such a member.
    pub fn get(&self, key: &str) -> (found: Option<&Json>)
        ensures
            match found {
                Some(value) => self@.member(key@) == Some(value@),
                None => self@.member(key@) is None,
            },
    {
        match self {
            Json::Object(members) => {
                let ghost listed = entries(members@);
                let ghost hit = keyed(key@);
                proof {
                    lemma_object_says(*members);
                }
                let mut at: usize = 0;
                while at < members.len()
                    invariant
                        at <= members.len(),
                        listed == entries(members@),
                        self@ == JsonValue::Object(listed),
                        hit == keyed(key@),
                        forall|k: int| 0 <= k < at ==> !hit(#[trigger] listed[k]),
                    decreases members.len() - at,
                {
                    if same_text(members[at].key.as_str(), key) {
                        proof {
                            assert(is_first(listed, hit, at as int));
                            lemma_first_is_position(listed, hit, at as int);
                        }
                        return Some(&members[at].value);
                    }
                    at += 1;
                }
                proof {
                    lemma_nowhere_no_position(listed, hit);
                }
                None
            },
            _ => None,
        }
    }

    /// The text of a string.
    pub fn as_str(&self) -> (text: Option<&str>)
        ensures
            match text {
                Some(read) => self@.text() == Some(read@),
                None => self@.text() is None,
            },
    {
        match self {
            Json::String(text) => Some(text.as_str()),
            _ => None,
        }
    }

    /// The value of a number that is written as an unsigned integer below 2^64.
    pub fn as_u64(&self) -> (number: Option<u64>)
        ensures
            number == self@.unsigned(),
    {
        match self {
            Json::Number(number) => *number,
            _ => None,
        }
    }

    /// The items of an array.
    pub fn as_array(&self) -> (items: Option<&Vec<Json>>)
        ensures
            match items {
                Some(listed) => self@.items() == Some(values(listed@)),
                None => self@.items() is None,
            },
    {
        match self {
            Json::Array(items) => {
                proof {
                    lemma_array_says(*items);
                }
                Some(items)
            },
            _ => None,
        }
    }

    /// The text that stands under `key`, where this is an object and that
    /// member is a string.
    pub fn text_member(&self, key: &str) -> (text: Option<&str>)
        ensures
            match text {
                Some(read) => self@.text_member(key@) == Some(read@),
                None => self@.text_member(key@) is None,
            },
    {
        match self.get(key) {
            Some(value) => value.as_str(),
            None => None,
        }
    }
}

/// `serde_json::Value`: a document as serde_json holds it. Nothing is read from
/// it here; `lower` turns it into a `Json`.
#[verifier::external_type_specification]
#[verifier::external_body]
pub struct ExValue(serde_json::Value);

/// `serde_json::Error`: why serde_json refused a text. Nothing is read from it.
#[verifier::external_type_specification]
#[verifier::external_body]
pub struct ExError(serde_json::Error);

/// The document that `serde_json::from_str` reads from `text`, or nothing where
/// it refuses the text.
pub uninterp spec fn json_document(text: Seq<char>) -> Option<JsonValue>;

/// What a `serde_json::Value` holds: the document that it stands for. Nothing
/// is known of it but what `read_value` and `lower` state.
pub uninterp spec fn value_contents(value: serde_json::Value) -> JsonValue;

/// `serde_json::from_str`, asked for a `serde_json::Value`. What it returns
/// depends on the text alone: the document that the text holds, or an error
/// where it holds none.
#[verifier::external_body]
fn read_value(text: &str) -> (read: Result<serde_json::Value, serde_json::Error>)
    ensures
        match read {
            Ok(value) => json_document(text@) == Some(value_contents(value)),
            Err(_) => json_document(text@) is None,
        },
{
    serde_json::from_str::<serde_json::Value>(text)
}

/// Takes a `serde_json::Value` apart, variant by variant, and builds the same
/// document as a `Json`: an array's items in their order, an object's members
/// in the order in which its map hands them out, and of a number what
/// `serde_json::Number::as_u64` gives.
#[verifier::external_body]
fn lower(value: serde_json::Value) -> (json: Json)
    ensures
        json@ == value_contents(value),
{
    match value {
        serde_json::Value::Null => Json::Null,
        serde_json::Value::Bool(flag) => Json::Bool(flag),
        serde_json::Value::Number(number) => Json::Number(number.as_u64()),
        serde_json::Value::String(text) => Json::String(text),
        serde_json::Value::Array(items) => Json::Array(items.into_iter().map(lower).collect()),
        serde_json::Value::Object(members) => Json::Object(
            members.into_iter().map(|(key, value)| Member { key, value: lower(value) }).collect(),
        ),
    }
}

/// Reads `text` as one JSON document.
pub fn parse(text: &str) -> (parsed: Result<Json, SwitchError>)
    ensures
        match parsed {
            Ok(json) => json_document(text@) == Some(json@),
            Err(error) => error == SwitchError::InvalidJson && json_document(text@) is None,
        },
{
    match read_value(text) {
        Ok(value) => Ok(lower(value)),
        Err(_) => Err(SwitchError::InvalidJson),
    }
}

/// What a program wrote, read as one JSON document: the bytes have to be
/// UTF-8, and the text has to be JSON.
pub open spec fn document(output: Seq<u8>) -> Result<JsonValue, SwitchError> {
    if !valid_utf8(output) {
        Err(SwitchError::InvalidUtf8)
    } else {
        match json_document(decode_utf8(output)) {
            Some(value) => Ok(value),
            None => Err(SwitchError::InvalidJson),
        }
    }
}

/// A result that holds a document, with the document taken as what it says.
pub open spec fn said(outcome: Result<Json, SwitchError>) -> Result<JsonValue, SwitchError> {
    match outcome {
        Ok(json) => Ok(json@),
        Err(error) => Err(error),
    }
}

/// Reads what a program wrote as one JSON document.
pub fn read(output: &[u8]) -> (document: Result<Json, SwitchError>)
    ensures
        said(document) == self::document(output@),
{
    match decode(output) {
        Ok(text) => parse(text),
        Err(error) => Err(error),
    }
}

} // verus!
