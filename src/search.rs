//! The record identifiers that a literature search answers with, read from
//! the search service's JSON response.
use crate::numbers::{read_u64, u64_or_zero};
use vstd::prelude::*;

verus! {

#[verifier::external_type_specification]
#[verifier::external_body]
pub struct ExJsonValue(serde_json::Value);

#[verifier::external_type_specification]
#[verifier::external_body]
pub struct ExJsonError(serde_json::Error);

/// A JSON value as plain data. Numbers keep their text; an object's members
/// keep the order in which `serde_json` lists them.
#[derive(Debug, PartialEq)]
pub enum JsonValue {
    Null,
    Bool(bool),
    Number(String),
    Text(String),
    Array(Vec<JsonValue>),
    Object(Vec<(String, JsonValue)>),
}

/// The value that `serde_json` reads from `text`, when it is a JSON document.
pub uninterp spec fn json_of(text: Seq<char>) -> Option<JsonValue>;

/// Relies on `serde_json::from_str`, which reads one JSON document or fails;
/// what it reads depends on the text alone.
#[verifier::external_body]
fn parse_json(text: &str) -> (r: Result<JsonValue, serde_json::Error>)
    ensures
        r is Ok <==> json_of(text@) is Some,
        r is Ok ==> json_of(text@) == Some(r->Ok_0),
{
    serde_json::from_str::<serde_json::Value>(text).map(|v| json_from_serde(&v))
}

/// Relies on the variants of `serde_json::Value` and on `Number`'s `Display`:
/// converts a value one for one, each number to its text.
#[verifier::external_body]
fn json_from_serde(v: &serde_json::Value) -> JsonValue {
    match v {
        serde_json::Value::Null => JsonValue::Null,
        serde_json::Value::Bool(b) => JsonValue::Bool(*b),
        serde_json::Value::Number(n) => JsonValue::Number(n.to_string()),
        serde_json::Value::String(s) => JsonValue::Text(s.clone()),
        serde_json::Value::Array(a) => JsonValue::Array(a.iter().map(json_from_serde).collect()),
        serde_json::Value::Object(m) => JsonValue::Object(
            m.iter().map(|(k, x)| (k.clone(), json_from_serde(x))).collect(),
        ),
    }
}

/// The value of the first member of an object named `key`.
pub open spec fn member(fields: Seq<(String, JsonValue)>, key: Seq<char>) -> Option<JsonValue>
    decreases fields.len(),
{
    if fields.len() == 0 {
        None
    } else if fields[0].0@ == key {
        Some(fields[0].1)
    } else {
        member(fields.skip(1), key)
    }
}

/// Finds the member `key` of an object, as `member` states.
fn find_member<'a>(fields: &'a Vec<(String, JsonValue)>, key: &str) -> (r: Option<&'a JsonValue>)
    ensures
        match r {
            Some(v) => member(fields@, key@) == Some(*v),
            None => member(fields@, key@) is None,
        },
{
    let mut k: usize = 0;
    assert(fields@.skip(0) =~= fields@);
    while k < fields.len()
        invariant
            k <= fields@.len(),
            member(fields@, key@) == member(fields@.skip(k as int), key@),
        decreases fields@.len() - k,
    {
        assert(fields@.skip(k as int).skip(1) =~= fields@.skip(k + 1));
        if crate::xml::str_eq(fields[k].0.as_str(), key) {
            return Some(&fields[k].1);
        }
        k = k + 1;
    }
    None
}

/// The items of the `esearchresult.idlist` array of a search response.
pub open spec fn id_list(j: JsonValue) -> Option<Seq<JsonValue>> {
    match j {
        JsonValue::Object(fs) => match member(fs@, "esearchresult"@) {
            Some(JsonValue::Object(gs)) => match member(gs@, "idlist"@) {
                Some(JsonValue::Array(items)) => Some(items@),
                _ => None,
            },
            _ => None,
        },
        _ => None,
    }
}

/// The identifier that one item of an id list gives: the number its text
/// reads as, 0 where it is not a string or not a number.
pub open spec fn item_id(item: JsonValue) -> u64 {
    match item {
        JsonValue::Text(s) => u64_or_zero(s@),
        _ => 0,
    }
}

/// The identifiers of `items`, in order, without the zeros.
pub open spec fn ids_of(items: Seq<JsonValue>) -> Seq<u64>
    decreases items.len(),
{
    if items.len() == 0 {
        Seq::empty()
    } else {
        let rest = ids_of(items.drop_last());
        let v = item_id(items.last());
        if v != 0 {
            rest.push(v)
        } else {
            rest
        }
    }
}

/// Reads the items of an id list as identifiers, dropping those that are
/// not numbers.
pub fn ids_from_items(items: &Vec<JsonValue>) -> (r: Vec<u64>)
    ensures
        r@ == ids_of(items@),
{
    let mut out: Vec<u64> = Vec::new();
    let mut k: usize = 0;
    while k < items.len()
        invariant
            k <= items@.len(),
            out@ == ids_of(items@.take(k as int)),
        decreases items@.len() - k,
    {
        assert(items@.take(k + 1).drop_last() =~= items@.take(k as int));
        let v = match &items[k] {
            JsonValue::Text(s) => read_u64(s.as_str()),
            _ => 0,
        };
        if v != 0 {
            out.push(v);
        }
        k = k + 1;
    }
    assert(items@.take(items@.len() as int) =~= items@);
    out
}

/// Why a search response gave no identifiers.
#[derive(Debug, Clone, Copy, PartialEq, Eq)]
pub enum SearchError {
    /// The response is not JSON.
    MalformedJson,
    /// The response holds no `esearchresult.idlist` array.
    NoIdList,
}

/// The identifiers in a search response: the items of its
/// `esearchresult.idlist` array, read as `ids_from_items` reads them.
pub fn ids_from_search_response(text: &str) -> (r: Result<Vec<u64>, SearchError>)
    ensures
        match json_of(text@) {
            None => r == Err::<Vec<u64>, SearchError>(SearchError::MalformedJson),
            Some(j) => match id_list(j) {
                None => r == Err::<Vec<u64>, SearchError>(SearchError::NoIdList),
                Some(items) => r is Ok && r->Ok_0@ == ids_of(items),
            },
        },
{
    let j = match parse_json(text) {
        Ok(j) => j,
        Err(_) => return Err(SearchError::MalformedJson),
    };
    let result = match &j {
        JsonValue::Object(fs) => find_member(fs, "esearchresult"),
        _ => None,
    };
    let list = match result {
        Some(JsonValue::Object(gs)) => find_member(gs, "idlist"),
        _ => None,
    };
    match list {
        Some(JsonValue::Array(items)) => Ok(ids_from_items(items)),
        _ => Err(SearchError::NoIdList),
    }
}

} // verus!
