//! A JSON document as plain values, and the lookups that the document
//! conversion and the metadata handling perform on it.
use vstd::prelude::*;

use crate::text::{owned, str_equal};

verus! {

/// A JSON number: a non-negative integer, a negative integer, or a finite
/// float held by its IEEE-754 bit pattern.
#[derive(PartialEq, Eq, Structural, Clone, Copy, Debug)]
pub enum JsonNumber {
    PosInt(u64),
    NegInt(i64),
    FloatBits(u64),
}

/// A JSON value. Object entries keep their order; a lookup finds the first
/// entry with the key.
#[derive(Debug)]
pub enum Json {
    Null,
    Bool(bool),
    Number(JsonNumber),
    Text(String),
    Array(Vec<Json>),
    Object(Vec<(String, Json)>),
}

/// The index of the first entry whose key is `key`.
pub open spec fn first_key(entries: Seq<(String, Json)>, key: Seq<char>) -> Option<int>
    decreases entries.len(),
{
    if entries.len() == 0 {
        None
    } else if entries[0].0@ == key {
        Some(0)
    } else {
        match first_key(entries.drop_first(), key) {
            Some(i) => Some(i + 1),
            None => None,
        }
    }
}

/// The value of the first entry whose key is `key`.
pub open spec fn entry(entries: Seq<(String, Json)>, key: Seq<char>) -> Option<Json> {
    match first_key(entries, key) {
        Some(i) => Some(entries[i].1),
        None => None,
    }
}

/// `Value::get(key)`: the member `key` of an object; nothing for other values.
pub open spec fn json_get(j: Json, key: Seq<char>) -> Option<Json> {
    match j {
        Json::Object(entries) => entry(entries@, key),
        _ => None,
    }
}

/// `Value::as_str` lifted over an optional value.
pub open spec fn opt_str(j: Option<Json>) -> Option<Seq<char>> {
    match j {
        Some(Json::Text(s)) => Some(s@),
        _ => None,
    }
}

/// `Value::as_u64` lifted over an optional value.
pub open spec fn opt_u64(j: Option<Json>) -> Option<u64> {
    match j {
        Some(Json::Number(JsonNumber::PosInt(n))) => Some(n),
        _ => None,
    }
}

/// `Option<&str>::unwrap_or("")`.
pub open spec fn str_or_empty(s: Option<Seq<char>>) -> Seq<char> {
    match s {
        Some(t) => t,
        None => Seq::empty(),
    }
}

/// The nesting depth of arrays and objects.
pub open spec fn height(j: Json) -> nat
    decreases j,
{
    match j {
        Json::Array(items) => 1 + height_items(items@),
        Json::Object(entries) => 1 + height_entries(entries@),
        _ => 0,
    }
}

/// The largest height among the items.
pub open spec fn height_items(items: Seq<Json>) -> nat
    decreases items,
{
    if items.len() == 0 {
        0
    } else {
        let h = height(items[0]);
        let rest = height_items(items.drop_first());
        if h >= rest {
            h
        } else {
            rest
        }
    }
}

/// The largest height among the entry values.
pub open spec fn height_entries(entries: Seq<(String, Json)>) -> nat
    decreases entries,
{
    if entries.len() == 0 {
        0
    } else {
        let h = height(entries[0].1);
        let rest = height_entries(entries.drop_first());
        if h >= rest {
            h
        } else {
            rest
        }
    }
}

/// An item is no higher than the largest item height.
pub proof fn lemma_height_item(items: Seq<Json>, i: int)
    requires
        0 <= i < items.len(),
    ensures
        height(items[i]) <= height_items(items),
    decreases i,
{
    if i > 0 {
        lemma_height_item(items.drop_first(), i - 1);
    }
}

/// An entry value is no higher than the largest entry height.
pub proof fn lemma_height_entry(entries: Seq<(String, Json)>, i: int)
    requires
        0 <= i < entries.len(),
    ensures
        height(entries[i].1) <= height_entries(entries),
    decreases i,
{
    if i > 0 {
        lemma_height_entry(entries.drop_first(), i - 1);
    }
}

/// A found index lies inside the entries and names the key.
pub proof fn lemma_first_key_bounds(entries: Seq<(String, Json)>, key: Seq<char>)
    ensures
        first_key(entries, key) matches Some(i) ==> 0 <= i < entries.len() && entries[i].0@
            == key,
    decreases entries.len(),
{
    if entries.len() > 0 && entries[0].0@ != key {
        lemma_first_key_bounds(entries.drop_first(), key);
    }
}

proof fn lemma_first_key_at(entries: Seq<(String, Json)>, key: Seq<char>, i: int)
    requires
        0 <= i < entries.len(),
        entries[i].0@ == key,
        forall|k: int| 0 <= k < i ==> entries[k].0@ != key,
    ensures
        first_key(entries, key) == Some(i),
    decreases i,
{
    if i > 0 {
        lemma_first_key_at(entries.drop_first(), key, i - 1);
    }
}

proof fn lemma_first_key_none(entries: Seq<(String, Json)>, key: Seq<char>)
    requires
        forall|k: int| 0 <= k < entries.len() ==> entries[k].0@ != key,
    ensures
        first_key(entries, key) is None,
    decreases entries.len(),
{
    if entries.len() > 0 {
        lemma_first_key_none(entries.drop_first(), key);
    }
}

/// The index of the first entry whose key is `key`.
pub fn find_key(entries: &Vec<(String, Json)>, key: &str) -> (r: Option<usize>)
    ensures
        match r {
            Some(i) => first_key(entries@, key@) == Some(i as int) && i < entries.len(),
            None => first_key(entries@, key@) is None,
        },
{
    let mut i: usize = 0;
    while i < entries.len()
        invariant
            i <= entries.len(),
            forall|k: int| 0 <= k < i ==> entries@[k].0@ != key@,
        decreases entries.len() - i,
    {
        if str_equal(entries[i].0.as_str(), key) {
            proof {
                lemma_first_key_at(entries@, key@, i as int);
            }
            return Some(i);
        }
        i += 1;
    }
    proof {
        lemma_first_key_none(entries@, key@);
    }
    None
}

/// `Value::get(key)`.
pub fn get<'a>(j: &'a Json, key: &str) -> (r: Option<&'a Json>)
    ensures
        match r {
            Some(v) => json_get(*j, key@) == Some(*v),
            None => json_get(*j, key@) is None,
        },
{
    match j {
        Json::Object(entries) => get_entry(entries, key),
        _ => None,
    }
}

/// The value of the first entry whose key is `key`.
pub fn get_entry<'a>(entries: &'a Vec<(String, Json)>, key: &str) -> (r: Option<&'a Json>)
    ensures
        match r {
            Some(v) => entry(entries@, key@) == Some(*v),
            None => entry(entries@, key@) is None,
        },
{
    match find_key(entries, key) {
        Some(i) => Some(&entries[i].1),
        None => None,
    }
}

/// `Value::as_str` lifted over an optional value.
pub fn as_str<'a>(j: Option<&'a Json>) -> (r: Option<&'a str>)
    ensures
        match r {
            Some(s) => j matches Some(v) && opt_str(Some(*v)) == Some(s@),
            None => j matches Some(v) ==> opt_str(Some(*v)) is None,
        },
{
    match j {
        Some(Json::Text(s)) => Some(s.as_str()),
        _ => None,
    }
}

/// `Value::as_u64` lifted over an optional value.
pub fn as_u64(j: Option<&Json>) -> (r: Option<u64>)
    ensures
        match j {
            Some(v) => r == opt_u64(Some(*v)),
            None => r is None,
        },
{
    match j {
        Some(Json::Number(JsonNumber::PosInt(n))) => Some(*n),
        _ => None,
    }
}

/// A JSON string value.
pub fn text(s: &str) -> (r: Json)
    ensures
        r matches Json::Text(t) && t@ == s@,
{
    Json::Text(owned(s))
}

} // verus!
