use vstd::prelude::*;
use crate::parsers::{LogEntry, EntryView};
use crate::utils::time::{datetime_seconds, parse_timestamp, TIMESTAMP_FORMAT};

verus! {

/// serde_json's dynamically typed JSON value.
#[verifier::external_type_specification]
#[verifier::external_body]
pub struct ExValue(serde_json::Value);

/// The members of a JSON value that hold strings: for an object, each key whose value is a
/// JSON string, with that string; for any other value, nothing.
pub uninterp spec fn json_text_members(v: serde_json::Value) -> Map<Seq<char>, Seq<char>>;

/// What serde_json reads from `text` as a `Value`, seen through its string members; `None`
/// where the text is not one well-formed JSON value.
pub uninterp spec fn json_document(text: Seq<char>) -> Option<Map<Seq<char>, Seq<char>>>;

/// Relies on `serde_json::from_str::<Value>`: a value exactly when the text is JSON.
#[verifier::external_body]
fn parse_json_value(text: &str) -> (r: Option<serde_json::Value>)
    ensures
        match r {
            Some(v) => json_document(text@) == Some(json_text_members(v)),
            None => json_document(text@) is None,
        },
{
    serde_json::from_str::<serde_json::Value>(text).ok()
}

/// Relies on serde_json's `Value::get` with a string key and `Value::as_str`: the string stored
/// under `key` in an object, or none when there is no such string.
#[verifier::external_body]
fn json_text_member(v: &serde_json::Value, key: &str) -> (r: Option<String>)
    ensures
        match r {
            Some(t) => json_text_members(*v).contains_key(key@)
                && t@ == json_text_members(*v)[key@],
            None => !json_text_members(*v).contains_key(key@),
        },
{
    v.get(key).and_then(serde_json::Value::as_str).map(|s| s.to_string())
}

/// The text stored under `key`, if any.
pub open spec fn member(fields: Map<Seq<char>, Seq<char>>, key: Seq<char>) -> Option<Seq<char>> {
    if fields.contains_key(key) {
        Some(fields[key])
    } else {
        None
    }
}

/// The entry that a JSON record with these string members stands for: `timestamp` read as
/// `YYYY-MM-DD HH:MM:SS` in UTC, `level` (default `UNKNOWN`), `message` (default empty) and
/// `source`.
pub open spec fn json_entry(fields: Map<Seq<char>, Seq<char>>) -> EntryView {
    EntryView {
        timestamp: match member(fields, "timestamp"@) {
            Some(t) => datetime_seconds(t, TIMESTAMP_FORMAT@),
            None => None,
        },
        level: match member(fields, "level"@) {
            Some(l) => l,
            None => "UNKNOWN"@,
        },
        message: match member(fields, "message"@) {
            Some(m) => m,
            None => Seq::empty(),
        },
        source: member(fields, "source"@),
    }
}

/// Builds the entry that a parsed JSON value describes.
pub fn entry_from_json(v: &serde_json::Value) -> (e: LogEntry)
    ensures
        e@ == json_entry(json_text_members(*v)),
{
    let timestamp = match json_text_member(v, "timestamp") {
        Some(t) => parse_timestamp(t.as_str(), TIMESTAMP_FORMAT),
        None => None,
    };
    let level = match json_text_member(v, "level") {
        Some(l) => l,
        None => "UNKNOWN".to_owned(),
    };
    let message = match json_text_member(v, "message") {
        Some(m) => m,
        None => String::new(),
    };
    let source = json_text_member(v, "source");
    LogEntry { timestamp, level, message, source }
}

/// Parses a line holding one JSON record; a line that is not JSON yields none.
pub fn parse_json_line(line: &str) -> (r: Option<LogEntry>)
    ensures
        match json_document(line@) {
            Some(f) => r matches Some(e) && e@ == json_entry(f),
            None => r is None,
        },
{
    match parse_json_value(line) {
        Some(v) => Some(entry_from_json(&v)),
        None => None,
    }
}

} // verus!
