//! Everything this library takes on trust: the contracts below are believed,
//! not proved. Each one says what it claims of the function it stands for.

use vstd::prelude::*;
use vstd::utf8::is_scalar;
use chrono::{DateTime, Datelike, Timelike, Utc};
use colored::Colorize;
use json::JsonValue;
use crate::decode::{fraction_runs_within, MAX_FRACTION_DIGITS};
use crate::record::Timestamp;
use crate::render::{carries, free_of_escape};

verus! {

/// `char::from_u32` gives the character with the number `i` when `i` is a
/// Unicode scalar value, and nothing for a surrogate or a number past
/// `0x10FFFF`.
pub assume_specification[ char::from_u32 ](i: u32) -> (r: Option<char>)
    ensures
        is_scalar(i) ==> r == Some(i as char),
        !is_scalar(i) ==> r is None,
;

/// `String::push` appends one character to the end of the string.
pub assume_specification[ String::push ](s: &mut String, c: char)
    ensures
        final(s)@ == old(s)@.push(c),
;

/// A parsed JSON value of the `json` crate. Nothing of its inside is
/// known here: what is read from it is read through `member_text`.
#[verifier::external_type_specification]
#[verifier::external_body]
pub struct ExJsonValue(JsonValue);

/// The text members of a JSON value: for an object, its keys that have a
/// string under them, each with that string; for any other value, none.
pub uninterp spec fn text_members(value: JsonValue) -> Map<Seq<char>, Seq<char>>;

/// What `json::parse` makes of a text, as far as a record is read from it:
/// the text members of the value it parses to, or nothing where it
/// rejects the text.
pub uninterp spec fn json_document(text: Seq<char>) -> Option<Map<Seq<char>, Seq<char>>>;

/// The instant that chrono reads from a text in its relaxed form of RFC
/// 3339, moved to UTC, or nothing where chrono rejects the text.
pub uninterp spec fn parsed_instant(text: Seq<char>) -> Option<Timestamp>;

/// Calls `json::parse`. The claim is only that the outcome is a function
/// of the text: the same text parses to the same members, or fails, every
/// time. The parser counts the digits of a fraction in sixteen bits, so a
/// text with a fraction of more digits than that is kept from it.
#[verifier::external_body]
pub(crate) fn parse_json(text: &str) -> (value: Option<JsonValue>)
    requires
        fraction_runs_within(text@, MAX_FRACTION_DIGITS as nat),
    ensures
        match value {
            Some(v) => json_document(text@) == Some(text_members(v)),
            None => json_document(text@).is_none(),
        },
{
    match json::parse(text) {
        Ok(value) => Some(value),
        Err(_) => None,
    }
}

/// Indexes a `JsonValue` by a key and calls `as_str` on what is found. The
/// index gives the member under that key for an object that has it and
/// null otherwise, and `as_str` gives the text of a string and nothing for
/// any other kind of value.
#[verifier::external_body]
pub(crate) fn member_text<'a>(value: &'a JsonValue, key: &str) -> (text: Option<&'a str>)
    ensures
        match text {
            Some(t) => text_members(*value).contains_key(key@) && text_members(*value)[key@]
                == t@,
            None => !text_members(*value).contains_key(key@),
        },
{
    value[key].as_str()
}

/// Parses a text as `DateTime<Utc>` with chrono and reads the calendar and
/// clock fields of the result. The fields are within the ranges that
/// chrono documents for them; a leap second shows as a nanosecond count of
/// a billion or more.
#[verifier::external_body]
pub(crate) fn parse_instant(text: &str) -> (instant: Option<Timestamp>)
    ensures
        instant == parsed_instant(text@),
        instant matches Some(t) ==> t.well_formed(),
{
    match text.parse::<DateTime<Utc>>() {
        Ok(t) => Some(
            Timestamp {
                year: t.year(),
                month: t.month(),
                day: t.day(),
                hour: t.hour(),
                minute: t.minute(),
                second: t.second(),
                nanosecond: t.nanosecond(),
            },
        ),
        Err(_) => None,
    }
}

/// Styles a text with `Colorize::dimmed` and writes it out. Whether the
/// result carries styling sequences depends on whether the output is a
/// terminal and on what the process was started with. Either way the
/// text stands whole in the result, between whatever was put before and
/// after it, unless it holds an escape character: colored rewrites a text
/// only where it holds a reset sequence of its own.
#[verifier::external_body]
pub(crate) fn paint_dimmed(text: &str) -> (painted: String)
    ensures
        free_of_escape(text@) ==> carries(painted@, text@),
{
    text.dimmed().to_string()
}

/// Styles a text with `Colorize::green` and writes it out. The claim is
/// that of `paint_dimmed`.
#[verifier::external_body]
pub(crate) fn paint_green(text: &str) -> (painted: String)
    ensures
        free_of_escape(text@) ==> carries(painted@, text@),
{
    text.green().to_string()
}

/// Styles a text with `Colorize::yellow` and writes it out. The claim is
/// that of `paint_dimmed`.
#[verifier::external_body]
pub(crate) fn paint_yellow(text: &str) -> (painted: String)
    ensures
        free_of_escape(text@) ==> carries(painted@, text@),
{
    text.yellow().to_string()
}

/// Styles a text with `Colorize::red` and writes it out. The claim is
/// that of `paint_dimmed`.
#[verifier::external_body]
pub(crate) fn paint_red(text: &str) -> (painted: String)
    ensures
        free_of_escape(text@) ==> carries(painted@, text@),
{
    text.red().to_string()
}

/// Styles a text with `Colorize::cyan` and writes it out. The claim is
/// that of `paint_dimmed`.
#[verifier::external_body]
pub(crate) fn paint_cyan(text: &str) -> (painted: String)
    ensures
        free_of_escape(text@) ==> carries(painted@, text@),
{
    text.cyan().to_string()
}

} // verus!
