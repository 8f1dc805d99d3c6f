//! From a line to a record: the payload is parsed as JSON, the members
//! that matter are read from it, and a record is built from them. It is all
//! or nothing: one missing or malformed field and there is no record.

use vstd::prelude::*;
use json::JsonValue;
use crate::abbreviate::{
    abbreviate_logger_name, abbreviate_thread_name, abbreviated, LOGGER_NAME_BUDGET,
    THREAD_NAME_BUDGET,
};
use crate::fields::{fields_of, Fields, FieldsView};
use crate::foreign::{
    json_document, member_text, parse_instant, parse_json, parsed_instant, text_members,
};
use crate::record::{level_named, Level, Log, LogView, Timestamp};
use crate::split::{chars_of, has_delimiter, split_once, split_spec};

verus! {

/// The most digits that a fraction in a payload may have and still be
/// handed to the JSON parser, which counts the digits of a fraction in
/// sixteen bits. Digits inside a string, or before the point, do not count.
pub const MAX_FRACTION_DIGITS: usize = 32768;

/// Where a scan of a payload stands with regard to string literals.
#[derive(Clone, Copy, Debug, PartialEq, Eq, Structural)]
pub enum Lexing {
    /// Not within a string literal.
    Outside,
    /// Within a string literal.
    Inside,
    /// Within a string literal, just after a backslash.
    Escaped,
}

/// Whether `c` is one of the ten decimal digits.
pub open spec fn is_digit(c: char) -> bool {
    '0' <= c <= '9'
}

/// Where the scan stands after one more character.
pub open spec fn lexing_step(before: Lexing, c: char) -> Lexing {
    match before {
        Lexing::Outside => if c == '"' {
            Lexing::Inside
        } else {
            Lexing::Outside
        },
        Lexing::Inside => if c == '"' {
            Lexing::Outside
        } else if c == '\\' {
            Lexing::Escaped
        } else {
            Lexing::Inside
        },
        Lexing::Escaped => Lexing::Inside,
    }
}

/// Where the scan stands just before position `at` of `text`: a double
/// quote opens a string literal and the next one closes it, but for one
/// that follows a backslash.
pub open spec fn lexing_at(text: Seq<char>, at: int) -> Lexing
    decreases at,
{
    if 0 < at <= text.len() {
        lexing_step(lexing_at(text, at - 1), text[at - 1])
    } else {
        Lexing::Outside
    }
}

/// Whether a point that starts a fraction stands at position `at` of
/// `text`: a `.` outside of any string literal.
pub open spec fn point_at(text: Seq<char>, at: int) -> bool {
    0 <= at < text.len() && text[at] == '.' && lexing_at(text, at) == Lexing::Outside
}

/// How many digits of a fraction stand in a row just before position
/// `end`: the digits that follow a point directly, outside of any string
/// literal. It is 0 where what stands before `end` is no such digit.
pub open spec fn fraction_run(text: Seq<char>, end: int) -> nat
    decreases end,
{
    if 0 < end <= text.len() && is_digit(text[end - 1]) && lexing_at(text, end - 1)
        == Lexing::Outside {
        if point_at(text, end - 2) {
            1
        } else if fraction_run(text, end - 1) > 0 {
            1 + fraction_run(text, end - 1)
        } else {
            0
        }
    } else {
        0
    }
}

/// Whether no fraction in `text` has more than `limit` digits.
pub open spec fn fraction_runs_within(text: Seq<char>, limit: nat) -> bool {
    forall|end: int| 0 <= end <= text.len() ==> #[trigger] fraction_run(text, end) <= limit
}

impl Lexing {
    /// Where the scan stands after one more character.
    pub fn step(self, c: char) -> (after: Lexing)
        ensures
            after == lexing_step(self, c),
    {
        match self {
            Lexing::Outside => if c == '"' {
                Lexing::Inside
            } else {
                Lexing::Outside
            },
            Lexing::Inside => if c == '"' {
                Lexing::Outside
            } else if c == '\\' {
                Lexing::Escaped
            } else {
                Lexing::Inside
            },
            Lexing::Escaped => Lexing::Inside,
        }
    }
}

/// Tells whether no fraction among `chars` has more than `limit` digits.
pub fn fraction_runs_bounded(chars: &[char], limit: usize) -> (bounded: bool)
    ensures
        bounded == fraction_runs_within(chars@, limit as nat),
{
    let mut state = Lexing::Outside;
    let mut after_point = false;
    let mut run: usize = 0;
    let mut i: usize = 0;
    while i < chars.len()
        invariant
            i <= chars.len(),
            state == lexing_at(chars@, i as int),
            after_point == point_at(chars@, i - 1),
            run == fraction_run(chars@, i as int),
            run <= limit,
            forall|end: int| 0 <= end <= i ==> #[trigger] fraction_run(chars@, end) <= limit,
        decreases chars.len() - i,
    {
        let c = chars[i];
        let outside = state == Lexing::Outside;
        if outside && '0' <= c && c <= '9' && (after_point || run > 0) {
            if run == limit {
                assert(fraction_run(chars@, i + 1) == run + 1);
                return false;
            }
            run = if after_point {
                1
            } else {
                run + 1
            };
        } else {
            run = 0;
        }
        after_point = outside && c == '.';
        state = state.step(c);
        i = i + 1;
    }
    true
}

/// The record that is built from the five logical fields once each has
/// been found: the level must be one of the six, and the two names are
/// abbreviated to their budgets.
pub open spec fn record_of(
    timestamp: Timestamp,
    message: Seq<char>,
    logger: Seq<char>,
    level: Seq<char>,
    thread: Seq<char>,
) -> Option<LogView> {
    match level_named(level) {
        Some(logger_level) => Some(
            LogView {
                timestamp,
                logger_level,
                logger_name: abbreviated(logger, LOGGER_NAME_BUDGET as nat),
                thread_name: abbreviated(thread, THREAD_NAME_BUDGET as nat),
                message,
            },
        ),
        None => None,
    }
}

/// The record that a set of members decodes to, if it decodes to one.
pub open spec fn decoded(fields: FieldsView) -> Option<LogView> {
    if fields.complete() {
        match parsed_instant(fields.timestamp_text()->0) {
            Some(timestamp) => record_of(
                timestamp,
                fields.message_text()->0,
                fields.logger_text()->0,
                fields.level->0,
                fields.thread_text()->0,
            ),
            None => None,
        }
    } else {
        None
    }
}

/// The tag and the record that a line decodes to, if it decodes to them:
/// the line is split, the payload parsed as JSON and the record decoded
/// from its members. A payload with a fraction too long for the parser
/// decodes to nothing.
pub open spec fn line_decoded(line: Seq<char>) -> Option<(Seq<char>, LogView)> {
    match split_spec(line) {
        Some((tag, payload)) => {
            if fraction_runs_within(payload, MAX_FRACTION_DIGITS as nat) {
                match json_document(payload) {
                    Some(members) => match decoded(fields_of(members)) {
                        Some(log) => Some((tag, log)),
                        None => None,
                    },
                    None => None,
                }
            } else {
                None
            }
        },
        None => None,
    }
}

/// A record decodes from its members exactly where each of the five
/// logical fields has a text, the timestamp parses and the level is one of
/// the six: there is no record with a field left out.
pub proof fn lemma_all_or_nothing(fields: FieldsView)
    ensures
        decoded(fields) is Some <==> fields.complete() && parsed_instant(
            fields.timestamp_text()->0,
        ) is Some && level_named(fields.level->0) is Some,
        !fields.complete() ==> decoded(fields) is None,
        decoded(fields) matches Some(log) ==> log.message == fields.message_text()->0
            && log.timestamp == parsed_instant(fields.timestamp_text()->0)->0
            && level_named(fields.level->0) == Some(log.logger_level) && log.logger_name
            == abbreviated(fields.logger_text()->0, LOGGER_NAME_BUDGET as nat) && log.thread_name
            == abbreviated(fields.thread_text()->0, THREAD_NAME_BUDGET as nat),
{
}

/// A line without the delimiter decodes to nothing.
pub proof fn lemma_no_delimiter_no_record(line: Seq<char>)
    requires
        !has_delimiter(line),
    ensures
        line_decoded(line) is None,
{
}

/// A line whose payload is JSON but lacks one of the five logical fields
/// decodes to nothing.
pub proof fn lemma_incomplete_line(line: Seq<char>)
    requires
        split_spec(line) matches Some((_, payload)) && json_document(payload) matches Some(
            members,
        ) && !fields_of(members).complete(),
    ensures
        line_decoded(line) is None,
{
}

/// The view of a record that may be absent.
pub open spec fn log_view(log: Option<Log>) -> Option<LogView> {
    match log {
        Some(l) => Some(l@),
        None => None,
    }
}

/// The view of a tag and a record that may be absent.
pub open spec fn line_view(parsed: Option<(String, Log)>) -> Option<(Seq<char>, LogView)> {
    match parsed {
        Some((tag, log)) => Some((tag@, log@)),
        None => None,
    }
}

/// Builds a record from the five logical fields: classifies the level and
/// abbreviates the two names. There is no record where the level is not one
/// of the six.
pub fn build_record(
    timestamp: Timestamp,
    message: &str,
    logger: &str,
    level: &str,
    thread: &str,
) -> (log: Option<Log>)
    ensures
        log_view(log) == record_of(timestamp, message@, logger@, level@, thread@),
        log is Some <==> level_named(level@) is Some,
        log matches Some(l) ==> timestamp.well_formed() ==> l@.well_formed(),
{
    let message = message.to_owned();
    let logger_name = abbreviate_logger_name(logger, LOGGER_NAME_BUDGET);
    let logger_level = match Level::from_label(level) {
        Some(logger_level) => logger_level,
        None => {
            return None;
        },
    };
    let thread_name = abbreviate_thread_name(thread, THREAD_NAME_BUDGET);
    Some(Log { timestamp, logger_level, logger_name, thread_name, message })
}

/// Decodes a record from the members of a payload. There is a record only
/// where each of the five logical fields has a text under one of its keys,
/// the timestamp parses and the level is one of the six.
pub fn decode(fields: &Fields) -> (log: Option<Log>)
    ensures
        log_view(log) == decoded(fields@),
        log is Some ==> fields@.complete(),
        log matches Some(l) ==> l@.well_formed(),
{
    let timestamp_text = fields.timestamp_text()?;
    let timestamp = parse_instant(timestamp_text)?;
    let message = fields.message_text()?;
    let logger = fields.logger_text()?;
    let level = match &fields.level {
        Some(level) => level.as_str(),
        None => {
            return None;
        },
    };
    let thread = fields.thread_text()?;
    build_record(timestamp, message, logger, level, thread)
}

/// A text that may be absent, copied.
fn owned(text: Option<&str>) -> (copy: Option<String>)
    ensures
        match copy {
            Some(c) => text matches Some(t) && c@ == t@,
            None => text.is_none(),
        },
{
    match text {
        Some(t) => Some(t.to_owned()),
        None => None,
    }
}

/// Reads from a JSON value the members that a record may be built from.
pub fn read_fields(value: &JsonValue) -> (fields: Fields)
    ensures
        fields@ == fields_of(text_members(*value)),
{
    Fields {
        at_timestamp: owned(member_text(value, "@timestamp")),
        timestamp: owned(member_text(value, "timestamp")),
        exception: owned(member_text(value, "exception")),
        message: owned(member_text(value, "message")),
        logger_name: owned(member_text(value, "logger_name")),
        class: owned(member_text(value, "class")),
        logger: owned(member_text(value, "logger")),
        level: owned(member_text(value, "level")),
        thread_name: owned(member_text(value, "thread_name")),
        thread: owned(member_text(value, "thread")),
    }
}

/// Decodes a record from a parsed JSON value.
pub fn parse(jserb: JsonValue) -> (log: Option<Log>)
    ensures
        log_view(log) == decoded(fields_of(text_members(jserb))),
        log matches Some(l) ==> l@.well_formed(),
{
    let fields = read_fields(&jserb);
    decode(&fields)
}

/// Decodes a line into its tag and its record. There is none where the
/// line has no delimiter, where the payload is not JSON, or where the
/// JSON does not hold a whole record. Nor is there one where a number in
/// the payload has a fraction of more than `MAX_FRACTION_DIGITS` digits:
/// the JSON parser cannot take it. Digits within strings are no number.
pub fn parse_line(line: &str) -> (parsed: Option<(String, Log)>)
    ensures
        line_view(parsed) == line_decoded(line@),
        parsed matches Some((_, l)) ==> l@.well_formed(),
{
    let (app, line2) = split_once(line)?;
    let payload = chars_of(line2);
    if !fraction_runs_bounded(payload.as_slice(), MAX_FRACTION_DIGITS) {
        return None;
    }
    let jserb = parse_json(line2)?;
    let log = parse(jserb)?;
    Some((app.to_owned(), log))
}

} // verus!
