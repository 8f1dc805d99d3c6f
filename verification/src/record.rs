//! The data that one log line is decoded into.

use vstd::prelude::*;
use crate::abbreviate::{LOGGER_NAME_BUDGET, THREAD_NAME_BUDGET};
use crate::utf16::encode;

verus! {

/// How severe a record is. The six levels are a closed set: a record whose
/// level is spelled in any other way is not a record.
#[derive(Clone, Copy, Debug, PartialEq, Eq, Structural)]
pub enum Level {
    TRACE,
    DEBUG,
    INFO,
    WARN,
    ERROR,
    FATAL,
}

/// The level that a text names. The spelling must be exact, capitals included.
pub open spec fn level_named(text: Seq<char>) -> Option<Level> {
    if text == "TRACE"@ {
        Some(Level::TRACE)
    } else if text == "DEBUG"@ {
        Some(Level::DEBUG)
    } else if text == "INFO"@ {
        Some(Level::INFO)
    } else if text == "WARN"@ {
        Some(Level::WARN)
    } else if text == "ERROR"@ {
        Some(Level::ERROR)
    } else if text == "FATAL"@ {
        Some(Level::FATAL)
    } else {
        None
    }
}

/// How a level is spelled.
pub open spec fn level_label(level: Level) -> Seq<char> {
    match level {
        Level::TRACE => "TRACE"@,
        Level::DEBUG => "DEBUG"@,
        Level::INFO => "INFO"@,
        Level::WARN => "WARN"@,
        Level::ERROR => "ERROR"@,
        Level::FATAL => "FATAL"@,
    }
}

/// Reveals what the six spellings hold.
pub proof fn lemma_level_labels()
    ensures
        "TRACE"@ == seq!['T', 'R', 'A', 'C', 'E'],
        "DEBUG"@ == seq!['D', 'E', 'B', 'U', 'G'],
        "INFO"@ == seq!['I', 'N', 'F', 'O'],
        "WARN"@ == seq!['W', 'A', 'R', 'N'],
        "ERROR"@ == seq!['E', 'R', 'R', 'O', 'R'],
        "FATAL"@ == seq!['F', 'A', 'T', 'A', 'L'],
{
    reveal_strlit("TRACE");
    reveal_strlit("DEBUG");
    reveal_strlit("INFO");
    reveal_strlit("WARN");
    reveal_strlit("ERROR");
    reveal_strlit("FATAL");
    assert("TRACE"@ =~= seq!['T', 'R', 'A', 'C', 'E']);
    assert("DEBUG"@ =~= seq!['D', 'E', 'B', 'U', 'G']);
    assert("INFO"@ =~= seq!['I', 'N', 'F', 'O']);
    assert("WARN"@ =~= seq!['W', 'A', 'R', 'N']);
    assert("ERROR"@ =~= seq!['E', 'R', 'R', 'O', 'R']);
    assert("FATAL"@ =~= seq!['F', 'A', 'T', 'A', 'L']);
}

/// A level is named by its own label, and by no other text.
pub proof fn lemma_level_round_trip(level: Level)
    ensures
        level_named(level_label(level)) == Some(level),
        1 <= level_label(level).len() <= 5,
{
    lemma_level_labels();
    let l = level_label(level);
    assert("TRACE"@[0] == 'T' && "DEBUG"@[0] == 'D' && "INFO"@[0] == 'I' && "WARN"@[0] == 'W'
        && "ERROR"@[0] == 'E' && "FATAL"@[0] == 'F');
}

impl Level {
    /// The level that `text` names, if it names one.
    pub fn from_label(text: &str) -> (level: Option<Level>)
        ensures
            level == level_named(text@),
    {
        let owned = text.to_owned();
        if owned == "TRACE".to_owned() {
            Some(Level::TRACE)
        } else if owned == "DEBUG".to_owned() {
            Some(Level::DEBUG)
        } else if owned == "INFO".to_owned() {
            Some(Level::INFO)
        } else if owned == "WARN".to_owned() {
            Some(Level::WARN)
        } else if owned == "ERROR".to_owned() {
            Some(Level::ERROR)
        } else if owned == "FATAL".to_owned() {
            Some(Level::FATAL)
        } else {
            None
        }
    }

    /// The spelling of this level.
    pub fn label(&self) -> (text: &'static str)
        ensures
            text@ == level_label(*self),
    {
        match self {
            Level::TRACE => "TRACE",
            Level::DEBUG => "DEBUG",
            Level::INFO => "INFO",
            Level::WARN => "WARN",
            Level::ERROR => "ERROR",
            Level::FATAL => "FATAL",
        }
    }
}

/// An instant in UTC, broken down into the fields of the calendar and the
/// clock. A leap second is the 59th second of its minute with a billion or
/// more nanoseconds.
#[derive(Clone, Copy, Debug, PartialEq, Eq, Structural)]
pub struct Timestamp {
    pub year: i32,
    pub month: u32,
    pub day: u32,
    pub hour: u32,
    pub minute: u32,
    pub second: u32,
    pub nanosecond: u32,
}

impl Timestamp {
    /// Every field is within the range that the calendar and the clock allow.
    pub open spec fn well_formed(&self) -> bool {
        &&& 1 <= self.month <= 12
        &&& 1 <= self.day <= 31
        &&& self.hour <= 23
        &&& self.minute <= 59
        &&& self.second <= 59
        &&& self.nanosecond <= 1_999_999_999
    }

    /// Tells whether every field is within its range.
    pub fn is_well_formed(&self) -> (ok: bool)
        ensures
            ok == self.well_formed(),
    {
        1 <= self.month && self.month <= 12 && 1 <= self.day && self.day <= 31 && self.hour <= 23
            && self.minute <= 59 && self.second <= 59 && self.nanosecond <= 1_999_999_999
    }
}

/// One decoded log record. The identifiers are already abbreviated.
pub struct Log {
    pub timestamp: Timestamp,
    pub logger_level: Level,
    pub logger_name: String,
    pub thread_name: String,
    pub message: String,
}

/// A record as contracts see it: its texts as sequences of characters.
pub struct LogView {
    pub timestamp: Timestamp,
    pub logger_level: Level,
    pub logger_name: Seq<char>,
    pub thread_name: Seq<char>,
    pub message: Seq<char>,
}

impl View for Log {
    type V = LogView;

    open spec fn view(&self) -> LogView {
        LogView {
            timestamp: self.timestamp,
            logger_level: self.logger_level,
            logger_name: self.logger_name@,
            thread_name: self.thread_name@,
            message: self.message@,
        }
    }
}

impl LogView {
    /// The timestamp is a valid one and both identifiers are within their
    /// budgets of UTF-16 code units.
    pub open spec fn well_formed(&self) -> bool {
        &&& self.timestamp.well_formed()
        &&& encode(self.logger_name).len() <= LOGGER_NAME_BUDGET
        &&& encode(self.thread_name).len() <= THREAD_NAME_BUDGET
    }
}

} // verus!
