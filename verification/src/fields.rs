//! The members of a JSON payload that a record is read from, held as plain
//! texts, and the order in which alternative keys are tried.

use vstd::prelude::*;

verus! {

/// The text members that a record may be read from, one for each key that
/// is looked at. A member is absent where the payload has no such key, or
/// has something other than a string under it.
pub struct Fields {
    /// Under the key `@timestamp`.
    pub at_timestamp: Option<String>,
    /// Under the key `timestamp`.
    pub timestamp: Option<String>,
    /// Under the key `exception`.
    pub exception: Option<String>,
    /// Under the key `message`.
    pub message: Option<String>,
    /// Under the key `logger_name`.
    pub logger_name: Option<String>,
    /// Under the key `class`.
    pub class: Option<String>,
    /// Under the key `logger`.
    pub logger: Option<String>,
    /// Under the key `level`.
    pub level: Option<String>,
    /// Under the key `thread_name`.
    pub thread_name: Option<String>,
    /// Under the key `thread`.
    pub thread: Option<String>,
}

/// The members as contracts see them.
pub struct FieldsView {
    pub at_timestamp: Option<Seq<char>>,
    pub timestamp: Option<Seq<char>>,
    pub exception: Option<Seq<char>>,
    pub message: Option<Seq<char>>,
    pub logger_name: Option<Seq<char>>,
    pub class: Option<Seq<char>>,
    pub logger: Option<Seq<char>>,
    pub level: Option<Seq<char>>,
    pub thread_name: Option<Seq<char>>,
    pub thread: Option<Seq<char>>,
}

/// The characters of a text that may be absent.
pub open spec fn text_of(member: Option<String>) -> Option<Seq<char>> {
    match member {
        Some(text) => Some(text@),
        None => None,
    }
}

/// The first of two alternatives that is present.
pub open spec fn first_present(first: Option<Seq<char>>, second: Option<Seq<char>>) -> Option<
    Seq<char>,
> {
    if first is Some {
        first
    } else {
        second
    }
}

/// The text under `key` among `members`, if there is one.
pub open spec fn member(members: Map<Seq<char>, Seq<char>>, key: Seq<char>) -> Option<Seq<char>> {
    if members.contains_key(key) {
        Some(members[key])
    } else {
        None
    }
}

/// The members that a record is read from, picked out of all the text
/// members of a payload.
pub open spec fn fields_of(members: Map<Seq<char>, Seq<char>>) -> FieldsView {
    FieldsView {
        at_timestamp: member(members, "@timestamp"@),
        timestamp: member(members, "timestamp"@),
        exception: member(members, "exception"@),
        message: member(members, "message"@),
        logger_name: member(members, "logger_name"@),
        class: member(members, "class"@),
        logger: member(members, "logger"@),
        level: member(members, "level"@),
        thread_name: member(members, "thread_name"@),
        thread: member(members, "thread"@),
    }
}

impl View for Fields {
    type V = FieldsView;

    open spec fn view(&self) -> FieldsView {
        FieldsView {
            at_timestamp: text_of(self.at_timestamp),
            timestamp: text_of(self.timestamp),
            exception: text_of(self.exception),
            message: text_of(self.message),
            logger_name: text_of(self.logger_name),
            class: text_of(self.class),
            logger: text_of(self.logger),
            level: text_of(self.level),
            thread_name: text_of(self.thread_name),
            thread: text_of(self.thread),
        }
    }
}

impl FieldsView {
    /// The text of the timestamp: `@timestamp` before `timestamp`.
    pub open spec fn timestamp_text(&self) -> Option<Seq<char>> {
        first_present(self.at_timestamp, self.timestamp)
    }

    /// The text of the message: `exception` before `message`.
    pub open spec fn message_text(&self) -> Option<Seq<char>> {
        first_present(self.exception, self.message)
    }

    /// The logger's name: `logger_name` before `class` before `logger`.
    pub open spec fn logger_text(&self) -> Option<Seq<char>> {
        first_present(self.logger_name, first_present(self.class, self.logger))
    }

    /// The thread's name: `thread_name` before `thread`.
    pub open spec fn thread_text(&self) -> Option<Seq<char>> {
        first_present(self.thread_name, self.thread)
    }

    /// Every logical field has a text under at least one of its keys.
    pub open spec fn complete(&self) -> bool {
        &&& self.timestamp_text() is Some
        &&& self.message_text() is Some
        &&& self.logger_text() is Some
        &&& self.level is Some
        &&& self.thread_text() is Some
    }
}

/// The first of two alternatives that is present.
pub fn pick<'a>(first: &'a Option<String>, second: &'a Option<String>) -> (picked: Option<&'a str>)
    ensures
        match picked {
            Some(text) => first_present(text_of(*first), text_of(*second)) == Some(text@),
            None => first_present(text_of(*first), text_of(*second)).is_none(),
        },
{
    match first {
        Some(text) => Some(text.as_str()),
        None => match second {
            Some(text) => Some(text.as_str()),
            None => None,
        },
    }
}

impl Fields {
    /// The text of the timestamp, under the first of its keys that is present.
    pub fn timestamp_text(&self) -> (text: Option<&str>)
        ensures
            match text {
                Some(t) => self@.timestamp_text() == Some(t@),
                None => self@.timestamp_text().is_none(),
            },
    {
        pick(&self.at_timestamp, &self.timestamp)
    }

    /// The text of the message, under the first of its keys that is present.
    pub fn message_text(&self) -> (text: Option<&str>)
        ensures
            match text {
                Some(t) => self@.message_text() == Some(t@),
                None => self@.message_text().is_none(),
            },
    {
        pick(&self.exception, &self.message)
    }

    /// The logger's name, under the first of its keys that is present.
    pub fn logger_text(&self) -> (text: Option<&str>)
        ensures
            match text {
                Some(t) => self@.logger_text() == Some(t@),
                None => self@.logger_text().is_none(),
            },
    {
        match &self.logger_name {
            Some(text) => Some(text.as_str()),
            None => pick(&self.class, &self.logger),
        }
    }

    /// The thread's name, under the first of its keys that is present.
    pub fn thread_text(&self) -> (text: Option<&str>)
        ensures
            match text {
                Some(t) => self@.thread_text() == Some(t@),
                None => self@.thread_text().is_none(),
            },
    {
        pick(&self.thread_name, &self.thread)
    }
}

/// Where a payload has a text under the preferred key of a field, that text
/// is the field's, whatever stands under the keys that come after it; where
/// it has none, the next key decides.
pub proof fn lemma_fallback_order(members: Map<Seq<char>, Seq<char>>)
    ensures
        ({
            let f = fields_of(members);
            &&& members.contains_key("@timestamp"@) ==> f.timestamp_text() == Some(
                members["@timestamp"@],
            )
            &&& !members.contains_key("@timestamp"@) ==> f.timestamp_text() == member(
                members,
                "timestamp"@,
            )
            &&& members.contains_key("exception"@) ==> f.message_text() == Some(
                members["exception"@],
            )
            &&& !members.contains_key("exception"@) ==> f.message_text() == member(
                members,
                "message"@,
            )
            &&& members.contains_key("logger_name"@) ==> f.logger_text() == Some(
                members["logger_name"@],
            )
            &&& !members.contains_key("logger_name"@) && members.contains_key("class"@)
                ==> f.logger_text() == Some(members["class"@])
            &&& !members.contains_key("logger_name"@) && !members.contains_key("class"@)
                ==> f.logger_text() == member(members, "logger"@)
            &&& members.contains_key("thread_name"@) ==> f.thread_text() == Some(
                members["thread_name"@],
            )
            &&& !members.contains_key("thread_name"@) ==> f.thread_text() == member(
                members,
                "thread"@,
            )
        }),
{
}

} // verus!
