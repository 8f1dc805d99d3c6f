//! Laying a record out as one line: eight segments in a fixed order, each
//! with its text and its style, joined by single spaces. A line that did
//! not decode is written as it came.

use vstd::prelude::*;
use vstd::string::{StrSliceExecFns, StringExecFns};
use crate::decode::{line_decoded, parse_line};
use crate::foreign::{paint_cyan, paint_dimmed, paint_green, paint_red, paint_yellow};
use crate::numerals::{
    decimal, digit, render_timestamp, shown_millis, shown_second, timestamp_text, year_text,
    zero_padded, zeros,
};
use crate::record::{lemma_level_labels, level_label, Level, Log, LogView, Timestamp};
use crate::split::has_delimiter;

verus! {

/// The width that the level's label is right-aligned to.
pub const LEVEL_WIDTH: usize = 5;

/// The width that the thread's name is right-aligned to, inside its brackets.
pub const THREAD_WIDTH: usize = 15;

/// The width that the logger's name is left-aligned to.
pub const LOGGER_WIDTH: usize = 40;

/// How a segment of a line is to be shown.
#[derive(Clone, Copy, Debug, PartialEq, Eq, Structural)]
pub enum Style {
    /// As it is.
    Plain,
    /// Muted: the timestamp and the punctuation.
    Dimmed,
    /// The levels below a warning.
    Green,
    /// A warning.
    Yellow,
    /// An error or worse.
    Red,
    /// The logger's name.
    Cyan,
}

/// One segment of a line: its text, padded where it is padded, and its style.
pub struct Segment {
    pub text: String,
    pub style: Style,
}

/// A segment as contracts see it.
pub struct SegmentView {
    pub text: Seq<char>,
    pub style: Style,
}

impl View for Segment {
    type V = SegmentView;

    open spec fn view(&self) -> SegmentView {
        SegmentView { text: self.text@, style: self.style }
    }
}

/// `count` spaces in a row.
pub open spec fn spaces(count: nat) -> Seq<char> {
    Seq::new(count, |i: int| ' ')
}

/// A text with spaces before it where it has fewer characters than `width`.
pub open spec fn right_aligned(text: Seq<char>, width: nat) -> Seq<char> {
    if text.len() >= width {
        text
    } else {
        spaces((width - text.len()) as nat) + text
    }
}

/// A text with spaces after it where it has fewer characters than `width`.
pub open spec fn left_aligned(text: Seq<char>, width: nat) -> Seq<char> {
    if text.len() >= width {
        text
    } else {
        text + spaces((width - text.len()) as nat)
    }
}

/// The style of a level: one for the three levels below a warning, one for
/// a warning, one for an error and worse.
pub open spec fn level_style(level: Level) -> Style {
    match level {
        Level::TRACE | Level::DEBUG | Level::INFO => Style::Green,
        Level::WARN => Style::Yellow,
        Level::ERROR | Level::FATAL => Style::Red,
    }
}

/// The eight segments of a record's line, in their order.
pub open spec fn layout_of(tag: Seq<char>, log: LogView) -> Seq<SegmentView> {
    seq![
        SegmentView { text: tag + seq!['|'], style: Style::Plain },
        SegmentView { text: timestamp_text(log.timestamp), style: Style::Dimmed },
        SegmentView {
            text: right_aligned(level_label(log.logger_level), LEVEL_WIDTH as nat),
            style: level_style(log.logger_level),
        },
        SegmentView { text: seq!['-', '-', '-'], style: Style::Dimmed },
        SegmentView {
            text: seq!['['] + right_aligned(log.thread_name, THREAD_WIDTH as nat) + seq![']'],
            style: Style::Dimmed,
        },
        SegmentView {
            text: left_aligned(log.logger_name, LOGGER_WIDTH as nat),
            style: Style::Cyan,
        },
        SegmentView { text: seq![':'], style: Style::Dimmed },
        SegmentView { text: log.message, style: Style::Plain },
    ]
}

/// Texts in a row with one space between each two of them.
pub open spec fn joined(parts: Seq<Seq<char>>) -> Seq<char>
    decreases parts.len(),
{
    if parts.len() == 0 {
        Seq::empty()
    } else if parts.len() == 1 {
        parts[0]
    } else {
        joined(parts.drop_last()) + seq![' '] + parts.last()
    }
}

/// The texts of a row of segments.
pub open spec fn texts_of(segments: Seq<SegmentView>) -> Seq<Seq<char>> {
    Seq::new(segments.len(), |i: int| segments[i].text)
}

/// The line of a record without any styling.
pub open spec fn plain_line(tag: Seq<char>, log: LogView) -> Seq<char> {
    joined(texts_of(layout_of(tag, log)))
}

/// Whether a text holds no escape character, the one that starts every
/// styling sequence.
pub open spec fn free_of_escape(text: Seq<char>) -> bool {
    forall|i: int| 0 <= i < text.len() ==> text[i] != '\u{1b}'
}

/// A text with something before it and something after it.
pub open spec fn framed(before: Seq<char>, text: Seq<char>, after: Seq<char>) -> Seq<char> {
    before + text + after
}

/// Whether `text` stands whole within `painted`.
pub open spec fn carries(painted: Seq<char>, text: Seq<char>) -> bool {
    exists|before: Seq<char>, after: Seq<char>| painted == #[trigger] framed(before, text, after)
}

/// Whether `painted` is what styling may make of a segment: a plain
/// segment is left as it is, and the text of any other stands whole
/// within what is shown, unless it holds an escape character itself.
pub open spec fn painted_as(painted: Seq<char>, segment: SegmentView) -> bool {
    &&& segment.style == Style::Plain ==> painted == segment.text
    &&& free_of_escape(segment.text) ==> carries(painted, segment.text)
}

/// Whether `line` is a record's line after styling: its eight segments in
/// their order, each as styling may leave it, joined by single spaces.
pub open spec fn styled_line(tag: Seq<char>, log: LogView, line: Seq<char>) -> bool {
    exists|painted: Seq<Seq<char>>|
        {
            &&& painted.len() == 8
            &&& forall|i: int|
                0 <= i < 8 ==> painted_as(#[trigger] painted[i], layout_of(tag, log)[i])
            &&& line == #[trigger] joined(painted)
        }
}

/// Two texts free of the escape character are free of it in a row.
pub proof fn lemma_free_concat(a: Seq<char>, b: Seq<char>)
    requires
        free_of_escape(a),
        free_of_escape(b),
    ensures
        free_of_escape(a + b),
{
    assert forall|i: int| 0 <= i < (a + b).len() implies (a + b)[i] != '\u{1b}' by {
        if i < a.len() {
            assert((a + b)[i] == a[i]);
        } else {
            assert((a + b)[i] == b[i - a.len()]);
        }
    }
}

/// A number written in decimal, padded or not, holds no escape character.
pub proof fn lemma_decimal_free(n: nat, width: nat)
    ensures
        free_of_escape(decimal(n)),
        free_of_escape(zero_padded(n, width)),
    decreases n,
{
    if n >= 10 {
        lemma_decimal_free(n / 10, 0);
        lemma_free_concat(decimal(n / 10), seq![digit(n % 10)]);
        assert(decimal(n) =~= decimal(n / 10) + seq![digit(n % 10)]);
    }
    if decimal(n).len() < width {
        lemma_free_concat(zeros((width - decimal(n).len()) as nat), decimal(n));
    }
}

/// The text of a timestamp holds no escape character.
pub proof fn lemma_timestamp_free(t: Timestamp)
    ensures
        free_of_escape(timestamp_text(t)),
{
    let year = year_text(t.year as int);
    assert(free_of_escape(year)) by {
        if 0 <= t.year <= 9999 {
            lemma_decimal_free(t.year as nat, 4);
        } else if t.year < 0 {
            lemma_decimal_free((-t.year) as nat, 4);
            lemma_free_concat(seq!['-'], zero_padded((-t.year) as nat, 4));
        } else {
            lemma_decimal_free(t.year as nat, 4);
            lemma_free_concat(seq!['+'], zero_padded(t.year as nat, 4));
        }
    }
    lemma_decimal_free(t.month as nat, 2);
    lemma_decimal_free(t.day as nat, 2);
    lemma_decimal_free(t.hour as nat, 2);
    lemma_decimal_free(t.minute as nat, 2);
    lemma_decimal_free(shown_second(t), 2);
    lemma_decimal_free(shown_millis(t), 3);
    let a1 = year + seq!['-'];
    lemma_free_concat(year, seq!['-']);
    let a2 = a1 + zero_padded(t.month as nat, 2);
    lemma_free_concat(a1, zero_padded(t.month as nat, 2));
    let a3 = a2 + seq!['-'];
    lemma_free_concat(a2, seq!['-']);
    let a4 = a3 + zero_padded(t.day as nat, 2);
    lemma_free_concat(a3, zero_padded(t.day as nat, 2));
    let a5 = a4 + seq![' '];
    lemma_free_concat(a4, seq![' ']);
    let a6 = a5 + zero_padded(t.hour as nat, 2);
    lemma_free_concat(a5, zero_padded(t.hour as nat, 2));
    let a7 = a6 + seq![':'];
    lemma_free_concat(a6, seq![':']);
    let a8 = a7 + zero_padded(t.minute as nat, 2);
    lemma_free_concat(a7, zero_padded(t.minute as nat, 2));
    let a9 = a8 + seq![':'];
    lemma_free_concat(a8, seq![':']);
    let a10 = a9 + zero_padded(shown_second(t), 2);
    lemma_free_concat(a9, zero_padded(shown_second(t), 2));
    let a11 = a10 + seq!['.'];
    lemma_free_concat(a10, seq!['.']);
    lemma_free_concat(a11, zero_padded(shown_millis(t), 3));
}

/// Which segments of a record's line are sure to be shown whole: the
/// timestamp, the level, the dashes and the colon hold no escape character
/// whatever the record, the tag and the message are plain, and the two
/// names hold none unless the record's own names do.
pub proof fn lemma_segments_shown(tag: Seq<char>, log: LogView)
    ensures
        ({
            let segments = layout_of(tag, log);
            &&& segments[0].style == Style::Plain
            &&& free_of_escape(segments[1].text)
            &&& free_of_escape(segments[2].text)
            &&& free_of_escape(segments[3].text)
            &&& free_of_escape(log.thread_name) ==> free_of_escape(segments[4].text)
            &&& free_of_escape(log.logger_name) ==> free_of_escape(segments[5].text)
            &&& free_of_escape(segments[6].text)
            &&& segments[7].style == Style::Plain
        }),
{
    lemma_timestamp_free(log.timestamp);
    lemma_level_labels();
    let label = level_label(log.logger_level);
    assert(free_of_escape(label));
    if label.len() < LEVEL_WIDTH {
        lemma_free_concat(spaces((LEVEL_WIDTH - label.len()) as nat), label);
    }
    if free_of_escape(log.thread_name) {
        let thread = right_aligned(log.thread_name, THREAD_WIDTH as nat);
        if log.thread_name.len() < THREAD_WIDTH {
            lemma_free_concat(
                spaces((THREAD_WIDTH - log.thread_name.len()) as nat),
                log.thread_name,
            );
        }
        lemma_free_concat(seq!['['], thread);
        lemma_free_concat(seq!['['] + thread, seq![']']);
    }
    if free_of_escape(log.logger_name) {
        if log.logger_name.len() < LOGGER_WIDTH {
            lemma_free_concat(
                log.logger_name,
                spaces((LOGGER_WIDTH - log.logger_name.len()) as nat),
            );
        }
    }
}

/// In a styled line the timestamp, the level, the dashes and the colon of
/// the record stand whole, each in its place among the eight segments.
pub proof fn lemma_styled_line_shows(tag: Seq<char>, log: LogView, line: Seq<char>)
    requires
        styled_line(tag, log, line),
    ensures
        exists|painted: Seq<Seq<char>>|
            {
                &&& painted.len() == 8
                &&& line == #[trigger] joined(painted)
                &&& painted[0] == tag + seq!['|']
                &&& carries(painted[1], timestamp_text(log.timestamp))
                &&& carries(
                    painted[2],
                    right_aligned(level_label(log.logger_level), LEVEL_WIDTH as nat),
                )
                &&& carries(painted[3], seq!['-', '-', '-'])
                &&& free_of_escape(log.thread_name) ==> carries(
                    painted[4],
                    seq!['['] + right_aligned(log.thread_name, THREAD_WIDTH as nat) + seq![']'],
                )
                &&& free_of_escape(log.logger_name) ==> carries(
                    painted[5],
                    left_aligned(log.logger_name, LOGGER_WIDTH as nat),
                )
                &&& carries(painted[6], seq![':'])
                &&& painted[7] == log.message
            },
{
    lemma_segments_shown(tag, log);
    let painted = choose|painted: Seq<Seq<char>>|
        {
            &&& painted.len() == 8
            &&& forall|i: int|
                0 <= i < 8 ==> painted_as(#[trigger] painted[i], layout_of(tag, log)[i])
            &&& line == #[trigger] joined(painted)
        };
    let segments = layout_of(tag, log);
    assert(painted_as(painted[0], segments[0]));
    assert(painted_as(painted[1], segments[1]));
    assert(painted_as(painted[2], segments[2]));
    assert(painted_as(painted[3], segments[3]));
    assert(painted_as(painted[4], segments[4]));
    assert(painted_as(painted[5], segments[5]));
    assert(painted_as(painted[6], segments[6]));
    assert(painted_as(painted[7], segments[7]));
}

/// A text stands whole within itself.
pub proof fn lemma_carries_itself(text: Seq<char>)
    ensures
        carries(text, text),
{
    let nothing = Seq::<char>::empty();
    assert(text =~= framed(nothing, text, nothing));
}

/// The views of a row of segments.
pub open spec fn segment_views(segments: Seq<Segment>) -> Seq<SegmentView> {
    Seq::new(segments.len(), |i: int| segments[i]@)
}

/// The views of a row of texts.
pub open spec fn text_views(texts: Seq<String>) -> Seq<Seq<char>> {
    Seq::new(texts.len(), |i: int| texts[i]@)
}

/// Appends `count` spaces to `out`.
pub fn push_spaces(out: &mut String, count: usize)
    ensures
        final(out)@ == old(out)@ + spaces(count as nat),
{
    let mut written: usize = 0;
    while written < count
        invariant
            written <= count,
            out@ == old(out)@ + spaces(written as nat),
        decreases count - written,
    {
        out.push(' ');
        written = written + 1;
        assert(out@ =~= old(out)@ + spaces(written as nat));
    }
    assert(old(out)@ + spaces(0) =~= old(out)@);
}

/// Right-aligns a text to `width` characters: spaces go before it.
pub fn pad_left(text: &str, width: usize) -> (padded: String)
    ensures
        padded@ == right_aligned(text@, width as nat),
{
    let len = text.unicode_len();
    let mut padded = String::new();
    if len < width {
        push_spaces(&mut padded, width - len);
    }
    padded.append(text);
    assert(padded@ =~= right_aligned(text@, width as nat));
    padded
}

/// Left-aligns a text to `width` characters: spaces go after it.
pub fn pad_right(text: &str, width: usize) -> (padded: String)
    ensures
        padded@ == left_aligned(text@, width as nat),
{
    let len = text.unicode_len();
    let mut padded = text.to_owned();
    if len < width {
        push_spaces(&mut padded, width - len);
    }
    padded
}

impl Level {
    /// The style that this level is shown in.
    pub fn style(&self) -> (style: Style)
        ensures
            style == level_style(*self),
    {
        match self {
            Level::TRACE => Style::Green,
            Level::DEBUG => Style::Green,
            Level::INFO => Style::Green,
            Level::WARN => Style::Yellow,
            Level::ERROR => Style::Red,
            Level::FATAL => Style::Red,
        }
    }
}

/// Lays a record out as its eight segments.
pub fn layout(app: &str, log: &Log) -> (segments: Vec<Segment>)
    ensures
        segment_views(segments@) == layout_of(app@, log@),
{
    let mut tag = app.to_owned();
    tag.push('|');
    let mut thread = String::new();
    thread.push('[');
    thread.append(pad_left(log.thread_name.as_str(), THREAD_WIDTH).as_str());
    thread.push(']');
    let mut dashes = String::new();
    dashes.push('-');
    dashes.push('-');
    dashes.push('-');
    let mut colon = String::new();
    colon.push(':');
    let mut segments: Vec<Segment> = Vec::new();
    segments.push(Segment { text: tag, style: Style::Plain });
    segments.push(Segment { text: render_timestamp(&log.timestamp), style: Style::Dimmed });
    segments.push(
        Segment {
            text: pad_left(log.logger_level.label(), LEVEL_WIDTH),
            style: log.logger_level.style(),
        },
    );
    segments.push(Segment { text: dashes, style: Style::Dimmed });
    segments.push(Segment { text: thread, style: Style::Dimmed });
    segments.push(
        Segment { text: pad_right(log.logger_name.as_str(), LOGGER_WIDTH), style: Style::Cyan },
    );
    segments.push(Segment { text: colon, style: Style::Dimmed });
    segments.push(Segment { text: log.message.clone(), style: Style::Plain });
    proof {
        let views = segment_views(segments@);
        let wanted = layout_of(app@, log@);
        assert(views.len() == 8);
        assert(views[0].text =~= wanted[0].text);
        assert(views[3].text =~= wanted[3].text);
        assert(views[4].text =~= wanted[4].text);
        assert(views[6].text =~= wanted[6].text);
        assert(views =~= wanted);
    }
    segments
}

/// Joins texts into one line with a single space between each two.
pub fn join(parts: &Vec<String>) -> (line: String)
    ensures
        line@ == joined(text_views(parts@)),
{
    let mut line = String::new();
    let mut i: usize = 0;
    while i < parts.len()
        invariant
            i <= parts.len(),
            line@ == joined(text_views(parts@).take(i as int)),
        decreases parts.len() - i,
    {
        let ghost before = text_views(parts@).take(i as int);
        let ghost after = text_views(parts@).take(i + 1);
        if i > 0 {
            line.push(' ');
        }
        line.append(parts[i].as_str());
        proof {
            assert(after.drop_last() =~= before);
            assert(after.last() == parts@[i as int]@);
            if i == 0 {
                assert(line@ =~= after[0]);
            }
        }
        i = i + 1;
    }
    assert(text_views(parts@).take(i as int) =~= text_views(parts@));
    line
}

/// Styles one text. A plain text comes back as it is. Of any other, what
/// stands around it is up to the terminal, but the text itself stands
/// whole in what comes back, unless it holds an escape character.
pub fn paint(text: &str, style: Style) -> (painted: String)
    ensures
        painted_as(painted@, (SegmentView { text: text@, style })),
{
    proof {
        lemma_carries_itself(text@);
    }
    match style {
        Style::Plain => text.to_owned(),
        Style::Dimmed => paint_dimmed(text),
        Style::Green => paint_green(text),
        Style::Yellow => paint_yellow(text),
        Style::Red => paint_red(text),
        Style::Cyan => paint_cyan(text),
    }
}

/// Writes a record as one line without any styling.
pub fn render_plain(app: &str, log: &Log) -> (line: String)
    ensures
        line@ == plain_line(app@, log@),
{
    let segments = layout(app, log);
    let mut texts: Vec<String> = Vec::new();
    let mut i: usize = 0;
    while i < segments.len()
        invariant
            i <= segments.len(),
            texts@.len() == i,
            forall|j: int| 0 <= j < i ==> texts@[j]@ == segments@[j]@.text,
        decreases segments.len() - i,
    {
        texts.push(segments[i].text.clone());
        i = i + 1;
    }
    assert(text_views(texts@) =~= texts_of(segment_views(segments@)));
    join(&texts)
}

/// Writes a record as one line, each segment in its style.
pub fn render(app: &str, log: &Log) -> (line: String)
    ensures
        styled_line(app@, log@, line@),
{
    let segments = layout(app, log);
    let mut texts: Vec<String> = Vec::new();
    let mut i: usize = 0;
    while i < segments.len()
        invariant
            i <= segments.len(),
            texts@.len() == i,
            forall|j: int| 0 <= j < i ==> painted_as(#[trigger] texts@[j]@, segments@[j]@),
        decreases segments.len() - i,
    {
        texts.push(paint(segments[i].text.as_str(), segments[i].style));
        i = i + 1;
    }
    let line = join(&texts);
    proof {
        let painted = text_views(texts@);
        let wanted = layout_of(app@, log@);
        assert(segment_views(segments@).len() == wanted.len());
        assert(painted.len() == 8);
        assert forall|j: int| 0 <= j < 8 implies painted_as(#[trigger] painted[j], wanted[j]) by {
            assert(segment_views(segments@)[j] == wanted[j]);
            assert(painted_as(texts@[j]@, segments@[j]@));
        }
        assert(line@ == joined(painted));
    }
    line
}

/// Rewrites one line: a line that decodes is laid out and styled, and any
/// other line comes back exactly as it was.
pub fn format_line(line: &str) -> (output: String)
    ensures
        match line_decoded(line@) {
            Some((tag, log)) => styled_line(tag, log, output@),
            None => output@ == line@,
        },
        !has_delimiter(line@) ==> output@ == line@,
{
    match parse_line(line) {
        Some((app, log)) => render(app.as_str(), &log),
        None => line.to_owned(),
    }
}

/// Rewrites one line without any styling: a line that decodes is laid out,
/// and any other line comes back exactly as it was.
pub fn format_line_plain(line: &str) -> (output: String)
    ensures
        match line_decoded(line@) {
            Some((tag, log)) => output@ == plain_line(tag, log),
            None => output@ == line@,
        },
        !has_delimiter(line@) ==> output@ == line@,
{
    match parse_line(line) {
        Some((app, log)) => render_plain(app.as_str(), &log),
        None => line.to_owned(),
    }
}

} // verus!
