use chrono::{DateTime, Utc};
use logfmt::decode::{build_record, parse_line};
use logfmt::numerals::{
    decimal_len, digit_char, push_decimal, push_year, push_zero_padded, render_timestamp,
};
use logfmt::record::{Level, Log, Timestamp};
use logfmt::render::{
    format_line, format_line_plain, join, layout, pad_left, pad_right, paint, push_spaces,
    render, render_plain, Style, LEVEL_WIDTH, LOGGER_WIDTH, THREAD_WIDTH,
};

const LINE: &str = "app| {\"@timestamp\":\"2023-01-01T00:00:00.000Z\",\"level\":\"INFO\",\"logger_name\":\"com.example.Foo\",\"thread_name\":\"main\",\"message\":\"hello\"}";

const SHOWN: &str = "app| 2023-01-01 00:00:00.000  INFO --- [           main] com.example.Foo                          : hello";

fn instant(year: i32, month: u32, day: u32, hour: u32, minute: u32, second: u32, nanosecond: u32) -> Timestamp {
    Timestamp { year, month, day, hour, minute, second, nanosecond }
}

fn sample(level: &str, message: &str) -> Log {
    build_record(instant(2023, 1, 1, 0, 0, 0, 0), message, "com.example.Foo", level, "main").unwrap()
}

#[test]
fn a_whole_line_is_laid_out() {
    assert_eq!(format_line_plain(LINE), SHOWN);
    let (app, log) = parse_line(LINE).unwrap();
    assert_eq!(render_plain(&app, &log), SHOWN);
}

#[test]
fn a_line_that_is_not_recognized_passes_through() {
    assert_eq!(format_line("not a recognizable line"), "not a recognizable line");
    assert_eq!(format_line_plain("not a recognizable line"), "not a recognizable line");
    assert_eq!(format_line(""), "");
    assert_eq!(format_line("  padded, no pipe  "), "  padded, no pipe  ");
    assert_eq!(format_line("pipe|without space"), "pipe|without space");
}

#[test]
fn a_line_with_an_unknown_level_passes_through() {
    let line = LINE.replace("\"INFO\"", "\"TRACE2\"");
    assert_eq!(format_line(&line), line);
    assert_eq!(format_line_plain(&line), line);
}

#[test]
fn a_line_with_a_missing_field_passes_through() {
    for key in ["@timestamp", "level", "logger_name", "thread_name", "message"] {
        let line = LINE.replace(&format!("\"{}\"", key), "\"other\"");
        assert_eq!(format_line(&line), line);
        assert_eq!(format_line_plain(&line), line);
    }
}

#[test]
fn a_payload_that_is_not_json_passes_through() {
    for line in ["app| ", "app| {", "app| {\"level\":\"INFO\"", "app| not json", " | | | "] {
        assert_eq!(format_line(line), line);
        assert_eq!(format_line_plain(line), line);
    }
}

#[test]
fn styling_is_applied_around_the_padded_texts() {
    colored::control::set_override(true);
    let styled = format_line(LINE);
    assert_ne!(styled, SHOWN);
    assert!(styled.starts_with("app| \u{1b}["));
    assert!(styled.ends_with(" hello"));
    assert!(styled.contains("\u{1b}[32m INFO\u{1b}[0m"));
    assert!(styled.contains("\u{1b}[2m[           main]\u{1b}[0m"));
    assert!(styled.contains("\u{1b}[36mcom.example.Foo                         \u{1b}[0m"));
    assert_eq!(paint("x", Style::Plain), "x");
    assert_eq!(paint("x", Style::Dimmed), "\u{1b}[2mx\u{1b}[0m");
    assert_eq!(paint("x", Style::Green), "\u{1b}[32mx\u{1b}[0m");
    assert_eq!(paint("x", Style::Yellow), "\u{1b}[33mx\u{1b}[0m");
    assert_eq!(paint("x", Style::Red), "\u{1b}[31mx\u{1b}[0m");
    assert_eq!(paint("x", Style::Cyan), "\u{1b}[36mx\u{1b}[0m");
    let passed = format_line("not a recognizable line");
    assert_eq!(passed, "not a recognizable line");
    colored::control::set_override(false);
    assert_eq!(format_line(LINE), SHOWN);
    let (app, log) = parse_line(LINE).unwrap();
    assert_eq!(render(&app, &log), SHOWN);
    assert_eq!(paint("x", Style::Red), "x");
}

#[test]
fn a_message_of_many_digits_is_laid_out() {
    let digits = "1234567890".repeat(4000);
    let line = LINE.replace("hello", &digits);
    assert_eq!(format_line_plain(&line), SHOWN.replace("hello", &digits));
}

#[test]
fn a_styled_text_stands_whole_in_what_is_shown() {
    for on in [true, false] {
        colored::control::set_override(on);
        for style in [Style::Plain, Style::Dimmed, Style::Green, Style::Yellow, Style::Red, Style::Cyan] {
            for text in ["", "x", " INFO", "[           main]", "caf\u{e9} \u{1F44D}"] {
                assert!(paint(text, style).contains(text));
            }
        }
        let (app, log) = parse_line(LINE).unwrap();
        let styled = render(&app, &log);
        let mut rest = styled.as_str();
        for segment in layout(&app, &log) {
            let at = rest.find(segment.text.as_str()).unwrap();
            rest = &rest[at + segment.text.len()..];
        }
        assert_eq!(rest, "");
    }
    colored::control::set_override(false);
}

#[test]
fn the_segments_come_in_their_order() {
    let segments = layout("app", &sample("WARN", "hello"));
    let texts: Vec<&str> = segments.iter().map(|s| s.text.as_str()).collect();
    assert_eq!(
        texts,
        vec![
            "app|",
            "2023-01-01 00:00:00.000",
            " WARN",
            "---",
            "[           main]",
            "com.example.Foo                         ",
            ":",
            "hello",
        ]
    );
    let styles: Vec<Style> = segments.iter().map(|s| s.style).collect();
    assert_eq!(
        styles,
        vec![
            Style::Plain,
            Style::Dimmed,
            Style::Yellow,
            Style::Dimmed,
            Style::Dimmed,
            Style::Cyan,
            Style::Dimmed,
            Style::Plain,
        ]
    );
}

#[test]
fn levels_have_their_styles() {
    assert_eq!(Level::TRACE.style(), Style::Green);
    assert_eq!(Level::DEBUG.style(), Style::Green);
    assert_eq!(Level::INFO.style(), Style::Green);
    assert_eq!(Level::WARN.style(), Style::Yellow);
    assert_eq!(Level::ERROR.style(), Style::Red);
    assert_eq!(Level::FATAL.style(), Style::Red);
}

#[test]
fn levels_are_right_aligned_to_five() {
    assert_eq!(LEVEL_WIDTH, 5);
    assert_eq!(render_plain("a", &sample("TRACE", "m")), "a| 2023-01-01 00:00:00.000 TRACE --- [           main] com.example.Foo                          : m");
    assert_eq!(render_plain("a", &sample("WARN", "m")), "a| 2023-01-01 00:00:00.000  WARN --- [           main] com.example.Foo                          : m");
    assert_eq!(render_plain("a", &sample("FATAL", "m")), "a| 2023-01-01 00:00:00.000 FATAL --- [           main] com.example.Foo                          : m");
}

#[test]
fn an_empty_message_still_has_its_separator() {
    assert_eq!(render_plain("", &sample("ERROR", "")), "| 2023-01-01 00:00:00.000 ERROR --- [           main] com.example.Foo                          : ");
}

#[test]
fn full_width_names_get_no_padding() {
    assert_eq!(THREAD_WIDTH, 15);
    assert_eq!(LOGGER_WIDTH, 40);
    let log = build_record(
        instant(1999, 12, 31, 23, 59, 59, 999_999_999),
        "the end",
        "org.apache.zookeeper.server.quorum.QuorumPeerConfig$ConfigException",
        "DEBUG",
        "NIOServerCxn.Factory:0.0.0.0/0.0.0.0:2181",
    )
    .unwrap();
    assert_eq!(
        render_plain("zk", &log),
        "zk| 1999-12-31 23:59:59.999 DEBUG --- [.0/0.0.0.0:2181] .quorum.QuorumPeerConfig$ConfigException : the end"
    );
}

#[test]
fn padding_counts_characters() {
    assert_eq!(pad_left("main", 15), "           main");
    assert_eq!(pad_left("", 3), "   ");
    assert_eq!(pad_left("abc", 3), "abc");
    assert_eq!(pad_left("abcd", 3), "abcd");
    assert_eq!(pad_left("abc", 0), "abc");
    assert_eq!(pad_left("\u{e9}\u{1F44D}", 4), "  \u{e9}\u{1F44D}");
    assert_eq!(pad_right("Foo", 5), "Foo  ");
    assert_eq!(pad_right("", 2), "  ");
    assert_eq!(pad_right("Foo", 3), "Foo");
    assert_eq!(pad_right("Fooo", 3), "Fooo");
    assert_eq!(pad_right("\u{e9}\u{1F44D}", 4), "\u{e9}\u{1F44D}  ");
    assert_eq!(pad_left("main", 15), format!("{:>15}", "main"));
    assert_eq!(pad_right("\u{1F44D}", 40), format!("{:<40}", "\u{1F44D}"));
    let mut text = "x".to_owned();
    push_spaces(&mut text, 3);
    assert_eq!(text, "x   ");
    push_spaces(&mut text, 0);
    assert_eq!(text, "x   ");
}

#[test]
fn texts_are_joined_by_single_spaces() {
    assert_eq!(join(&vec![]), "");
    assert_eq!(join(&vec!["a".to_owned()]), "a");
    assert_eq!(join(&vec!["a".to_owned(), "b".to_owned()]), "a b");
    assert_eq!(join(&vec!["a".to_owned(), "".to_owned(), "c".to_owned()]), "a  c");
    assert_eq!(join(&vec!["".to_owned(), "".to_owned()]), " ");
}

#[test]
fn numbers_are_written_in_decimal() {
    for d in 0..10u32 {
        assert_eq!(digit_char(d), char::from_digit(d, 10).unwrap());
    }
    for n in [0u64, 1, 9, 10, 99, 100, 12345, 4294967295, u64::MAX] {
        let mut text = String::new();
        push_decimal(&mut text, n);
        assert_eq!(text, n.to_string());
        assert_eq!(decimal_len(n), n.to_string().len());
    }
    let mut text = "n=".to_owned();
    push_zero_padded(&mut text, 7, 3);
    assert_eq!(text, "n=007");
    push_zero_padded(&mut text, 1234, 3);
    assert_eq!(text, "n=0071234");
    push_zero_padded(&mut text, 0, 0);
    assert_eq!(text, "n=00712340");
    push_zero_padded(&mut text, 0, 2);
    assert_eq!(text, "n=0071234000");
}

#[test]
fn years_outside_four_digits_are_signed() {
    let years = [
        (2023, "2023"),
        (0, "0000"),
        (1, "0001"),
        (999, "0999"),
        (9999, "9999"),
        (10000, "+10000"),
        (262142, "+262142"),
        (-1, "-0001"),
        (-44, "-0044"),
        (-12345, "-12345"),
        (i32::MIN, "-2147483648"),
        (i32::MAX, "+2147483647"),
    ];
    for (year, shown) in years {
        let mut text = String::new();
        push_year(&mut text, year);
        assert_eq!(text, shown);
    }
}

#[test]
fn timestamps_show_milliseconds() {
    assert_eq!(render_timestamp(&instant(2023, 1, 1, 0, 0, 0, 0)), "2023-01-01 00:00:00.000");
    assert_eq!(render_timestamp(&instant(2023, 11, 9, 8, 7, 6, 5_000_000)), "2023-11-09 08:07:06.005");
    assert_eq!(render_timestamp(&instant(2023, 12, 31, 23, 59, 59, 999_999_999)), "2023-12-31 23:59:59.999");
    assert_eq!(render_timestamp(&instant(2023, 6, 15, 12, 0, 0, 123_456_789)), "2023-06-15 12:00:00.123");
    assert_eq!(render_timestamp(&instant(2023, 6, 15, 12, 0, 0, 999_999)), "2023-06-15 12:00:00.000");
}

#[test]
fn a_leap_second_is_the_sixtieth() {
    assert_eq!(render_timestamp(&instant(2016, 12, 31, 23, 59, 59, 1_000_000_000)), "2016-12-31 23:59:60.000");
    assert_eq!(render_timestamp(&instant(2016, 12, 31, 23, 59, 59, 1_250_000_000)), "2016-12-31 23:59:60.250");
    let line = LINE.replace("2023-01-01T00:00:00.000Z", "2016-12-31T23:59:60.250Z");
    let log = parse_line(&line).unwrap().1;
    assert_eq!(log.timestamp, instant(2016, 12, 31, 23, 59, 59, 1_250_000_000));
    assert!(log.timestamp.is_well_formed());
}

#[test]
fn timestamps_are_written_as_chrono_writes_them() {
    let texts = [
        "2023-01-01T00:00:00.000Z",
        "2023-06-15T01:30:15.250+02:00",
        "1970-01-01T00:00:00Z",
        "1969-12-31T23:59:59.999999999-00:00",
        "2000-02-29 12:34:56.789+05:30",
        "2016-12-31T23:59:60.5Z",
        "0000-01-01T00:00:00+01:00",
        "0001-01-01T00:00:00Z",
        "0999-09-09T09:09:09.009Z",
        "9999-12-31T23:59:59.999-01:00",
        "2038-01-19T03:14:07.001Z",
    ];
    for text in texts {
        let expected = text.parse::<DateTime<Utc>>().unwrap().format("%Y-%m-%d %H:%M:%S%.3f").to_string();
        let line = LINE.replace("2023-01-01T00:00:00.000Z", text);
        let log = parse_line(&line).unwrap().1;
        assert!(log.timestamp.is_well_formed());
        assert_eq!(render_timestamp(&log.timestamp), expected, "for {}", text);
    }
}

#[test]
fn fields_out_of_range_are_told() {
    assert!(instant(2023, 1, 1, 0, 0, 0, 0).is_well_formed());
    assert!(instant(-5, 12, 31, 23, 59, 59, 1_999_999_999).is_well_formed());
    assert!(!instant(2023, 0, 1, 0, 0, 0, 0).is_well_formed());
    assert!(!instant(2023, 13, 1, 0, 0, 0, 0).is_well_formed());
    assert!(!instant(2023, 1, 0, 0, 0, 0, 0).is_well_formed());
    assert!(!instant(2023, 1, 32, 0, 0, 0, 0).is_well_formed());
    assert!(!instant(2023, 1, 1, 24, 0, 0, 0).is_well_formed());
    assert!(!instant(2023, 1, 1, 0, 60, 0, 0).is_well_formed());
    assert!(!instant(2023, 1, 1, 0, 0, 60, 0).is_well_formed());
    assert!(!instant(2023, 1, 1, 0, 0, 0, 2_000_000_000).is_well_formed());
}
