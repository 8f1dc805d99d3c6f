use logfmt::abbreviate::{
    abbreviate_logger_name, abbreviate_thread_name, take_end, LOGGER_NAME_BUDGET,
    THREAD_NAME_BUDGET,
};
use logfmt::utf16::{encode_utf16, from_utf16_java_lossy};

fn units_of(text: &str) -> Vec<u16> {
    text.encode_utf16().collect()
}

#[test]
fn thread_name_ok() {
    let test_str = "NIOServerCxn.Factory:0.0.0.0/0.0.0.0:2181";
    let end = abbreviate_thread_name(test_str, 15);
    assert_eq!(end, ".0/0.0.0.0:2181");
}

#[test]
fn thread_name_bad() {
    let test_str = "---\u{1F44D}0000-111122222";
    let end = abbreviate_thread_name(test_str, 15);
    assert_eq!(end, "?0000-111122222");
}

#[test]
fn thread_name_without_surrogates_keeps_its_tail() {
    let test_str = "---\u{f8ff}\u{fc}\u{eb}\u{e7}0000-111122222";
    assert_eq!(units_of(test_str).len(), 21);
    let end = abbreviate_thread_name(test_str, 15);
    assert_eq!(end, "\u{e7}0000-111122222");
    assert_eq!(units_of(&end).len(), 15);
}

#[test]
fn budgets_are_forty_and_fifteen() {
    assert_eq!(LOGGER_NAME_BUDGET, 40);
    assert_eq!(THREAD_NAME_BUDGET, 15);
}

#[test]
fn short_names_come_back_unchanged() {
    assert_eq!(abbreviate_thread_name("main", 15), "main");
    assert_eq!(abbreviate_logger_name("com.example.Foo", 40), "com.example.Foo");
    assert_eq!(abbreviate_thread_name("", 15), "");
    assert_eq!(abbreviate_logger_name("", 40), "");
    let exact = "0123456789abcde";
    assert_eq!(abbreviate_thread_name(exact, 15), exact);
    let emoji = "caf\u{e9} \u{1F44D} \u{1F600}";
    assert_eq!(abbreviate_thread_name(emoji, 15), emoji);
    assert_eq!(abbreviate_logger_name(emoji, 40), emoji);
}

#[test]
fn logger_name_keeps_the_last_forty_units() {
    let long = "org.apache.zookeeper.server.quorum.QuorumPeerConfig$ConfigException";
    let short = abbreviate_logger_name(long, 40);
    assert_eq!(short, ".quorum.QuorumPeerConfig$ConfigException");
    assert_eq!(units_of(&short).len(), 40);
    assert!(long.ends_with(short.as_str()));
}

#[test]
fn one_unit_over_the_budget_loses_one_unit() {
    let name = "0123456789abcdef";
    assert_eq!(abbreviate_thread_name(name, 15), "123456789abcdef");
}

#[test]
fn a_cut_between_characters_replaces_nothing() {
    let name = "ab\u{1F44D}0123456789abc";
    assert_eq!(units_of(name).len(), 17);
    assert_eq!(abbreviate_thread_name(name, 15), "\u{1F44D}0123456789abc");
}

#[test]
fn a_cut_inside_a_pair_leaves_a_question_mark() {
    let name = "a\u{1F44D}0123456789abcd";
    assert_eq!(units_of(name).len(), 17);
    let short = abbreviate_thread_name(name, 15);
    assert_eq!(short, "?0123456789abcd");
    let expected: Vec<u16> = {
        let mut tail = units_of(name)[2..].to_vec();
        tail[0] = 0x3F;
        tail
    };
    assert_eq!(units_of(&short), expected);
}

#[test]
fn abbreviated_names_stay_within_the_budget() {
    let names = [
        "",
        "x",
        "\u{1F44D}",
        "\u{1F44D}\u{1F44D}\u{1F44D}\u{1F44D}\u{1F44D}\u{1F44D}\u{1F44D}\u{1F44D}",
        "a\u{1F44D}\u{1F44D}\u{1F44D}\u{1F44D}\u{1F44D}\u{1F44D}\u{1F44D}\u{1F44D}",
        "pool-1-thread-1234567890",
        "\u{e9}\u{e9}\u{e9}\u{e9}\u{e9}\u{e9}\u{e9}\u{e9}\u{e9}\u{e9}\u{e9}\u{e9}\u{e9}\u{e9}\u{e9}\u{e9}",
    ];
    for name in names {
        for budget in [0usize, 1, 2, 3, 15, 40] {
            let thread = abbreviate_thread_name(name, budget);
            let logger = abbreviate_logger_name(name, budget);
            assert_eq!(thread, logger);
            assert!(units_of(&thread).len() <= budget);
            if units_of(name).len() <= budget {
                assert_eq!(thread, name);
            } else {
                assert_eq!(units_of(&thread).len(), budget);
            }
        }
    }
}

#[test]
fn a_budget_of_zero_leaves_nothing() {
    assert_eq!(abbreviate_thread_name("main", 0), "");
    assert_eq!(abbreviate_logger_name("main", 0), "");
    assert_eq!(abbreviate_thread_name("", 0), "");
}

#[test]
fn take_end_keeps_the_last_items() {
    let items = [1, 2, 3, 4, 5];
    assert_eq!(take_end(&items, 2), &[4, 5]);
    assert_eq!(take_end(&items, 5), &[1, 2, 3, 4, 5]);
    assert_eq!(take_end(&items, 9), &[1, 2, 3, 4, 5]);
    assert_eq!(take_end(&items, 0), &[] as &[i32]);
    let none: [u16; 0] = [];
    assert_eq!(take_end(&none, 3), &[] as &[u16]);
}

#[test]
fn encoding_agrees_with_the_standard_library() {
    let texts = ["", "main", "caf\u{e9}", "\u{1F44D}", "a\u{10000}b\u{10FFFF}c", "\u{FFFF}\u{E000}\u{D7FF}"];
    for text in texts {
        assert_eq!(encode_utf16(text), units_of(text));
    }
    assert_eq!(encode_utf16("\u{1F44D}"), vec![0xD83D, 0xDC4D]);
    assert_eq!(encode_utf16("A"), vec![0x41]);
}

#[test]
fn decoding_repairs_lone_surrogates() {
    assert_eq!(from_utf16_java_lossy(&[]), "");
    assert_eq!(from_utf16_java_lossy(&[0x41, 0x42]), "AB");
    assert_eq!(from_utf16_java_lossy(&[0xD83D, 0xDC4D]), "\u{1F44D}");
    assert_eq!(from_utf16_java_lossy(&[0xD800]), "?");
    assert_eq!(from_utf16_java_lossy(&[0xDC00, 0x41]), "?A");
    assert_eq!(from_utf16_java_lossy(&[0xD83D, 0x41]), "?A");
    assert_eq!(from_utf16_java_lossy(&[0xD83D, 0xD83D, 0xDC4D]), "?\u{1F44D}");
    assert_eq!(from_utf16_java_lossy(&[0xDC4D, 0xD83D]), "??");
    assert_eq!(from_utf16_java_lossy(&[0xDBFF, 0xDFFF]), "\u{10FFFF}");
    assert_eq!(from_utf16_java_lossy(&[0xD800, 0xDC00]), "\u{10000}");
    assert_eq!(from_utf16_java_lossy(&[0xFFFF, 0xE000, 0xD7FF]), "\u{FFFF}\u{E000}\u{D7FF}");
}

#[test]
fn decoding_undoes_encoding() {
    let texts = ["", "main", "caf\u{e9}", "\u{1F44D}\u{1F600}", "a\u{10000}b\u{10FFFF}c"];
    for text in texts {
        assert_eq!(from_utf16_java_lossy(&encode_utf16(text)), text);
    }
}
