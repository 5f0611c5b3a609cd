use danger_write::text::{count_words, fmt_dur, is_white_space, parse_number};
use danger_write::time::{Duration, Instant};

#[test]
fn white_space_is_what_the_standard_library_takes_for_it() {
    for code in 0..=0x10ffff_u32 {
        if let Some(c) = char::from_u32(code) {
            assert_eq!(is_white_space(c), c.is_whitespace(), "U+{code:04X}");
        }
    }
}

#[test]
fn counts_words() {
    assert_eq!(count_words(""), 0);
    assert_eq!(count_words("   \n\t "), 0);
    assert_eq!(count_words("one"), 1);
    assert_eq!(count_words("  one  two\nthree\tfour "), 4);
    assert_eq!(count_words("non\u{a0}breaking"), 2);
    assert_eq!(count_words("zero\u{200b}width"), 1);
}

#[test]
fn counts_words_as_splitting_does() {
    for text in ["a b", " a", "a ", "\u{3000}日本\u{2028}語\r\n x", "a\u{85}b\u{1680}c", "x\u{feff}y z"] {
        assert_eq!(count_words(text), text.split_whitespace().count());
    }
}

#[test]
fn a_typed_character_adds_at_most_one_word() {
    let mut text = String::new();
    let mut before = 0;
    for c in "the  quick\nbrown fox".chars() {
        text.push(c);
        let after = count_words(&text);
        assert!(after == before || after == before + 1);
        before = after;
    }
    assert_eq!(before, 4);
}

#[test]
fn formats_minutes_and_seconds() {
    assert_eq!(fmt_dur(Duration::from_secs(0)), "00:00");
    assert_eq!(fmt_dur(Duration::from_secs(9)), "00:09");
    assert_eq!(fmt_dur(Duration::from_secs(61)), "01:01");
    assert_eq!(fmt_dur(Duration::from_secs(300)), "05:00");
    assert_eq!(fmt_dur(Duration::from_secs(3599)), "59:59");
    assert_eq!(fmt_dur(Duration::from_secs(360_000)), "6000:00");
    assert_eq!(fmt_dur(Duration::from_millis(59_999)), "00:59");
    assert_eq!(fmt_dur(Duration::from_secs(u64::MAX)), "307445734561825860:15");
}

#[test]
fn formats_as_padding_does() {
    for secs in (0..20_000).step_by(7) {
        let expected = format!("{:02}:{:02}", secs / 60, secs % 60);
        assert_eq!(fmt_dur(Duration::from_secs(secs)), expected);
    }
}

#[test]
fn reads_numbers() {
    assert_eq!(parse_number("250"), Some(250));
    assert_eq!(parse_number("+7"), Some(7));
    assert_eq!(parse_number("007"), Some(7));
    assert_eq!(parse_number("18446744073709551615"), Some(18446744073709551615));
    assert_eq!(parse_number("18446744073709551616"), None);
    assert_eq!(parse_number("99999999999999999999999"), None);
    assert_eq!(parse_number(""), None);
    assert_eq!(parse_number("+"), None);
    assert_eq!(parse_number("-1"), None);
    assert_eq!(parse_number("++1"), None);
    assert_eq!(parse_number(" 1"), None);
    assert_eq!(parse_number("1.5"), None);
    assert_eq!(parse_number("１２"), None);
}

#[test]
fn reads_numbers_as_the_standard_library_does() {
    for text in ["0", "42", "+0", "-0", "1_000", "0x10", "+-3", "12a", "00000000000000000000000000001"] {
        assert_eq!(parse_number(text), text.parse::<usize>().ok(), "{text}");
    }
    for n in (0..100_000_usize).step_by(97) {
        assert_eq!(parse_number(&n.to_string()), Some(n));
    }
}

#[test]
fn spans_never_go_below_zero() {
    let early = Instant { nanos: 5 };
    let late = Instant { nanos: 12 };
    assert_eq!(late.duration_since(early), Duration { nanos: 7 });
    assert_eq!(early.duration_since(late), Duration { nanos: 0 });
    assert_eq!(Duration::from_secs(2).saturating_sub(Duration::from_secs(3)), Duration { nanos: 0 });
    assert_eq!(Duration::from_secs(3).saturating_sub(Duration::from_secs(2)).as_secs(), 1);
    assert_eq!(Duration::from_millis(1400).nanos, 1_400_000_000);
}
