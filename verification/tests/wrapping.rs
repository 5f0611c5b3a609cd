use danger_write::wrap::wrap_lines;

/// Wrapping written on strings, word by word and character by character.
fn naive_wrap(text: &str, width: usize) -> Vec<String> {
    if width == 0 {
        return text.split('\n').map(|_| String::new()).collect();
    }
    let mut rows = Vec::new();
    for line in text.split('\n') {
        let mut row = String::new();
        for word in line.split(' ') {
            let long = word.chars().count();
            let used = row.chars().count();
            if long > width {
                if used > 0 {
                    rows.push(row);
                    row = String::new();
                }
                for c in word.chars() {
                    if row.chars().count() == width {
                        rows.push(row);
                        row = String::new();
                    }
                    row.push(c);
                }
            } else if used == 0 {
                row.push_str(word);
            } else if used + 1 + long > width {
                rows.push(row);
                row = word.to_string();
            } else {
                row.push(' ');
                row.push_str(word);
            }
        }
        rows.push(row);
    }
    rows
}

fn ink(s: &str) -> String {
    s.chars().filter(|c| *c != ' ' && *c != '\n').collect()
}

const TEXTS: [&str; 14] = [
    "",
    " ",
    "   ",
    "\n",
    "\n\n",
    "one two three",
    "one  two   three",
    " leading and trailing ",
    "abcdefghijklmnopqrstuvwxyz",
    "a abcdefghijklmnopqrstuvwxyz b",
    "first line\nsecond line\n\nfourth",
    "ünïcödé wörds, 日本語 テキスト and émoji 🎉🎉🎉",
    "tab\tand other\u{a0}blanks",
    "exactly-ten 1234567890 1234567890",
];

#[test]
fn breaks_between_words() {
    assert_eq!(wrap_lines("one two three", 8), vec!["one two", "three"]);
    assert_eq!(wrap_lines("one two three", 7), vec!["one two", "three"]);
    assert_eq!(wrap_lines("one two three", 6), vec!["one", "two", "three"]);
    assert_eq!(wrap_lines("one two three", 13), vec!["one two three"]);
}

#[test]
fn breaks_long_words_hard() {
    assert_eq!(wrap_lines("abcdefgh", 3), vec!["abc", "def", "gh"]);
    assert_eq!(wrap_lines("abcdef", 3), vec!["abc", "def"]);
    assert_eq!(wrap_lines("hi abcdefgh yo", 3), vec!["hi", "abc", "def", "gh", "yo"]);
    assert_eq!(wrap_lines("hi abcdefgh yo", 5), vec!["hi", "abcde", "fgh", "yo"]);
    assert_eq!(wrap_lines("abcdefg x", 4), vec!["abcd", "efg", "x"]);
    assert_eq!(wrap_lines("abcdef x", 4), vec!["abcd", "ef x"]);
}

#[test]
fn keeps_logical_lines_apart() {
    assert_eq!(wrap_lines("", 5), vec![""]);
    assert_eq!(wrap_lines("\n", 5), vec!["", ""]);
    assert_eq!(wrap_lines("a\n\nb", 5), vec!["a", "", "b"]);
    assert_eq!(wrap_lines("a\n", 5), vec!["a", ""]);
}

#[test]
fn no_columns_give_an_empty_row_per_logical_line() {
    assert_eq!(wrap_lines("", 0), vec![""]);
    assert_eq!(wrap_lines("anything at all", 0), vec![""]);
    assert_eq!(wrap_lines("two\nlines", 0), vec!["", ""]);
    assert_eq!(wrap_lines("\n\n", 0), vec!["", "", ""]);
}

#[test]
fn spaces_inside_a_row_are_kept_and_leading_ones_dropped() {
    assert_eq!(wrap_lines("a  b", 10), vec!["a  b"]);
    assert_eq!(wrap_lines("  a", 10), vec!["a"]);
    assert_eq!(wrap_lines("a ", 10), vec!["a "]);
    assert_eq!(wrap_lines("a ", 1), vec!["a", ""]);
}

#[test]
fn counts_characters_not_bytes() {
    assert_eq!(wrap_lines("äöü äöü", 3), vec!["äöü", "äöü"]);
    assert_eq!(wrap_lines("日本語テキスト", 4), vec!["日本語テ", "キスト"]);
}

#[test]
fn agrees_with_wrapping_on_strings() {
    for text in TEXTS {
        for width in 0..40 {
            assert_eq!(wrap_lines(text, width), naive_wrap(text, width), "{text:?} in {width}");
        }
    }
}

#[test]
fn rows_fit_and_keep_every_character() {
    for text in TEXTS {
        for width in 1..40 {
            let rows = wrap_lines(text, width);
            assert!(rows.iter().all(|row| row.chars().count() <= width));
            assert!(rows.len() > text.matches('\n').count());
            assert_eq!(ink(&rows.concat()), ink(text));
        }
    }
}

#[test]
fn last_row_ends_with_what_was_typed_last() {
    for text in TEXTS {
        for width in 1..40 {
            let rows = wrap_lines(&format!("{text}#"), width);
            assert!(rows[rows.len() - 1].ends_with('#'));
        }
    }
}

#[test]
fn a_line_that_fits_is_one_row() {
    for line in ["x", "one  two ", "日本語 テキスト"] {
        assert_eq!(wrap_lines(line, line.chars().count()), vec![line]);
    }
}

#[test]
fn widest_possible_rows() {
    assert_eq!(wrap_lines("one two\nthree", usize::MAX), vec!["one two", "three"]);
}
