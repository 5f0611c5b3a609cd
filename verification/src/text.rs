//! Characters, words and numbers.

use crate::time::{Duration, NANOS_PER_SEC};
use vstd::prelude::*;

verus! {

/// `String::push`. Trusted: the character is appended to the end.
pub assume_specification[ String::push ](s: &mut String, c: char)
    ensures
        final(s)@ == old(s)@.push(c),
;

/// `String::pop`. Trusted: the last character is removed and handed back; an empty
/// string has none.
pub assume_specification[ String::pop ](s: &mut String) -> (c: Option<char>)
    ensures
        old(s)@.len() == 0 ==> c is None && final(s)@ == old(s)@,
        old(s)@.len() > 0 ==> c == Some(old(s)@.last()) && final(s)@ == old(s)@.drop_last(),
;

/// `String::clear`. Trusted: all characters are removed.
pub assume_specification[ String::clear ](s: &mut String)
    ensures
        final(s)@ == Seq::<char>::empty(),
;

/// The characters of `s`.
pub(crate) fn chars_of(s: &str) -> (chars: Vec<char>)
    ensures
        chars@ == s@,
{
    let mut chars: Vec<char> = Vec::new();
    for c in iter: s.chars()
        invariant
            iter.seq() == s@,
            chars@ == s@.take(iter.index() as int),
    {
        chars.push(c);
    }
    proof {
        assert(s@.take(s@.len() as int) =~= s@);
    }
    chars
}

/// The string of the characters of `chars` from `from` up to `to`.
pub(crate) fn string_of(chars: &Vec<char>, from: usize, to: usize) -> (s: String)
    requires
        from <= to <= chars.len(),
    ensures
        s@ == chars@.subrange(from as int, to as int),
{
    let mut s = String::new();
    let mut i: usize = from;
    while i < to
        invariant
            from <= i <= to <= chars.len(),
            s@ == chars@.subrange(from as int, i as int),
        decreases to - i,
    {
        s.push(chars[i]);
        i = i + 1;
    }
    s
}

/// Whether the two strings are the same.
pub(crate) fn same_text(a: &str, b: &str) -> (same: bool)
    ensures
        same == (a@ == b@),
{
    let left = chars_of(a);
    let right = chars_of(b);
    if left.len() != right.len() {
        return false;
    }
    let mut i: usize = 0;
    while i < left.len()
        invariant
            i <= left.len() == right.len(),
            left@.take(i as int) == right@.take(i as int),
            left@ == a@,
            right@ == b@,
        decreases left.len() - i,
    {
        if left[i] != right[i] {
            return false;
        }
        i = i + 1;
    }
    proof {
        assert(left@.take(i as int) =~= left@);
        assert(right@.take(i as int) =~= right@);
    }
    true
}

// --- words -------------------------------------------------------------------

/// Whether `c` has the Unicode property White_Space.
pub open spec fn white(c: char) -> bool {
    ||| '\u{9}' <= c <= '\u{d}'
    ||| c == ' '
    ||| c == '\u{85}'
    ||| c == '\u{a0}'
    ||| c == '\u{1680}'
    ||| '\u{2000}' <= c <= '\u{200a}'
    ||| c == '\u{2028}'
    ||| c == '\u{2029}'
    ||| c == '\u{202f}'
    ||| c == '\u{205f}'
    ||| c == '\u{3000}'
}

/// Whether `c` has the Unicode property White_Space.
pub fn is_white_space(c: char) -> (yes: bool)
    ensures
        yes == white(c),
{
    '\u{9}' <= c && c <= '\u{d}' || c == ' ' || c == '\u{85}' || c == '\u{a0}' || c == '\u{1680}'
        || '\u{2000}' <= c && c <= '\u{200a}' || c == '\u{2028}' || c == '\u{2029}' || c
        == '\u{202f}' || c == '\u{205f}' || c == '\u{3000}'
}

/// Whether a word begins at index `i`: a character there that is no white space, behind
/// white space or at the very beginning.
pub open spec fn word_begins(s: Seq<char>, i: int) -> bool {
    !white(s[i]) && (i == 0 || white(s[i - 1]))
}

/// How many words `s` holds: runs of characters between white space.
pub open spec fn words(s: Seq<char>) -> nat
    decreases s.len(),
{
    if s.len() == 0 {
        0
    } else if word_begins(s, s.len() - 1) {
        words(s.drop_last()) + 1
    } else {
        words(s.drop_last())
    }
}

/// How many words `s` holds.
pub fn count_words(s: &str) -> (n: usize)
    ensures
        n == words(s@),
{
    let chars = chars_of(s);
    let mut n: usize = 0;
    let mut in_word: bool = false;
    let mut i: usize = 0;
    while i < chars.len()
        invariant
            i <= chars.len(),
            n <= i,
            n == words(chars@.take(i as int)),
            in_word == (i > 0 && !white(chars@[i - 1])),
        decreases chars.len() - i,
    {
        let blank = is_white_space(chars[i]);
        proof {
            assert(chars@.take(i + 1).drop_last() =~= chars@.take(i as int));
        }
        if !blank && !in_word {
            n = n + 1;
        }
        in_word = !blank;
        i = i + 1;
    }
    proof {
        assert(chars@.take(i as int) =~= chars@);
    }
    n
}

/// A character typed at the end begins a new word or does not; it never takes one away.
pub proof fn law_typing_keeps_words(s: Seq<char>, c: char)
    ensures
        words(s.push(c)) == words(s) + (if !white(c) && (s.len() == 0 || white(s.last())) {
            1nat
        } else {
            0nat
        }),
{
    assert(s.push(c).drop_last() =~= s);
}

/// There are no more words than characters.
pub proof fn law_words_are_bounded(s: Seq<char>)
    ensures
        words(s) <= s.len(),
    decreases s.len(),
{
    if s.len() > 0 {
        law_words_are_bounded(s.drop_last());
    }
}

// --- numbers -----------------------------------------------------------------

/// The character of a decimal digit.
pub open spec fn digit(d: nat) -> char {
    (48 + d) as char
}

/// `n` in decimal.
pub open spec fn decimal(n: nat) -> Seq<char>
    decreases n,
{
    if n < 10 {
        seq![digit(n)]
    } else {
        decimal(n / 10).push(digit(n % 10))
    }
}

/// `n` in decimal, with a leading zero where it has only one digit.
pub open spec fn two_digits(n: nat) -> Seq<char> {
    if n < 10 {
        seq!['0', digit(n)]
    } else {
        decimal(n)
    }
}

/// Minutes and seconds, as on a clock.
pub open spec fn clock(secs: nat) -> Seq<char> {
    two_digits(secs / 60).push(':') + two_digits(secs % 60)
}

/// Appends `n` in decimal.
pub(crate) fn push_decimal(out: &mut String, n: u128)
    ensures
        final(out)@ == old(out)@ + decimal(n as nat),
    decreases n,
{
    let ghost before = out@;
    if n >= 10 {
        push_decimal(out, n / 10);
    }
    let d: u8 = (n % 10) as u8;
    out.push((48 + d) as char);
    proof {
        assert(out@ =~= before + decimal(n as nat));
    }
}

/// Appends `n` in decimal, with a leading zero where it has only one digit.
fn push_two_digits(out: &mut String, n: u128)
    ensures
        final(out)@ == old(out)@ + two_digits(n as nat),
{
    let ghost before = out@;
    if n < 10 {
        out.push('0');
    }
    push_decimal(out, n);
    proof {
        assert(out@ =~= before + two_digits(n as nat));
    }
}

/// A span of time as minutes and seconds, `mm:ss`; what is left of a second is dropped.
pub fn fmt_dur(d: Duration) -> (s: String)
    ensures
        s@ == clock((d.nanos / NANOS_PER_SEC) as nat),
{
    let secs: u128 = d.as_secs();
    let mut s = String::new();
    push_two_digits(&mut s, secs / 60);
    s.push(':');
    push_two_digits(&mut s, secs % 60);
    proof {
        assert(s@ =~= clock(secs as nat));
    }
    s
}

/// Whether every character of `s` is a decimal digit.
pub open spec fn all_digits(s: Seq<char>) -> bool {
    forall|i: int| 0 <= i < s.len() ==> '0' <= #[trigger] s[i] <= '9'
}

/// The number that the decimal digits `s` stand for.
pub open spec fn digits_value(s: Seq<char>) -> nat
    decreases s.len(),
{
    if s.len() == 0 {
        0
    } else {
        10 * digits_value(s.drop_last()) + (s.last() as u32 - 48) as nat
    }
}

/// `s` without a leading plus sign.
pub open spec fn unsigned(s: Seq<char>) -> Seq<char> {
    if s.len() > 0 && s[0] == '+' {
        s.skip(1)
    } else {
        s
    }
}

/// The number that `s` spells: one or more decimal digits, with or without a plus sign
/// before them, that stand for no more than `usize` can hold.
pub open spec fn number(s: Seq<char>) -> Option<nat> {
    let digits = unsigned(s);
    if digits.len() > 0 && all_digits(digits) && digits_value(digits) <= usize::MAX {
        Some(digits_value(digits))
    } else {
        None
    }
}

/// The number that `s` spells, if it spells one.
pub fn parse_number(s: &str) -> (n: Option<usize>)
    ensures
        match n {
            Some(n) => number(s@) == Some(n as nat),
            None => number(s@) is None,
        },
{
    let chars = chars_of(s);
    let first: usize = if chars.len() > 0 && chars[0] == '+' {
        1
    } else {
        0
    };
    let ghost digits = unsigned(s@);
    proof {
        assert(chars@.skip(first as int) =~= digits);
    }
    if chars.len() == first {
        return None;
    }
    let mut n: usize = 0;
    let mut i: usize = first;
    while i < chars.len()
        invariant
            first <= i <= chars.len(),
            digits == chars@.skip(first as int),
            digits == unsigned(s@),
            all_digits(digits.take(i - first)),
            n == digits_value(digits.take(i - first)),
        decreases chars.len() - i,
    {
        let c: char = chars[i];
        proof {
            assert(digits[i - first] == c);
            assert(digits.take(i - first + 1).drop_last() =~= digits.take(i - first));
            assert(digits.take(i - first + 1).last() == c);
        }
        if c < '0' || c > '9' {
            return None;
        }
        let d: usize = (c as u32 - 48) as usize;
        let more: Option<usize> = match n.checked_mul(10) {
            Some(tens) => tens.checked_add(d),
            None => None,
        };
        match more {
            Some(total) => {
                n = total;
            },
            None => {
                proof {
                    lemma_digits_grow(digits, i - first + 1);
                }
                return None;
            },
        }
        i = i + 1;
    }
    proof {
        assert(digits.take(i - first) =~= digits);
    }
    Some(n)
}

/// Digits that follow make a number no smaller.
proof fn lemma_digits_grow(s: Seq<char>, k: int)
    requires
        0 <= k <= s.len(),
    ensures
        digits_value(s.take(k)) <= digits_value(s),
    decreases s.len(),
{
    if k == s.len() {
        assert(s.take(k) =~= s);
    } else {
        lemma_digits_grow(s.drop_last(), k);
        assert(s.drop_last().take(k) =~= s.take(k));
    }
}

/// A number that was written down reads back as itself.
pub proof fn law_decimal_reads_back(n: nat)
    ensures
        all_digits(decimal(n)),
        decimal(n).len() > 0,
        digits_value(decimal(n)) == n,
        n <= usize::MAX ==> number(decimal(n)) == Some(n),
    decreases n,
{
    reveal_with_fuel(digits_value, 2);
    if n >= 10 {
        law_decimal_reads_back(n / 10);
        assert(decimal(n).drop_last() =~= decimal(n / 10));
    }
    assert('0' <= decimal(n)[0]);
}

// --- what words and numbers are ----------------------------------------------

/// White space is what Unicode lists as such: tab to carriage return, space, next line,
/// no-break space, ogham space, en quad to hair space, line and paragraph separator, narrow
/// no-break space, mathematical space and ideographic space.
pub proof fn law_white_space(c: char)
    ensures
        white(c) <==> {
            let code = c as u32;
            ||| code == 9 || code == 10 || code == 11 || code == 12 || code == 13
            ||| code == 32 || code == 133 || code == 160 || code == 5760
            ||| 8192 <= code && code <= 8202
            ||| code == 8232 || code == 8233 || code == 8239 || code == 8287 || code == 12288
        },
{
}

/// An empty text has no words, and a run of characters without white space is one.
pub proof fn law_a_run_is_one_word(s: Seq<char>)
    requires
        forall|i: int| 0 <= i < s.len() ==> !white(#[trigger] s[i]),
    ensures
        words(s) == (if s.len() == 0 {
            0nat
        } else {
            1nat
        }),
    decreases s.len(),
{
    if s.len() > 0 {
        let front = s.drop_last();
        assert forall|i: int| 0 <= i < front.len() implies !white(#[trigger] front[i]) by {
            assert(front[i] == s[i]);
        }
        law_a_run_is_one_word(front);
        if s.len() > 1 {
            assert(!white(s[s.len() - 2]));
        }
        assert(!white(s[s.len() - 1]));
    }
}

/// White space parts words: on both sides of it they are counted each by themselves.
pub proof fn law_white_space_parts_words(a: Seq<char>, c: char, b: Seq<char>)
    requires
        white(c),
    ensures
        words(a.push(c) + b) == words(a) + words(b),
    decreases b.len(),
{
    let whole = a.push(c) + b;
    if b.len() == 0 {
        assert(whole =~= a.push(c));
        law_typing_keeps_words(a, c);
    } else {
        let front = b.drop_last();
        law_white_space_parts_words(a, c, front);
        assert(whole.drop_last() =~= a.push(c) + front);
        assert(whole.last() == b.last());
        if b.len() > 1 {
            assert(whole[whole.len() - 2] == b[b.len() - 2]);
        } else {
            assert(whole[whole.len() - 2] == c);
        }
    }
}

/// A digit behind a number makes ten times as much of it, and adds its own value.
pub proof fn law_digits_count_in_tens(s: Seq<char>, c: char)
    requires
        '0' <= c <= '9',
    ensures
        digits_value(Seq::empty()) == 0,
        digits_value(s.push(c)) == 10 * digits_value(s) + (c as u32 - '0' as u32),
{
    assert(s.push(c).drop_last() =~= s);
}

/// A number is written in digits, the fewest that will do.
pub proof fn law_decimal_is_short(n: nat)
    ensures
        decimal(n).len() > 0,
        forall|i: int| 0 <= i < decimal(n).len() ==> '0' <= #[trigger] decimal(n)[i] <= '9',
        n > 0 ==> decimal(n)[0] != '0',
        n == 0 ==> decimal(n) == seq!['0'],
        digits_value(decimal(n)) == n,
    decreases n,
{
    law_decimal_reads_back(n);
    if n >= 10 {
        law_decimal_is_short(n / 10);
    }
}

/// What reads as a number: decimal digits, at least one, with or without a plus sign before
/// them, of a value that can be counted to; it reads as that value.
pub proof fn law_what_reads_as_a_number(digits: Seq<char>)
    requires
        digits.len() > 0 ==> digits[0] != '+',
    ensures
        number(digits) is Some <==> digits.len() > 0 && digits_value(digits) <= usize::MAX && forall|
            i: int,
        |
            0 <= i < digits.len() ==> '0' <= #[trigger] digits[i] <= '9',
        number(digits) matches Some(n) ==> n == digits_value(digits),
        number(seq!['+'] + digits) == number(digits),
        number(seq!['+', '+'] + digits) is None,
{
    assert((seq!['+'] + digits).skip(1) =~= digits);
    let twice = seq!['+', '+'] + digits;
    assert(twice.skip(1)[0] == '+');
}

/// A clock shows whole minutes, in two digits or as many as they need, a colon, and the
/// seconds of the minute in two digits.
pub proof fn law_clock_shows_minutes_and_seconds(secs: nat)
    ensures
        ({
            let shown = clock(secs);
            let n = shown.len() as int;
            &&& n >= 5
            &&& shown[n - 3] == ':'
            &&& forall|i: int|
                0 <= i < n && i != n - 3 ==> '0' <= #[trigger] shown[i] <= '9'
            &&& n > 5 ==> shown[0] != '0'
            &&& digits_value(shown.take(n - 3)) == secs / 60
            &&& digits_value(shown.skip(n - 2)) == secs % 60
        }),
{
    lemma_two_digits(secs / 60);
    lemma_two_digits(secs % 60);
    let minutes = two_digits(secs / 60);
    let seconds = two_digits(secs % 60);
    let shown = clock(secs);
    let n = shown.len() as int;
    lemma_decimal_of_two(secs % 60);
    assert(shown.take(n - 3) =~= minutes);
    assert(shown.skip(n - 2) =~= seconds);
    assert forall|i: int| 0 <= i < n && i != n - 3 implies '0' <= #[trigger] shown[i] <= '9' by {
        if i < n - 3 {
            assert(shown[i] == minutes[i]);
        } else {
            assert(shown[i] == seconds[i - (n - 2)]);
        }
    }
}

proof fn lemma_two_digits(n: nat)
    ensures
        two_digits(n).len() >= 2,
        two_digits(n).len() > 2 ==> two_digits(n)[0] != '0',
        forall|i: int| 0 <= i < two_digits(n).len() ==> '0' <= #[trigger] two_digits(n)[i] <= '9',
        digits_value(two_digits(n)) == n,
{
    law_decimal_is_short(n);
    if n < 10 {
        reveal_with_fuel(digits_value, 3);
        assert(two_digits(n).drop_last() =~= seq!['0']);
        assert(seq!['0'].drop_last() =~= Seq::<char>::empty());
    } else {
        law_decimal_is_short(n / 10);
    }
}

proof fn lemma_decimal_of_two(n: nat)
    requires
        n < 100,
    ensures
        two_digits(n).len() == 2,
{
    reveal_with_fuel(decimal, 2);
}

} // verus!
