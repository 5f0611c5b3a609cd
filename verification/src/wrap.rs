//! Word-wrapping of text into visual rows.

use crate::text::{chars_of, string_of};
use vstd::prelude::*;

verus! {

/// `s` cut at every occurrence of `sep`: one piece more than there are separators.
pub open spec fn split_on(s: Seq<char>, sep: char) -> Seq<Seq<char>>
    decreases s.len(),
{
    if s.len() == 0 {
        seq![Seq::empty()]
    } else {
        let pieces = split_on(s.drop_last(), sep);
        if s.last() == sep {
            pieces.push(Seq::empty())
        } else {
            pieces.drop_last().push(pieces.last().push(s.last()))
        }
    }
}

/// The contents of a list of character vectors.
pub open spec fn contents(pieces: Seq<Vec<char>>) -> Seq<Seq<char>> {
    pieces.map_values(|piece: Vec<char>| piece@)
}

/// A word cut into rows of exactly `width` characters, and a last one that may be shorter.
pub open spec fn chop(word: Seq<char>, width: nat) -> Seq<Seq<char>>
    decreases word.len(),
{
    if width == 0 || word.len() <= width {
        seq![word]
    } else {
        seq![word.take(width as int)] + chop(word.skip(width as int), width)
    }
}

/// A paragraph in the making: the rows that are full, and the row being filled.
pub ghost struct Filling {
    pub rows: Seq<Seq<char>>,
    pub current: Seq<char>,
}

/// The next word put into a paragraph: behind a space in the current row where it fits,
/// else in a row of its own, and over several rows where it is wider than one.
pub open spec fn place(filling: Filling, word: Seq<char>, width: nat) -> Filling {
    let Filling { rows, current } = filling;
    if word.len() > width {
        let flushed = if current.len() > 0 {
            rows.push(current)
        } else {
            rows
        };
        let pieces = chop(word, width);
        Filling { rows: flushed + pieces.drop_last(), current: pieces.last() }
    } else if current.len() == 0 {
        Filling { rows, current: word }
    } else if current.len() + 1 + word.len() <= width {
        Filling { rows, current: current.push(' ') + word }
    } else {
        Filling { rows: rows.push(current), current: word }
    }
}

/// All of `words` put into an empty paragraph, in order.
pub open spec fn fill(words: Seq<Seq<char>>, width: nat) -> Filling
    decreases words.len(),
{
    if words.len() == 0 {
        Filling { rows: Seq::empty(), current: Seq::empty() }
    } else {
        place(fill(words.drop_last(), width), words.last(), width)
    }
}

/// The rows of one logical line: its words, cut at single spaces, put into rows.
pub open spec fn wrap_line(line: Seq<char>, width: nat) -> Seq<Seq<char>> {
    let filling = fill(split_on(line, ' '), width);
    filling.rows.push(filling.current)
}

/// The rows of a list of logical lines, one line after the other.
pub open spec fn wrap_all(lines: Seq<Seq<char>>, width: nat) -> Seq<Seq<char>>
    decreases lines.len(),
{
    if lines.len() == 0 {
        Seq::empty()
    } else {
        wrap_all(lines.drop_last(), width) + wrap_line(lines.last(), width)
    }
}

/// The visual rows of `text` in `width` columns, of one character each, whatever its width
/// on the screen. There is no room for any character in no columns, and every logical line
/// is then an empty row.
pub open spec fn wrapped(text: Seq<char>, width: nat) -> Seq<Seq<char>> {
    if width == 0 {
        Seq::new(split_on(text, '\n').len(), |i: int| Seq::empty())
    } else {
        wrap_all(split_on(text, '\n'), width)
    }
}

/// The contents of a list of strings.
pub open spec fn texts(rows: Seq<String>) -> Seq<Seq<char>> {
    rows.map_values(|row: String| row@)
}

/// Cuts `chars` at every occurrence of `sep`.
fn split_chars(chars: &Vec<char>, sep: char) -> (pieces: Vec<Vec<char>>)
    ensures
        contents(pieces@) == split_on(chars@, sep),
{
    let mut pieces: Vec<Vec<char>> = Vec::new();
    let mut current: Vec<char> = Vec::new();
    let mut i: usize = 0;
    proof {
        assert(contents(pieces@).push(current@) =~= split_on(chars@.take(0), sep));
    }
    while i < chars.len()
        invariant
            i <= chars.len(),
            contents(pieces@).push(current@) == split_on(chars@.take(i as int), sep),
        decreases chars.len() - i,
    {
        let c: char = chars[i];
        proof {
            assert(chars@.take(i + 1).drop_last() =~= chars@.take(i as int));
        }
        let ghost before = contents(pieces@);
        if c == sep {
            pieces.push(current);
            proof {
                assert(contents(pieces@) =~= before.push(current@));
            }
            current = Vec::new();
        } else {
            let ghost word = current@;
            current.push(c);
            proof {
                assert(before.push(word).drop_last() =~= before);
            }
        }
        i = i + 1;
    }
    let ghost before = contents(pieces@);
    pieces.push(current);
    proof {
        assert(contents(pieces@) =~= before.push(current@));
        assert(chars@.take(i as int) =~= chars@);
    }
    pieces
}

/// Appends the string of `chars` from `from` up to `to` to `rows`.
fn push_row(rows: &mut Vec<String>, chars: &Vec<char>, from: usize, to: usize)
    requires
        from <= to <= chars.len(),
    ensures
        texts(final(rows)@) == texts(old(rows)@).push(chars@.subrange(from as int, to as int)),
{
    let ghost before = texts(rows@);
    let row = string_of(chars, from, to);
    rows.push(row);
    proof {
        assert(texts(rows@) =~= before.push(row@));
    }
}

/// Puts `word` into the paragraph that `rows` and `current` hold.
fn place_word(rows: &mut Vec<String>, current: &mut Vec<char>, word: &Vec<char>, width: usize)
    requires
        width > 0,
    ensures
        ({
            let before = Filling { rows: texts(old(rows)@), current: old(current)@ };
            let after = place(before, word@, width as nat);
            texts(final(rows)@) == after.rows && final(current)@ == after.current
        }),
{
    let ghost start = Filling { rows: texts(rows@), current: current@ };
    if word.len() > width {
        // A single word longer than the row: flush, then hard-break it.
        if current.len() > 0 {
            push_row(rows, current, 0, current.len());
            proof {
                assert(start.current.subrange(0, start.current.len() as int) =~= start.current);
            }
        }
        let ghost flushed = texts(rows@);
        let mut i: usize = 0;
        proof {
            assert(word@.skip(0) =~= word@);
        }
        while word.len() - i > width
            invariant
                width > 0,
                i <= word.len(),
                i < word.len() || word.len() == 0,
                texts(rows@) + chop(word@.skip(i as int), width as nat) == flushed + chop(
                    word@,
                    width as nat,
                ),
            decreases word.len() - i,
        {
            let ghost before = texts(rows@);
            push_row(rows, word, i, i + width);
            proof {
                let rest = word@.skip(i as int);
                assert(rest.take(width as int) =~= word@.subrange(i as int, i + width));
                assert(rest.skip(width as int) =~= word@.skip(i + width));
                assert(texts(rows@) + chop(rest.skip(width as int), width as nat) =~= before
                    + chop(rest, width as nat));
            }
            i = i + width;
        }
        current.clear();
        let mut k: usize = i;
        while k < word.len()
            invariant
                i <= k <= word.len(),
                current@ == word@.subrange(i as int, k as int),
            decreases word.len() - k,
        {
            current.push(word[k]);
            k = k + 1;
        }
        proof {
            let pieces = chop(word@, width as nat);
            assert(current@ =~= word@.skip(i as int));
            let whole = flushed + pieces;
            assert(whole =~= texts(rows@).push(current@));
            assert(whole.last() == pieces.last()) by {
                lemma_chop_is_not_empty(word@, width as nat);
            }
            assert(whole.drop_last() =~= flushed + pieces.drop_last());
            assert(texts(rows@) =~= whole.drop_last());
        }
        return;
    }
    let fits: bool = current.len() == 0 || current.len() < width && word.len() < width
        - current.len();
    if !fits {
        push_row(rows, current, 0, current.len());
        proof {
            assert(start.current.subrange(0, start.current.len() as int) =~= start.current);
        }
        current.clear();
    } else if current.len() > 0 {
        current.push(' ');
    }
    let ghost held = current@;
    let mut k: usize = 0;
    while k < word.len()
        invariant
            k <= word.len(),
            current@ == held + word@.take(k as int),
        decreases word.len() - k,
    {
        current.push(word[k]);
        k = k + 1;
    }
    proof {
        assert(word@.take(k as int) =~= word@);
        assert(Seq::<char>::empty() + word@ =~= word@);
    }
}

/// Appends the rows of one logical line to `rows`.
fn push_line(rows: &mut Vec<String>, line: &Vec<char>, width: usize)
    requires
        width > 0,
    ensures
        texts(final(rows)@) == texts(old(rows)@) + wrap_line(line@, width as nat),
{
    let ghost base = texts(rows@);
    let words = split_chars(line, ' ');
    let ghost pieces = contents(words@);
    let mut current: Vec<char> = Vec::new();
    let mut i: usize = 0;
    proof {
        assert(base + Seq::<Seq<char>>::empty() =~= base);
    }
    while i < words.len()
        invariant
            width > 0,
            i <= words.len(),
            pieces == contents(words@),
            texts(rows@) == base + fill(pieces.take(i as int), width as nat).rows,
            current@ == fill(pieces.take(i as int), width as nat).current,
        decreases words.len() - i,
    {
        proof {
            let filling = fill(pieces.take(i as int), width as nat);
            assert(pieces.take(i + 1).drop_last() =~= pieces.take(i as int));
            assert(pieces.take(i + 1).last() == words@[i as int]@);
            lemma_place_appends(base, filling, words@[i as int]@, width as nat);
        }
        place_word(rows, &mut current, &words[i], width);
        i = i + 1;
    }
    proof {
        assert(pieces.take(i as int) =~= pieces);
    }
    push_row(rows, &current, 0, current.len());
    proof {
        let filling = fill(pieces, width as nat);
        assert(current@.subrange(0, current@.len() as int) =~= current@);
        assert(texts(rows@) =~= base + filling.rows.push(filling.current));
    }
}

/// Word-wrap `text` to `width` columns, hard-breaking any word longer than the row. A
/// column is one character, whatever its width on the screen. The result is one string per
/// visual row, and always at least one row per logical line, so callers can rely on the
/// count for scrolling.
pub fn wrap_lines(text: &str, width: usize) -> (rows: Vec<String>)
    ensures
        texts(rows@) == wrapped(text@, width as nat),
{
    let mut rows: Vec<String> = Vec::new();
    let chars = chars_of(text);
    let lines = split_chars(&chars, '\n');
    let ghost pieces = contents(lines@);
    let mut i: usize = 0;
    if width == 0 {
        while i < lines.len()
            invariant
                i <= lines.len(),
                texts(rows@) == Seq::new(i as nat, |k: int| Seq::<char>::empty()),
            decreases lines.len() - i,
        {
            let ghost before = texts(rows@);
            rows.push(String::new());
            i = i + 1;
            proof {
                assert(texts(rows@) =~= before.push(Seq::empty()));
                assert(texts(rows@) =~= Seq::new(i as nat, |k: int| Seq::<char>::empty()));
            }
        }
        proof {
            assert(texts(rows@) =~= wrapped(text@, 0));
        }
        return rows;
    }
    proof {
        assert(texts(rows@) =~= wrap_all(pieces.take(0), width as nat));
    }
    while i < lines.len()
        invariant
            width > 0,
            i <= lines.len(),
            pieces == contents(lines@),
            texts(rows@) == wrap_all(pieces.take(i as int), width as nat),
        decreases lines.len() - i,
    {
        proof {
            assert(pieces.take(i + 1).drop_last() =~= pieces.take(i as int));
            assert(pieces.take(i + 1).last() == lines@[i as int]@);
        }
        push_line(&mut rows, &lines[i], width);
        i = i + 1;
    }
    proof {
        assert(pieces.take(i as int) =~= pieces);
    }
    rows
}

proof fn lemma_chop_is_not_empty(word: Seq<char>, width: nat)
    ensures
        chop(word, width).len() > 0,
    decreases word.len(),
{
}

/// What stands before a paragraph plays no part in how it is filled.
pub(crate) proof fn lemma_place_appends(
    base: Seq<Seq<char>>,
    filling: Filling,
    word: Seq<char>,
    width: nat,
)
    ensures
        ({
            let shifted = Filling { rows: base + filling.rows, current: filling.current };
            &&& place(shifted, word, width).rows == base + place(filling, word, width).rows
            &&& place(shifted, word, width).current == place(filling, word, width).current
        }),
{
    let shifted = Filling { rows: base + filling.rows, current: filling.current };
    assert(place(shifted, word, width).rows =~= base + place(filling, word, width).rows);
}

} // verus!
