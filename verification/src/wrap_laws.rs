//! What holds of every wrapped text.

use crate::wrap::{chop, fill, lemma_place_appends, place, split_on};
use crate::wrap::{texts, wrap_all, wrap_line, wrapped, Filling};
use vstd::prelude::*;
use vstd::seq_lib::lemma_flatten_concat;

verus! {

/// What is left of a text without its spaces and line ends.
pub open spec fn ink(s: Seq<char>) -> Seq<char> {
    s.filter(|c: char| c != ' ' && c != '\n')
}

/// How many line ends a text has.
pub open spec fn line_ends(s: Seq<char>) -> nat {
    s.filter(|c: char| c == '\n').len()
}

/// No row has more characters than the columns it was wrapped to.
pub proof fn law_rows_fit(text: Seq<char>, width: nat)
    ensures
        forall|i: int|
            0 <= i < wrapped(text, width).len() ==> (#[trigger] wrapped(text, width)[i]).len()
                <= width,
{
    if width > 0 {
        lemma_all_rows_fit(split_on(text, '\n'), width);
    }
}

/// There is always at least one row per logical line.
pub proof fn law_every_line_has_a_row(text: Seq<char>, width: nat)
    ensures
        wrapped(text, width).len() >= line_ends(text) + 1,
{
    lemma_split_counts(text);
    lemma_all_lines_have_rows(split_on(text, '\n'), width);
}

/// Wrapping neither loses, adds nor reorders anything but spaces and line ends.
pub proof fn law_wrapping_keeps_the_ink(text: Seq<char>, width: nat)
    requires
        width > 0,
    ensures
        ink(wrapped(text, width).flatten()) == ink(text),
{
    lemma_split_keeps_ink(text, '\n');
    lemma_wrap_all_keeps_ink(split_on(text, '\n'), width);
}

/// The last character typed, unless it is a space or a line end, ends the last row: the
/// rows at the bottom always show where the text has come to.
pub proof fn law_last_row_ends_with_last_character(text: Seq<char>, c: char, width: nat)
    requires
        width > 0,
        c != ' ',
        c != '\n',
    ensures
        wrapped(text.push(c), width).len() > 0,
        wrapped(text.push(c), width).last().len() > 0,
        wrapped(text.push(c), width).last().last() == c,
{
    let whole = text.push(c);
    lemma_split_is_not_empty(whole, '\n');
    lemma_last_piece_ends(text, c, '\n');
    let lines = split_on(whole, '\n');
    let line = lines.last();
    assert(line.drop_last().push(c) =~= line);
    lemma_line_ends_with(line.drop_last(), c, width);
    assert(wrapped(whole, width) == wrap_all(lines.drop_last(), width) + wrap_line(line, width));
}

/// A line that fits and does not begin with a space is one row, as it stands.
pub proof fn law_fitting_line_is_kept(line: Seq<char>, width: nat)
    requires
        width > 0,
        line.len() <= width,
        !line.contains('\n'),
        line.len() > 0 ==> line[0] != ' ',
    ensures
        wrapped(line, width) == seq![line],
{
    lemma_unsplit(line, '\n');
    lemma_join_undoes_split(line, ' ');
    lemma_split_is_not_empty(line, ' ');
    let words = split_on(line, ' ');
    if line.len() > 0 {
        lemma_first_word_is_not_empty(line);
    }
    lemma_fill_joins(words, width);
    assert(wrap_line(line, width) =~= seq![line]);
    assert(wrap_all(seq![line], width) =~= seq![line]) by {
        assert(seq![line].drop_last() =~= Seq::<Seq<char>>::empty());
        assert(wrap_all(seq![line].drop_last(), width) =~= Seq::<Seq<char>>::empty());
    }
}

/// Pieces joined by `sep`.
spec fn join(pieces: Seq<Seq<char>>, sep: char) -> Seq<char>
    decreases pieces.len(),
{
    if pieces.len() == 0 {
        Seq::empty()
    } else if pieces.len() == 1 {
        pieces[0]
    } else {
        join(pieces.drop_last(), sep).push(sep) + pieces.last()
    }
}

spec fn fits(rows: Seq<Seq<char>>, width: nat) -> bool {
    forall|i: int| 0 <= i < rows.len() ==> (#[trigger] rows[i]).len() <= width
}

proof fn lemma_split_is_not_empty(s: Seq<char>, sep: char)
    ensures
        split_on(s, sep).len() > 0,
    decreases s.len(),
{
    if s.len() > 0 {
        lemma_split_is_not_empty(s.drop_last(), sep);
    }
}

proof fn lemma_chop_fits(word: Seq<char>, width: nat)
    requires
        width > 0,
    ensures
        chop(word, width).len() > 0,
        fits(chop(word, width), width),
    decreases word.len(),
{
    if word.len() > width {
        lemma_chop_fits(word.skip(width as int), width);
    }
}

proof fn lemma_fill_fits(words: Seq<Seq<char>>, width: nat)
    requires
        width > 0,
    ensures
        fits(fill(words, width).rows, width),
        fill(words, width).current.len() <= width,
    decreases words.len(),
{
    if words.len() > 0 {
        lemma_fill_fits(words.drop_last(), width);
        lemma_chop_fits(words.last(), width);
    }
}

proof fn lemma_all_rows_fit(lines: Seq<Seq<char>>, width: nat)
    requires
        width > 0,
    ensures
        fits(wrap_all(lines, width), width),
    decreases lines.len(),
{
    if lines.len() > 0 {
        lemma_all_rows_fit(lines.drop_last(), width);
        lemma_fill_fits(split_on(lines.last(), ' '), width);
    }
}

proof fn lemma_split_counts(s: Seq<char>)
    ensures
        split_on(s, '\n').len() == line_ends(s) + 1,
    decreases s.len(),
{
    reveal(Seq::filter);
    if s.len() > 0 {
        lemma_split_counts(s.drop_last());
    }
}

proof fn lemma_all_lines_have_rows(lines: Seq<Seq<char>>, width: nat)
    ensures
        wrap_all(lines, width).len() >= lines.len(),
    decreases lines.len(),
{
    if lines.len() > 0 {
        lemma_all_lines_have_rows(lines.drop_last(), width);
    }
}

proof fn lemma_ink_adds(a: Seq<char>, b: Seq<char>)
    ensures
        ink(a + b) == ink(a) + ink(b),
{
    Seq::filter_distributes_over_add(a, b, |c: char| c != ' ' && c != '\n');
}

proof fn lemma_ink_pushes(s: Seq<char>, c: char)
    ensures
        ink(s.push(c)) == (if c != ' ' && c != '\n' {
            ink(s).push(c)
        } else {
            ink(s)
        }),
{
    reveal(Seq::filter);
    assert(s.push(c).drop_last() =~= s);
}

proof fn lemma_flatten_pushes(pieces: Seq<Seq<char>>, piece: Seq<char>)
    ensures
        pieces.push(piece).flatten() == pieces.flatten() + piece,
{
    pieces.lemma_flatten_push(piece);
}

proof fn lemma_split_keeps_ink(s: Seq<char>, sep: char)
    requires
        sep == ' ' || sep == '\n',
    ensures
        ink(split_on(s, sep).flatten()) == ink(s),
    decreases s.len(),
{
    if s.len() == 0 {
        lemma_flatten_pushes(Seq::empty(), Seq::empty());
        assert(Seq::<Seq<char>>::empty().push(Seq::empty()) =~= split_on(s, sep));
        assert(split_on(s, sep).flatten() =~= s);
    } else {
        let pieces = split_on(s.drop_last(), sep);
        lemma_split_keeps_ink(s.drop_last(), sep);
        lemma_ink_pushes(s.drop_last(), s.last());
        assert(s.drop_last().push(s.last()) =~= s);
        if s.last() == sep {
            lemma_flatten_pushes(pieces, Seq::empty());
            assert(pieces.push(Seq::empty()).flatten() =~= pieces.flatten());
        } else {
            lemma_split_is_not_empty(s.drop_last(), sep);
            let last = pieces.last();
            lemma_flatten_pushes(pieces.drop_last(), last);
            lemma_flatten_pushes(pieces.drop_last(), last.push(s.last()));
            assert(pieces.drop_last().push(last) =~= pieces);
            assert(split_on(s, sep).flatten() =~= pieces.flatten().push(s.last()));
            lemma_ink_pushes(pieces.flatten(), s.last());
        }
    }
}

proof fn lemma_chop_keeps_word(word: Seq<char>, width: nat)
    ensures
        chop(word, width).len() > 0,
        chop(word, width).flatten() == word,
    decreases word.len(),
{
    if width == 0 || word.len() <= width {
        lemma_flatten_pushes(Seq::empty(), word);
        assert(Seq::<Seq<char>>::empty().push(word) =~= chop(word, width));
        assert(Seq::<char>::empty() + word =~= word);
    } else {
        let rest = word.skip(width as int);
        lemma_chop_keeps_word(rest, width);
        assert(chop(word, width).drop_first() =~= chop(rest, width));
        assert(word.take(width as int) + rest =~= word);
    }
}

proof fn lemma_place_keeps_ink(filling: Filling, word: Seq<char>, width: nat)
    ensures
        ({
            let after = place(filling, word, width);
            ink(after.rows.flatten() + after.current) == ink(
                filling.rows.flatten() + filling.current,
            ) + ink(word)
        }),
{
    let Filling { rows, current } = filling;
    let before = rows.flatten() + current;
    let after = place(filling, word, width);
    lemma_flatten_pushes(rows, current);
    lemma_ink_adds(before, word);
    if word.len() > width {
        let flushed = if current.len() > 0 {
            rows.push(current)
        } else {
            rows
        };
        assert(flushed.flatten() =~= before);
        let pieces = chop(word, width);
        lemma_chop_keeps_word(word, width);
        lemma_flatten_concat(flushed, pieces.drop_last());
        lemma_flatten_pushes(pieces.drop_last(), pieces.last());
        assert(pieces.drop_last().push(pieces.last()) =~= pieces);
        assert(after.rows.flatten() + after.current =~= before + word);
    } else if current.len() == 0 {
        assert(after.rows.flatten() + after.current =~= before + word);
    } else if current.len() + 1 + word.len() <= width {
        assert(after.rows.flatten() + after.current =~= before.push(' ') + word);
        lemma_ink_adds(before.push(' '), word);
        lemma_ink_pushes(before, ' ');
    } else {
        assert(after.rows.flatten() + after.current =~= before + word);
    }
}

proof fn lemma_fill_keeps_ink(words: Seq<Seq<char>>, width: nat)
    ensures
        ({
            let filling = fill(words, width);
            ink(filling.rows.flatten() + filling.current) == ink(words.flatten())
        }),
    decreases words.len(),
{
    if words.len() == 0 {
        let filling = fill(words, width);
        assert(filling.rows.flatten() + filling.current =~= words.flatten());
    } else {
        lemma_fill_keeps_ink(words.drop_last(), width);
        lemma_place_keeps_ink(fill(words.drop_last(), width), words.last(), width);
        lemma_flatten_pushes(words.drop_last(), words.last());
        assert(words.drop_last().push(words.last()) =~= words);
        lemma_ink_adds(words.drop_last().flatten(), words.last());
    }
}

proof fn lemma_wrap_all_keeps_ink(lines: Seq<Seq<char>>, width: nat)
    ensures
        ink(wrap_all(lines, width).flatten()) == ink(lines.flatten()),
    decreases lines.len(),
{
    if lines.len() > 0 {
        let line = lines.last();
        let words = split_on(line, ' ');
        let filling = fill(words, width);
        lemma_wrap_all_keeps_ink(lines.drop_last(), width);
        lemma_split_keeps_ink(line, ' ');
        lemma_fill_keeps_ink(words, width);
        lemma_flatten_pushes(filling.rows, filling.current);
        lemma_flatten_concat(wrap_all(lines.drop_last(), width), wrap_line(line, width));
        lemma_ink_adds(
            wrap_all(lines.drop_last(), width).flatten(),
            wrap_line(line, width).flatten(),
        );
        lemma_flatten_pushes(lines.drop_last(), line);
        assert(lines.drop_last().push(line) =~= lines);
        lemma_ink_adds(lines.drop_last().flatten(), line);
    } else {
        assert(wrap_all(lines, width).flatten() =~= lines.flatten());
    }
}

proof fn lemma_last_piece_ends(s: Seq<char>, c: char, sep: char)
    requires
        c != sep,
    ensures
        split_on(s.push(c), sep).len() > 0,
        split_on(s.push(c), sep).last().len() > 0,
        split_on(s.push(c), sep).last().last() == c,
{
    assert(s.push(c).drop_last() =~= s);
}

proof fn lemma_chop_ends(word: Seq<char>, width: nat)
    requires
        width > 0,
        word.len() > 0,
    ensures
        chop(word, width).len() > 0,
        chop(word, width).last().len() > 0,
        chop(word, width).last().last() == word.last(),
    decreases word.len(),
{
    if word.len() > width {
        lemma_chop_ends(word.skip(width as int), width);
    }
}

proof fn lemma_line_ends_with(line: Seq<char>, c: char, width: nat)
    requires
        width > 0,
        c != ' ',
    ensures
        wrap_line(line.push(c), width).len() > 0,
        wrap_line(line.push(c), width).last().len() > 0,
        wrap_line(line.push(c), width).last().last() == c,
{
    lemma_last_piece_ends(line, c, ' ');
    let words = split_on(line.push(c), ' ');
    lemma_chop_ends(words.last(), width);
}

proof fn lemma_unsplit(s: Seq<char>, sep: char)
    requires
        !s.contains(sep),
    ensures
        split_on(s, sep) == seq![s],
    decreases s.len(),
{
    if s.len() > 0 {
        assert(s.contains(s.last()));
        assert forall|c: char| s.drop_last().contains(c) implies s.contains(c) by {
            let i = choose|i: int| 0 <= i < s.drop_last().len() && s.drop_last()[i] == c;
            assert(s[i] == c);
        }
        lemma_unsplit(s.drop_last(), sep);
        assert(s.drop_last().push(s.last()) =~= s);
        assert(split_on(s, sep) =~= seq![s]);
    } else {
        assert(s =~= Seq::<char>::empty());
        assert(split_on(s, sep) =~= seq![s]);
    }
}

proof fn lemma_join_undoes_split(s: Seq<char>, sep: char)
    ensures
        join(split_on(s, sep), sep) == s,
    decreases s.len(),
{
    if s.len() > 0 {
        let pieces = split_on(s.drop_last(), sep);
        lemma_join_undoes_split(s.drop_last(), sep);
        lemma_split_is_not_empty(s.drop_last(), sep);
        if s.last() == sep {
            assert(pieces.push(Seq::empty()).drop_last() =~= pieces);
            assert(join(split_on(s, sep), sep) =~= s);
        } else {
            let longer = pieces.drop_last().push(pieces.last().push(s.last()));
            assert(longer.drop_last() =~= pieces.drop_last());
            assert(s.drop_last().push(s.last()) =~= s);
            if pieces.len() > 1 {
                assert(join(longer, sep) =~= join(pieces, sep).push(s.last()));
            }
        }
    }
}

proof fn lemma_first_word_is_not_empty(s: Seq<char>)
    requires
        s.len() > 0,
        s[0] != ' ',
    ensures
        split_on(s, ' ').len() > 0,
        split_on(s, ' ')[0].len() > 0,
    decreases s.len(),
{
    lemma_split_is_not_empty(s.drop_last(), ' ');
    if s.len() > 1 {
        lemma_first_word_is_not_empty(s.drop_last());
    }
}

proof fn lemma_fill_joins(words: Seq<Seq<char>>, width: nat)
    requires
        words.len() > 0,
        words.len() > 1 ==> words[0].len() > 0,
        join(words, ' ').len() <= width,
    ensures
        fill(words, width).rows == Seq::<Seq<char>>::empty(),
        fill(words, width).current == join(words, ' '),
    decreases words.len(),
{
    if words.len() > 1 {
        let front = words.drop_last();
        lemma_fill_joins(front, width);
        lemma_join_is_not_empty(front);
    } else {
        assert(fill(words.drop_last(), width).rows =~= Seq::<Seq<char>>::empty());
    }
}

proof fn lemma_join_is_not_empty(words: Seq<Seq<char>>)
    requires
        words.len() > 0,
        words[0].len() > 0,
    ensures
        join(words, ' ').len() > 0,
{
}

// --- where the rows stand in the text ----------------------------------------

/// Whether `text` has a character of a word at index `i`: neither a space nor a line end.
pub open spec fn in_word(text: Seq<char>, i: int) -> bool {
    0 <= i < text.len() && text[i] != ' ' && text[i] != '\n'
}

/// Whether `text` has nothing but spaces from index `from` up to `to`.
pub open spec fn only_spaces(text: Seq<char>, from: int, to: int) -> bool {
    forall|i: int| from <= i < to ==> 0 <= i < text.len() && #[trigger] text[i] == ' '
}

/// Whether a row that stands in `text` from `row.0` up to `row.1` ends there for a good
/// reason, and the row after it begins where it should.
pub open spec fn parted(text: Seq<char>, width: nat, row: (int, int), next: (int, int)) -> bool {
    &&& 0 <= row.1 < text.len()
    &&& {
        // The logical line ends; spaces at the beginning of the next one are dropped.
        ||| text[row.1] == '\n' && row.1 < next.0 && only_spaces(text, row.1 + 1, next.0)
        // At a space, and only because the word behind it would not have fitted: it takes
        // up every column that is left, and goes on beyond them.
        ||| text[row.1] == ' ' && row.1 < next.0 && only_spaces(text, row.1, next.0) && forall|
            i: int,
        |
            row.1 < i <= row.0 + width ==> #[trigger] in_word(text, i)
        // Inside a word that alone fills the row and goes on.
        ||| next.0 == row.1 && row.1 == row.0 + width && forall|i: int|
            row.0 <= i <= row.1 ==> #[trigger] in_word(text, i)
    }
}

/// Whether `rows` stand in `text` at `places`, each from the first index of a pair up to the
/// second, as wrapping to `width` columns wants it.
pub open spec fn laid_out(
    text: Seq<char>,
    width: nat,
    rows: Seq<Seq<char>>,
    places: Seq<(int, int)>,
) -> bool {
    &&& places.len() == rows.len() > 0
    &&& only_spaces(text, 0, places[0].0)
    &&& places.last().1 == text.len()
    &&& forall|i: int|
        0 <= i < rows.len() ==> row_stands(text, width, #[trigger] rows[i], places[i])
    &&& forall|i: int|
        0 <= i < rows.len() - 1 ==> parted(text, width, #[trigger] places[i], places[i + 1])
}

/// Whether `row` is what stands in `text` at `place`, within one logical line and `width`
/// columns, and does not begin with a space.
pub open spec fn row_stands(
    text: Seq<char>,
    width: nat,
    row: Seq<char>,
    place: (int, int),
) -> bool {
    &&& 0 <= place.0 <= place.1 <= text.len()
    &&& place.1 - place.0 <= width
    &&& row == text.subrange(place.0, place.1)
    &&& place.0 < text.len() ==> text[place.0] != ' '
    &&& forall|i: int| place.0 <= i < place.1 ==> #[trigger] text[i] != '\n'
}

/// Every row is a piece of the text as it stands, in order, and only spaces and line ends
/// are left out between them. A row ends at a line end; at a space, where the next word
/// would not have fitted behind it; or inside a word that is longer than a row and fills
/// it. So no word that fits in a row is split, and every row takes as many words as fit.
pub proof fn law_rows_are_pieces_of_the_text(text: Seq<char>, width: nat) -> (places: Seq<
    (int, int),
>)
    requires
        width > 0,
    ensures
        laid_out(text, width, wrapped(text, width), places),
{
    let lines = split_on(text, '\n');
    lemma_split_is_not_empty(text, '\n');
    lemma_join_undoes_split(text, '\n');
    assert forall|i: int| 0 <= i < lines.len() implies !(#[trigger] lines[i]).contains('\n') by {
        lemma_pieces_are_clean(text, '\n', '\n', i);
    }
    lemma_lines_laid_out(lines, width)
}

/// In no columns every logical line is one empty row.
pub proof fn law_no_columns_no_characters(text: Seq<char>)
    ensures
        wrapped(text, 0).len() == line_ends(text) + 1,
        forall|i: int|
            0 <= i < wrapped(text, 0).len() ==> (#[trigger] wrapped(text, 0)[i]).len() == 0,
{
    lemma_split_counts(text);
}

/// A word of at most `width` characters lies whole in one row.
#[verifier::spinoff_prover]
#[verifier::rlimit(40)]
pub proof fn law_short_words_stay_whole(text: Seq<char>, width: nat, from: int, to: int) -> (at: (
    int,
    int,
))
    requires
        0 <= from < to <= text.len(),
        to - from <= width,
        forall|i: int| from <= i < to ==> #[trigger] in_word(text, i),
        !in_word(text, from - 1),
        !in_word(text, to),
    ensures
        0 <= at.0 < wrapped(text, width).len(),
        0 <= at.1 <= at.1 + (to - from) <= wrapped(text, width)[at.0].len(),
        wrapped(text, width)[at.0].subrange(at.1, at.1 + (to - from)) == text.subrange(from, to),
{
    let rows = wrapped(text, width);
    let places = law_rows_are_pieces_of_the_text(text, width);
    let i = lemma_place_of(text, width, rows, places, from, rows.len() - 1);
    assert(row_stands(text, width, rows[i], places[i]));
    assert(in_word(text, from));
    if to > places[i].1 {
        assert(i < rows.len() - 1);
        assert(parted(text, width, places[i], places[i + 1]));
        assert(in_word(text, places[i].1));
        assert(in_word(text, places[i].0));
        if places[i].0 < from {
            assert(in_word(text, from - 1));
        }
    }
    let at = (i, from - places[i].0);
    assert(rows[i].subrange(at.1, at.1 + (to - from)) =~= text.subrange(from, to));
    at
}

/// Every character of a word is in a row.
proof fn lemma_place_of(
    text: Seq<char>,
    width: nat,
    rows: Seq<Seq<char>>,
    places: Seq<(int, int)>,
    at: int,
    last: int,
) -> (i: int)
    requires
        laid_out(text, width, rows, places),
        in_word(text, at),
        0 <= last < rows.len(),
        at < places[last].1,
    ensures
        0 <= i < rows.len(),
        places[i].0 <= at < places[i].1,
    decreases last,
{
    if places[last].0 <= at {
        last
    } else {
        if last == 0 {
            assert(text[at] == ' ');
            0
        } else {
            assert(parted(text, width, places[last - 1], places[last - 1 + 1]));
            if at >= places[last - 1].1 {
                assert(text[at] != ' ');
            }
            lemma_place_of(text, width, rows, places, at, last - 1)
        }
    }
}

/// There is only one way to lay a text out.
#[verifier::spinoff_prover]
#[verifier::rlimit(40)]
pub proof fn law_only_one_layout(
    text: Seq<char>,
    width: nat,
    rows: Seq<Seq<char>>,
    places: Seq<(int, int)>,
)
    requires
        width > 0,
        laid_out(text, width, rows, places),
    ensures
        rows == wrapped(text, width),
{
    let ours = law_rows_are_pieces_of_the_text(text, width);
    let made = wrapped(text, width);
    lemma_same_places(text, width, rows, places, made, ours, 0);
    assert(rows =~= made) by {
        assert forall|i: int| 0 <= i < rows.len() implies rows[i] == made[i] by {
            assert(row_stands(text, width, rows[i], places[i]));
            assert(row_stands(text, width, made[i], ours[i]));
        }
    }
}

/// Two layouts of a text agree from row `i` on where they agree on its beginning.
#[verifier::spinoff_prover]
#[verifier::rlimit(40)]
proof fn lemma_same_places(
    text: Seq<char>,
    width: nat,
    rows1: Seq<Seq<char>>,
    one: Seq<(int, int)>,
    rows2: Seq<Seq<char>>,
    two: Seq<(int, int)>,
    i: int,
)
    requires
        width > 0,
        laid_out(text, width, rows1, one),
        laid_out(text, width, rows2, two),
        0 <= i < one.len(),
        i < two.len(),
        i > 0 ==> one[i].0 == two[i].0,
        forall|k: int| 0 <= k < i ==> #[trigger] one[k] == two[k],
    ensures
        one == two,
    decreases one.len() - i,
{
    assert(row_stands(text, width, rows1[i], one[i]));
    assert(row_stands(text, width, rows2[i], two[i]));
    if i == 0 {
        if one[0].0 < two[0].0 {
            assert(text[one[0].0] == ' ');
        }
        if two[0].0 < one[0].0 {
            assert(text[two[0].0] == ' ');
        }
    }
    lemma_row_ends_here(text, width, rows1, one, rows2, two, i);
    lemma_row_ends_here(text, width, rows2, two, rows1, one, i);
    assert(one[i] == two[i]);
    if i < one.len() - 1 {
        assert(parted(text, width, one[i], one[i + 1]));
    }
    if i < two.len() - 1 {
        assert(parted(text, width, two[i], two[i + 1]));
    }
    if i == one.len() - 1 || i == two.len() - 1 {
        assert(one.len() == two.len());
        assert(one =~= two);
    } else {
        assert(row_stands(text, width, rows1[i + 1], one[i + 1]));
        assert(row_stands(text, width, rows2[i + 1], two[i + 1]));
        lemma_next_begins_here(text, width, one[i], one[i + 1], two[i + 1]);
        lemma_same_places(text, width, rows1, one, rows2, two, i + 1);
    }
}

/// Where the row after a row begins is settled by where that row stands.
proof fn lemma_next_begins_here(
    text: Seq<char>,
    width: nat,
    row: (int, int),
    a: (int, int),
    b: (int, int),
)
    requires
        width > 0,
        parted(text, width, row, a),
        parted(text, width, row, b),
        a.0 < text.len() ==> text[a.0] != ' ',
        b.0 < text.len() ==> text[b.0] != ' ',
        row.0 <= row.1,
        a.0 <= text.len(),
        b.0 <= text.len(),
    ensures
        a.0 == b.0,
{
    let inside = in_word(text, row.1);
    assert(inside ==> a.0 == b.0);
    if a.0 < b.0 {
        assert(text[a.0] == ' ');
    }
    if b.0 < a.0 {
        assert(text[b.0] == ' ');
    }
}

/// Of two layouts whose row `i` begins at the same place, the first ends it no earlier.
#[verifier::spinoff_prover]
#[verifier::rlimit(40)]
proof fn lemma_row_ends_here(
    text: Seq<char>,
    width: nat,
    rows1: Seq<Seq<char>>,
    one: Seq<(int, int)>,
    rows2: Seq<Seq<char>>,
    two: Seq<(int, int)>,
    i: int,
)
    requires
        width > 0,
        laid_out(text, width, rows1, one),
        laid_out(text, width, rows2, two),
        0 <= i < one.len(),
        i < two.len(),
        one[i].0 == two[i].0,
    ensures
        one[i].1 >= two[i].1,
{
    assert(row_stands(text, width, rows1[i], one[i]));
    assert(row_stands(text, width, rows2[i], two[i]));
    let begin = one[i].0;
    let e = one[i].1;
    let f = two[i].1;
    if e < f {
        assert(i < one.len() - 1);
        assert(parted(text, width, one[i], one[i + 1]));
        assert(text[e] != '\n');
        // The first ends at a space, and the word behind it goes on beyond the row.
        assert(f <= begin + width);
        assert(text[e] == ' ');
        if f == text.len() {
            if f > e {
                assert(in_word(text, f));
            }
        } else {
            assert(i < two.len() - 1 || two.last().1 == text.len());
            assert(in_word(text, f));
            assert(parted(text, width, two[i], two[i + 1]));
            assert(in_word(text, e));
        }
    }
}

// What follows shows that rows are laid out, word by word.

/// No piece has a separator, nor a character that the whole has not.
proof fn lemma_pieces_are_clean(s: Seq<char>, sep: char, c: char, i: int)
    requires
        c == sep || !s.contains(c),
        0 <= i < split_on(s, sep).len(),
    ensures
        !split_on(s, sep)[i].contains(c),
    decreases s.len(),
{
    if s.len() > 0 {
        let front = s.drop_last();
        let pieces = split_on(front, sep);
        lemma_split_is_not_empty(front, sep);
        if front.contains(c) {
            let j = choose|j: int| 0 <= j < front.len() && front[j] == c;
            assert(s[j] == c);
        }
        if i < pieces.len() {
            lemma_pieces_are_clean(front, sep, c, i);
            let piece = split_on(s, sep)[i];
            if piece.contains(c) {
                let j = choose|j: int| 0 <= j < piece.len() && piece[j] == c;
                if j < pieces[i].len() {
                    assert(pieces[i][j] == c);
                } else {
                    assert(s[s.len() - 1] == c);
                }
            }
        }
    }
}

spec fn wordy(w: Seq<char>) -> bool {
    forall|i: int| 0 <= i < w.len() ==> #[trigger] w[i] != ' ' && w[i] != '\n'
}

/// What was laid out stays so as more text follows, if the last row is not cut short.
#[verifier::spinoff_prover]
#[verifier::rlimit(40)]
proof fn lemma_rows_stay(
    text: Seq<char>,
    more: Seq<char>,
    width: nat,
    rows: Seq<Seq<char>>,
    places: Seq<(int, int)>,
)
    requires
        laid_out(text, width, rows, places),
    ensures
        forall|i: int|
            0 <= i < rows.len() && (places[i].0 < text.len() || more.len() == 0 || more[0] != ' ')
                ==> row_stands(text + more, width, #[trigger] rows[i], places[i]),
        forall|i: int|
            0 <= i < rows.len() - 1 ==> parted(
                text + more,
                width,
                #[trigger] places[i],
                places[i + 1],
            ),
        only_spaces(text + more, 0, places[0].0),
{
    let whole = text + more;
    assert forall|i: int|
        0 <= i < rows.len() && (places[i].0 < text.len() || more.len() == 0 || more[0] != ' ')
        implies row_stands(whole, width, #[trigger] rows[i], places[i]) by {
        assert(row_stands(text, width, rows[i], places[i]));
        assert(whole.subrange(places[i].0, places[i].1) =~= rows[i]);
        assert forall|k: int| places[i].0 <= k < places[i].1 implies #[trigger] whole[k] != '\n' by {
            assert(whole[k] == text[k]);
        }
    }
    assert forall|i: int| 0 <= i < rows.len() - 1 implies parted(
        whole,
        width,
        #[trigger] places[i],
        places[i + 1],
    ) by {
        let row = places[i];
        let next = places[i + 1];
        assert(parted(text, width, row, next));
        assert(row_stands(text, width, rows[i + 1], next));
        assert forall|k: int| in_word(text, k) implies #[trigger] in_word(whole, k) by {}
        if text[row.1] == '\n' && row.1 < next.0 && only_spaces(text, row.1 + 1, next.0) {
            assert forall|k: int| row.1 + 1 <= k < next.0 implies #[trigger] whole[k] == ' ' by {
                assert(text[k] == ' ');
            }
        } else if text[row.1] == ' ' {
            assert forall|k: int| row.1 <= k < next.0 implies #[trigger] whole[k] == ' ' by {
                assert(text[k] == ' ');
            }
            assert forall|k: int| row.1 < k <= row.0 + width implies #[trigger] in_word(
                whole,
                k,
            ) by {
                assert(in_word(text, k));
            }
        } else {
            assert forall|k: int| row.0 <= k <= row.1 implies #[trigger] in_word(whole, k) by {
                assert(in_word(text, k));
            }
        }
    }
    assert(row_stands(text, width, rows[0], places[0]));
    assert forall|k: int| 0 <= k < places[0].0 implies #[trigger] whole[k] == ' ' by {
        assert(text[k] == ' ');
    }
}

/// The last row takes more.
#[verifier::spinoff_prover]
#[verifier::rlimit(40)]
proof fn lemma_row_grows(
    text: Seq<char>,
    more: Seq<char>,
    width: nat,
    rows: Seq<Seq<char>>,
    places: Seq<(int, int)>,
) -> (after: Seq<(int, int)>)
    requires
        laid_out(text, width, rows, places),
        rows.last().len() + more.len() <= width,
        rows.last().len() == 0 && more.len() > 0 ==> more[0] != ' ',
        !more.contains('\n'),
    ensures
        laid_out(text + more, width, rows.drop_last().push(rows.last() + more), after),
{
    let whole = text + more;
    let n = rows.len() - 1;
    let begin = places[n].0;
    let place = (begin, whole.len() as int);
    let after = places.drop_last().push(place);
    let longer = rows.drop_last().push(rows.last() + more);
    assert(row_stands(text, width, rows[n], places[n]));
    lemma_rows_stay(text, more, width, rows, places);
    assert(whole.subrange(begin, whole.len() as int) =~= rows[n] + more);
    assert forall|k: int| begin <= k < whole.len() implies #[trigger] whole[k] != '\n' by {
        if k < text.len() {
            assert(text[k] != '\n');
        } else {
            assert(more[k - text.len()] == whole[k]);
        }
    }
    assert forall|i: int| 0 <= i < longer.len() implies row_stands(
        whole,
        width,
        #[trigger] longer[i],
        after[i],
    ) by {
        if i < n {
            assert(row_stands(text, width, rows[i], places[i]));
            assert(parted(text, width, places[i], places[i + 1]));
            assert(row_stands(whole, width, rows[i], places[i]));
        }
    }
    assert forall|i: int| 0 <= i < longer.len() - 1 implies parted(
        whole,
        width,
        #[trigger] after[i],
        after[i + 1],
    ) by {
        assert(parted(whole, width, places[i], places[i + 1]));
    }
    after
}

/// A space before an empty last row is dropped.
#[verifier::spinoff_prover]
#[verifier::rlimit(40)]
proof fn lemma_space_is_dropped(
    text: Seq<char>,
    width: nat,
    rows: Seq<Seq<char>>,
    places: Seq<(int, int)>,
) -> (after: Seq<(int, int)>)
    requires
        laid_out(text, width, rows, places),
        rows.last().len() == 0,
    ensures
        laid_out(text.push(' '), width, rows, after),
{
    let whole = text.push(' ');
    let n = rows.len() - 1;
    let end = text.len() as int;
    let after = places.drop_last().push((end + 1, end + 1));
    assert(whole =~= text + seq![' ']);
    assert(row_stands(text, width, rows[n], places[n]));
    lemma_rows_stay(text, seq![' '], width, rows, places);
    assert(whole.subrange(end + 1, end + 1) =~= rows[n]);
    assert forall|i: int| 0 <= i < rows.len() implies row_stands(
        whole,
        width,
        #[trigger] rows[i],
        after[i],
    ) by {
        if i < n {
            assert(row_stands(text, width, rows[i], places[i]));
            assert(parted(text, width, places[i], places[i + 1]));
            assert(row_stands(whole, width, rows[i], places[i]));
        }
    }
    assert forall|i: int| 0 <= i < rows.len() - 1 implies parted(
        whole,
        width,
        #[trigger] after[i],
        after[i + 1],
    ) by {
        let row = places[i];
        assert(parted(text, width, row, places[i + 1]));
        assert(parted(whole, width, row, places[i + 1]));
        if i == n - 1 {
            if text[row.1] == '\n' {
                assert(only_spaces(whole, row.1 + 1, end + 1));
            } else if text[row.1] == ' ' {
                assert(only_spaces(whole, row.1, end + 1));
            } else {
                assert(in_word(text, row.1));
            }
        }
    }
    after
}

/// A word that does not fit behind a space begins a new row.
#[verifier::spinoff_prover]
#[verifier::rlimit(40)]
proof fn lemma_word_begins_row(
    text: Seq<char>,
    w: Seq<char>,
    width: nat,
    rows: Seq<Seq<char>>,
    places: Seq<(int, int)>,
) -> (after: Seq<(int, int)>)
    requires
        laid_out(text, width, rows, places),
        wordy(w),
        0 < rows.last().len(),
        w.len() <= width < rows.last().len() + 1 + w.len(),
    ensures
        laid_out(text.push(' ') + w, width, rows.push(w), after),
{
    let more = seq![' '] + w;
    let whole = text.push(' ') + w;
    let n = rows.len() - 1;
    let end = text.len() as int;
    let place = (end + 1, whole.len() as int);
    let after = places.push(place);
    let longer = rows.push(w);
    assert(whole =~= text + more);
    assert(row_stands(text, width, rows[n], places[n]));
    lemma_rows_stay(text, more, width, rows, places);
    assert(whole.subrange(end + 1, whole.len() as int) =~= w);
    assert forall|k: int| end + 1 <= k < whole.len() implies #[trigger] in_word(whole, k) by {
        assert(whole[k] == w[k - end - 1]);
    }
    assert forall|k: int| end + 1 <= k < whole.len() implies #[trigger] whole[k] != '\n' by {
        assert(in_word(whole, k));
    }
    if place.0 < whole.len() {
        assert(in_word(whole, place.0));
    }
    assert(row_stands(whole, width, w, place));
    assert forall|i: int| 0 <= i < longer.len() implies row_stands(
        whole,
        width,
        #[trigger] longer[i],
        after[i],
    ) by {
        if i <= n {
            assert(row_stands(text, width, rows[i], places[i]));
            if i < n {
                assert(parted(text, width, places[i], places[i + 1]));
            }
            assert(row_stands(whole, width, rows[i], places[i]));
        }
    }
    assert(whole[end] == ' ');
    assert(parted(whole, width, places[n], place));
    assert forall|i: int| 0 <= i < longer.len() - 1 implies parted(
        whole,
        width,
        #[trigger] after[i],
        after[i + 1],
    ) by {
        if i < n {
            assert(parted(whole, width, places[i], places[i + 1]));
        }
    }
    after
}

/// A word that fills the last row goes on in rows of its own.
#[verifier::spinoff_prover]
#[verifier::rlimit(40)]
proof fn lemma_word_goes_on(
    text: Seq<char>,
    w: Seq<char>,
    width: nat,
    rows: Seq<Seq<char>>,
    places: Seq<(int, int)>,
) -> (after: Seq<(int, int)>)
    requires
        width > 0,
        laid_out(text, width, rows, places),
        wordy(rows.last()),
        rows.last().len() == width,
        wordy(w),
        w.len() > 0,
    ensures
        laid_out(text + w, width, rows + chop(w, width), after),
    decreases w.len(),
{
    let part = if w.len() <= width {
        w
    } else {
        w.take(width as int)
    };
    let whole = text + part;
    let n = rows.len() - 1;
    let end = text.len() as int;
    let place = (end, whole.len() as int);
    let after = places.push(place);
    let longer = rows.push(part);
    assert(row_stands(text, width, rows[n], places[n]));
    lemma_rows_stay(text, part, width, rows, places);
    assert(whole.subrange(end, whole.len() as int) =~= part);
    let begin = places[n].0;
    assert forall|k: int| begin <= k < whole.len() implies #[trigger] in_word(whole, k) by {
        if k < end {
            assert(whole[k] == rows[n][k - begin]);
        } else {
            assert(whole[k] == part[k - end]);
            assert(part[k - end] == w[k - end]);
        }
    }
    assert forall|k: int| end <= k < whole.len() implies #[trigger] whole[k] != '\n' by {
        assert(in_word(whole, k));
    }
    assert(in_word(whole, end));
    assert(part[0] == w[0]);
    assert(row_stands(whole, width, part, place));
    assert forall|i: int| 0 <= i < longer.len() implies row_stands(
        whole,
        width,
        #[trigger] longer[i],
        after[i],
    ) by {
        if i <= n {
            assert(row_stands(text, width, rows[i], places[i]));
            assert(row_stands(whole, width, rows[i], places[i]));
        }
    }
    assert(parted(whole, width, places[n], place));
    assert forall|i: int| 0 <= i < longer.len() - 1 implies parted(
        whole,
        width,
        #[trigger] after[i],
        after[i + 1],
    ) by {
        if i < n {
            assert(parted(whole, width, places[i], places[i + 1]));
        }
    }
    if w.len() <= width {
        assert(rows + chop(w, width) =~= longer);
        after
    } else {
        let rest = w.skip(width as int);
        assert(wordy(rest)) by {
            assert forall|i: int| 0 <= i < rest.len() implies #[trigger] rest[i] != ' ' && rest[i]
                != '\n' by {
                assert(rest[i] == w[i + width]);
            }
        }
        assert(wordy(part));
        assert(whole + rest =~= text + w);
        assert(longer + chop(rest, width) =~= rows + chop(w, width));
        lemma_word_goes_on(whole, rest, width, longer, after)
    }
}

/// A word takes the place of an empty last row.
#[verifier::spinoff_prover]
#[verifier::rlimit(40)]
proof fn lemma_word_fills_row(
    text: Seq<char>,
    w: Seq<char>,
    width: nat,
    rows: Seq<Seq<char>>,
    places: Seq<(int, int)>,
) -> (after: Seq<(int, int)>)
    requires
        width > 0,
        laid_out(text, width, rows, places),
        rows.last().len() == 0,
        wordy(w),
    ensures
        laid_out(text + w, width, rows.drop_last() + chop(w, width), after),
{
    let part = if w.len() <= width {
        w
    } else {
        w.take(width as int)
    };
    assert(wordy(part));
    assert(!part.contains('\n'));
    let first = lemma_row_grows(text, part, width, rows, places);
    let begun = rows.drop_last().push(rows.last() + part);
    assert(rows.last() + part =~= part);
    if w.len() <= width {
        assert(rows.drop_last() + chop(w, width) =~= begun);
        first
    } else {
        let rest = w.skip(width as int);
        assert(wordy(rest)) by {
            assert forall|i: int| 0 <= i < rest.len() implies #[trigger] rest[i] != ' ' && rest[i]
                != '\n' by {
                assert(rest[i] == w[i + width]);
            }
        }
        assert(text + part + rest =~= text + w);
        assert(begun + chop(rest, width) =~= rows.drop_last() + chop(w, width));
        lemma_word_goes_on(text + part, rest, width, begun, first)
    }
}

/// The next word of a line is placed as it should be.
#[verifier::spinoff_prover]
#[verifier::rlimit(40)]
proof fn lemma_placed_word_laid_out(
    text: Seq<char>,
    w: Seq<char>,
    width: nat,
    filling: Filling,
    places: Seq<(int, int)>,
) -> (after: Seq<(int, int)>)
    requires
        width > 0,
        laid_out(text, width, filling.rows.push(filling.current), places),
        wordy(w),
    ensures
        ({
            let next = place(filling, w, width);
            laid_out(text.push(' ') + w, width, next.rows.push(next.current), after)
        }),
{
    let Filling { rows, current } = filling;
    let all = rows.push(current);
    let next = place(filling, w, width);
    let pieces = chop(w, width);
    lemma_chop_fits(w, width);
    assert(all.drop_last() =~= rows);
    assert(pieces.drop_last().push(pieces.last()) =~= pieces);
    if current.len() == 0 {
        let dropped = lemma_space_is_dropped(text, width, all, places);
        let after = lemma_word_fills_row(text.push(' '), w, width, all, dropped);
        assert(rows + pieces =~= next.rows.push(next.current));
        after
    } else if w.len() > width {
        let part = w.take(width as int);
        let rest = w.skip(width as int);
        assert(wordy(part));
        assert(wordy(rest)) by {
            assert forall|i: int| 0 <= i < rest.len() implies #[trigger] rest[i] != ' ' && rest[i]
                != '\n' by {
                assert(rest[i] == w[i + width]);
            }
        }
        let begun = lemma_word_begins_row(text, part, width, all, places);
        let after = lemma_word_goes_on(
            text.push(' ') + part,
            rest,
            width,
            all.push(part),
            begun,
        );
        assert(text.push(' ') + part + rest =~= text.push(' ') + w);
        assert(all.push(part) + chop(rest, width) =~= next.rows.push(next.current));
        after
    } else if current.len() + 1 + w.len() <= width {
        let more = seq![' '] + w;
        assert(!more.contains('\n'));
        let after = lemma_row_grows(text, more, width, all, places);
        assert(text + more =~= text.push(' ') + w);
        assert(current + more =~= current.push(' ') + w);
        assert(all.drop_last().push(current + more) =~= next.rows.push(next.current));
        after
    } else {
        lemma_word_begins_row(text, w, width, all, places)
    }
}

/// The words of a line are placed as they should be, behind what came before it.
#[verifier::spinoff_prover]
#[verifier::rlimit(40)]
proof fn lemma_words_laid_out(
    text: Seq<char>,
    words: Seq<Seq<char>>,
    width: nat,
    base: Seq<Seq<char>>,
    places: Seq<(int, int)>,
) -> (after: Seq<(int, int)>)
    requires
        width > 0,
        laid_out(text, width, base.push(Seq::empty()), places),
        words.len() > 0,
        forall|i: int| 0 <= i < words.len() ==> wordy(#[trigger] words[i]),
    ensures
        ({
            let filling = fill(words, width);
            laid_out(
                text + join(words, ' '),
                width,
                base + filling.rows.push(filling.current),
                after,
            )
        }),
    decreases words.len(),
{
    let filling = fill(words, width);
    let w = words.last();
    assert(wordy(words[words.len() - 1]));
    if words.len() == 1 {
        let rows = base.push(Seq::<char>::empty());
        let after = lemma_word_fills_row(text, w, width, rows, places);
        let pieces = chop(w, width);
        lemma_chop_fits(w, width);
        assert(rows.drop_last() =~= base);
        assert(pieces.drop_last().push(pieces.last()) =~= pieces);
        assert(fill(words.drop_last(), width).rows =~= Seq::<Seq<char>>::empty());
        assert(fill(words.drop_last(), width).current =~= Seq::<char>::empty());
        assert(filling.rows.push(filling.current) =~= pieces);
        after
    } else {
        let front = words.drop_last();
        let before = lemma_words_laid_out(text, front, width, base, places);
        let half = fill(front, width);
        let shifted = Filling { rows: base + half.rows, current: half.current };
        assert(base + half.rows.push(half.current) =~= shifted.rows.push(shifted.current));
        let after = lemma_placed_word_laid_out(
            text + join(front, ' '),
            w,
            width,
            shifted,
            before,
        );
        lemma_place_appends(base, half, w, width);
        assert((text + join(front, ' ')).push(' ') + w =~= text + join(words, ' '));
        let next = place(shifted, w, width);
        assert(next.rows.push(next.current) =~= base + filling.rows.push(filling.current));
        after
    }
}

/// A line end begins a new row.
#[verifier::spinoff_prover]
#[verifier::rlimit(40)]
proof fn lemma_line_ends(
    text: Seq<char>,
    width: nat,
    rows: Seq<Seq<char>>,
    places: Seq<(int, int)>,
) -> (after: Seq<(int, int)>)
    requires
        laid_out(text, width, rows, places),
    ensures
        laid_out(text.push('\n'), width, rows.push(Seq::empty()), after),
{
    let whole = text.push('\n');
    let n = rows.len() - 1;
    let end = text.len() as int;
    let place = (end + 1, end + 1);
    let after = places.push(place);
    let longer = rows.push(Seq::<char>::empty());
    assert(whole =~= text + seq!['\n']);
    lemma_rows_stay(text, seq!['\n'], width, rows, places);
    assert(whole.subrange(end + 1, end + 1) =~= Seq::<char>::empty());
    assert(row_stands(whole, width, longer[n + 1], place));
    assert forall|i: int| 0 <= i < longer.len() implies row_stands(
        whole,
        width,
        #[trigger] longer[i],
        after[i],
    ) by {
        if i <= n {
            assert(row_stands(whole, width, rows[i], places[i]));
        }
    }
    assert(parted(whole, width, places[n], place));
    assert forall|i: int| 0 <= i < longer.len() - 1 implies parted(
        whole,
        width,
        #[trigger] after[i],
        after[i + 1],
    ) by {
        if i < n {
            assert(parted(whole, width, places[i], places[i + 1]));
        }
    }
    after
}

/// The rows of a list of lines are laid out.
#[verifier::spinoff_prover]
#[verifier::rlimit(40)]
proof fn lemma_lines_laid_out(lines: Seq<Seq<char>>, width: nat) -> (after: Seq<(int, int)>)
    requires
        width > 0,
        lines.len() > 0,
        forall|i: int| 0 <= i < lines.len() ==> !(#[trigger] lines[i]).contains('\n'),
    ensures
        laid_out(join(lines, '\n'), width, wrap_all(lines, width), after),
    decreases lines.len(),
{
    let front = lines.drop_last();
    let line = lines.last();
    let words = split_on(line, ' ');
    assert(!lines[lines.len() - 1].contains('\n'));
    lemma_split_is_not_empty(line, ' ');
    lemma_join_undoes_split(line, ' ');
    assert forall|i: int| 0 <= i < words.len() implies wordy(#[trigger] words[i]) by {
        lemma_pieces_are_clean(line, ' ', ' ', i);
        lemma_pieces_are_clean(line, ' ', '\n', i);
        assert forall|k: int| 0 <= k < words[i].len() implies #[trigger] words[i][k] != ' '
            && words[i][k] != '\n' by {
            assert(words[i].contains(words[i][k]));
        }
    }
    let base = wrap_all(front, width);
    if lines.len() == 1 {
        let nothing = Seq::<char>::empty();
        let start: Seq<(int, int)> = seq![(0int, 0int)];
        let rows = base.push(nothing);
        assert(base =~= Seq::<Seq<char>>::empty());
        assert(nothing.subrange(0, 0) =~= nothing);
        assert(laid_out(nothing, width, rows, start));
        let after = lemma_words_laid_out(nothing, words, width, base, start);
        assert(nothing + line =~= join(lines, '\n'));
        after
    } else {
        let before = lemma_lines_laid_out(front, width);
        let ended = lemma_line_ends(join(front, '\n'), width, base, before);
        lemma_words_laid_out(join(front, '\n').push('\n'), words, width, base, ended)
    }
}

/// Rows are read as they were given, in order.
pub proof fn law_rows_are_read_as_given(rows: Seq<String>, i: int)
    requires
        0 <= i < rows.len(),
    ensures
        texts(rows).len() == rows.len(),
        texts(rows)[i] == rows[i]@,
{
}

} // verus!
