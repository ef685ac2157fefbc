//! Word wrap that keeps every character: lines are made of whole words, each
//! with the spaces that follow it, and a word is never split.

use vstd::prelude::*;

use crate::text::{concat, lemma_string_views_push, string_views};

verus! {

/// A word and the run of spaces after it.
pub type WordView = (Seq<char>, Seq<char>);

pub open spec fn all_spaces(s: Seq<char>) -> bool {
    forall|i: int| 0 <= i < s.len() ==> s[i] == ' '
}

pub open spec fn no_spaces(s: Seq<char>) -> bool {
    forall|i: int| 0 <= i < s.len() ==> s[i] != ' '
}

/// The words with their spaces, concatenated in order.
pub open spec fn joined(words: Seq<WordView>) -> Seq<char>
    decreases words.len(),
{
    if words.len() == 0 {
        Seq::empty()
    } else {
        joined(words.drop_last()) + words.last().0 + words.last().1
    }
}

/// Whether `words` is `text` split after every run of spaces: the pieces
/// make up `text`; each is a stretch without spaces followed by a stretch of
/// spaces, and is not empty; every piece but the last ends in a space, and
/// every piece but the first starts with something else.
pub open spec fn is_ascii_space_split(text: Seq<char>, words: Seq<WordView>) -> bool {
    &&& joined(words) == text
    &&& forall|i: int|
        0 <= i < words.len() ==> {
            &&& no_spaces((#[trigger] words[i]).0)
            &&& all_spaces(words[i].1)
            &&& words[i].0.len() + words[i].1.len() > 0
            &&& (i + 1 < words.len() ==> words[i].1.len() > 0)
            &&& (i > 0 ==> words[i].0.len() > 0)
        }
}

/// The words that `textwrap` finds in a line when it separates words at
/// ASCII spaces.
pub uninterp spec fn ascii_space_words(text: Seq<char>) -> Seq<WordView>;

/// The number of terminal columns that `textwrap` measures for a text.
pub uninterp spec fn text_display_width(text: Seq<char>) -> nat;

pub open spec fn word_views(words: Seq<(String, String)>) -> Seq<WordView> {
    Seq::new(words.len(), |i: int| (words[i].0@, words[i].1@))
}

/// `textwrap::WordSeparator::AsciiSpace.find_words` cuts the line after
/// every run of `' '` and gives each piece as a word and its trailing
/// spaces. The pieces depend on the line alone.
#[verifier::external_body]
fn find_words(text: &str) -> (words: Vec<(String, String)>)
    ensures
        word_views(words@) == ascii_space_words(text@),
        is_ascii_space_split(text@, word_views(words@)),
{
    textwrap::WordSeparator::AsciiSpace
        .find_words(text)
        .map(|word| (word.word.to_owned(), word.whitespace.to_owned()))
        .collect()
}

/// `textwrap::core::display_width` measures the columns that `text` takes
/// on a terminal. The measure depends on the text alone.
#[verifier::external_body]
fn display_width(text: &str) -> (width: usize)
    ensures
        width == text_display_width(text@),
{
    textwrap::core::display_width(text)
}

/// A piece of text with its width in columns.
pub type MeasuredView = (Seq<char>, nat);

pub open spec fn measured_views(words: Seq<(String, usize)>) -> Seq<MeasuredView> {
    Seq::new(words.len(), |i: int| (words[i].0@, words[i].1 as nat))
}

/// Each word with its spaces as one piece, with the width measured for it.
pub open spec fn measured(words: Seq<WordView>) -> Seq<MeasuredView> {
    Seq::new(
        words.len(),
        |i: int| (words[i].0 + words[i].1, text_display_width(words[i].0 + words[i].1)),
    )
}

/// The lines that are full, and the line that is being filled with its
/// width.
pub struct WrapState {
    pub lines: Seq<Seq<char>>,
    pub current: Seq<char>,
    pub width: nat,
}

/// Places one more piece. On an empty line it is always placed. Otherwise it
/// is added to the line if the line's width with it, and with the width of
/// the wrap marker on every line but the first, stays within `max_width`;
/// else it starts a new line.
pub open spec fn place(state: WrapState, piece: MeasuredView, max_width: nat, marker_width: nat) -> WrapState {
    if state.current.len() == 0 {
        WrapState { lines: state.lines, current: piece.0, width: piece.1 }
    } else {
        let marker = if state.lines.len() == 0 {
            0
        } else {
            marker_width
        };
        if state.width + piece.1 + marker <= max_width {
            WrapState {
                lines: state.lines,
                current: state.current + piece.0,
                width: state.width + piece.1,
            }
        } else {
            WrapState { lines: state.lines.push(state.current), current: piece.0, width: piece.1 }
        }
    }
}

/// The state after all of `pieces` have been placed, in order.
pub open spec fn placed(pieces: Seq<MeasuredView>, max_width: nat, marker_width: nat) -> WrapState
    decreases pieces.len(),
{
    if pieces.len() == 0 {
        WrapState { lines: Seq::empty(), current: Seq::empty(), width: 0 }
    } else {
        place(placed(pieces.drop_last(), max_width, marker_width), pieces.last(), max_width, marker_width)
    }
}

/// The lines that `pieces` are wrapped into.
pub open spec fn wrapped(pieces: Seq<MeasuredView>, max_width: nat, marker_width: nat) -> Seq<Seq<char>> {
    let state = placed(pieces, max_width, marker_width);
    if state.current.len() > 0 {
        state.lines.push(state.current)
    } else {
        state.lines
    }
}

/// The texts of `pieces`, concatenated in order.
pub open spec fn pieces_text(pieces: Seq<MeasuredView>) -> Seq<char>
    decreases pieces.len(),
{
    if pieces.len() == 0 {
        Seq::empty()
    } else {
        pieces_text(pieces.drop_last()) + pieces.last().0
    }
}

/// Wrapping loses nothing: the lines, put together, are the pieces put
/// together.
pub proof fn lemma_wrapped_keeps_text(pieces: Seq<MeasuredView>, max_width: nat, marker_width: nat)
    ensures
        concat(wrapped(pieces, max_width, marker_width)) == pieces_text(pieces),
        concat(placed(pieces, max_width, marker_width).lines) + placed(
            pieces,
            max_width,
            marker_width,
        ).current == pieces_text(pieces),
    decreases pieces.len(),
{
    let state = placed(pieces, max_width, marker_width);
    if pieces.len() > 0 {
        let before = placed(pieces.drop_last(), max_width, marker_width);
        lemma_wrapped_keeps_text(pieces.drop_last(), max_width, marker_width);
        assert(state == place(before, pieces.last(), max_width, marker_width));
        if before.current.len() > 0 && !(before.width + pieces.last().1 + (if before.lines.len()
            == 0 {
            0
        } else {
            marker_width
        }) <= max_width) {
            assert(state.lines.drop_last() =~= before.lines);
        }
        assert(concat(state.lines) + state.current =~= pieces_text(pieces));
    } else {
        assert(concat(state.lines) + state.current =~= pieces_text(pieces));
    }
    if state.current.len() > 0 {
        assert(state.lines.push(state.current).drop_last() =~= state.lines);
    } else {
        assert(concat(state.lines) + state.current =~= concat(state.lines));
    }
}

/// The pieces of a split, put together, are the text that was split.
pub proof fn lemma_measured_text(words: Seq<WordView>)
    ensures
        pieces_text(measured(words)) == joined(words),
    decreases words.len(),
{
    if words.len() > 0 {
        lemma_measured_text(words.drop_last());
        assert(measured(words).drop_last() =~= measured(words.drop_last()));
        assert(pieces_text(measured(words)) =~= joined(words));
    }
}

/// The widths of `pieces`, added up.
pub open spec fn pieces_width(pieces: Seq<MeasuredView>) -> nat
    decreases pieces.len(),
{
    if pieces.len() == 0 {
        0
    } else {
        pieces_width(pieces.drop_last()) + pieces.last().1
    }
}

/// The index of the first piece of every line: those of the full lines, and
/// that of the line being filled.
pub struct LineStarts {
    pub full: Seq<int>,
    pub current: int,
}

/// Where the lines start when `pieces` are placed one by one.
pub open spec fn line_starts(pieces: Seq<MeasuredView>, max_width: nat, marker_width: nat) -> LineStarts
    decreases pieces.len(),
{
    if pieces.len() == 0 {
        LineStarts { full: Seq::empty(), current: 0 }
    } else {
        let state = placed(pieces.drop_last(), max_width, marker_width);
        let starts = line_starts(pieces.drop_last(), max_width, marker_width);
        let marker = if state.lines.len() == 0 {
            0
        } else {
            marker_width
        };
        if state.current.len() == 0 || state.width + pieces.last().1 + marker <= max_width {
            starts
        } else {
            LineStarts { full: starts.full.push(starts.current), current: pieces.len() - 1 }
        }
    }
}

/// Whether the pieces `from..to` make a line with index `line` that is in
/// order: it holds one piece only, or it keeps within `max_width`, the wrap
/// marker counted on every line but the first.
pub open spec fn line_in_order(
    pieces: Seq<MeasuredView>,
    from: int,
    to: int,
    line: int,
    max_width: nat,
    marker_width: nat,
) -> bool {
    &&& 0 <= from < to <= pieces.len()
    &&& to - from == 1 || pieces_width(pieces.subrange(from, to)) + (if line == 0 {
        0
    } else {
        marker_width
    }) <= max_width
}

/// The index behind the last piece of line `k`.
pub open spec fn line_end(starts: LineStarts, k: int, count: int) -> int {
    if k + 1 < starts.full.len() {
        starts.full[k + 1]
    } else if k + 1 == starts.full.len() {
        starts.current
    } else {
        count
    }
}

/// The index of the first piece of line `k`.
pub open spec fn line_start(starts: LineStarts, k: int) -> int {
    if k < starts.full.len() {
        starts.full[k]
    } else {
        starts.current
    }
}

/// No piece is split and no piece is lost or moved: every line is made of
/// the pieces from its start to the start of the next line. A line of more
/// than one piece keeps within the width that it is given.
pub proof fn lemma_wrapped_lines(pieces: Seq<MeasuredView>, max_width: nat, marker_width: nat, k: int)
    requires
        forall|i: int| 0 <= i < pieces.len() ==> (#[trigger] pieces[i]).0.len() > 0,
        0 <= k < wrapped(pieces, max_width, marker_width).len(),
    ensures
        ({
            let starts = line_starts(pieces, max_width, marker_width);
            let from = line_start(starts, k);
            let to = line_end(starts, k, pieces.len() as int);
            &&& line_in_order(pieces, from, to, k, max_width, marker_width)
            &&& wrapped(pieces, max_width, marker_width)[k] == pieces_text(
                pieces.subrange(from, to),
            )
        }),
{
    lemma_placed_lines(pieces, max_width, marker_width);
    let state = placed(pieces, max_width, marker_width);
    let starts = line_starts(pieces, max_width, marker_width);
    if k < state.lines.len() {
        assert(wrapped(pieces, max_width, marker_width)[k] == state.lines[k]);
    }
}

/// The lines and the line being filled are made of the pieces between their
/// starts, and are in order.
proof fn lemma_placed_lines(pieces: Seq<MeasuredView>, max_width: nat, marker_width: nat)
    requires
        forall|i: int| 0 <= i < pieces.len() ==> (#[trigger] pieces[i]).0.len() > 0,
    ensures
        ({
            let state = placed(pieces, max_width, marker_width);
            let starts = line_starts(pieces, max_width, marker_width);
            let count = pieces.len() as int;
            &&& starts.full.len() == state.lines.len()
            &&& 0 <= starts.current <= count
            &&& (count > 0 ==> starts.current < count)
            &&& (starts.current < count <==> state.current.len() > 0)
            &&& state.current == pieces_text(pieces.subrange(starts.current, count))
            &&& state.width == pieces_width(pieces.subrange(starts.current, count))
            &&& (count > 0 ==> line_in_order(
                pieces,
                starts.current,
                count,
                state.lines.len() as int,
                max_width,
                marker_width,
            ))
            &&& forall|k: int|
                0 <= k < state.lines.len() ==> #[trigger] line_in_order(
                    pieces,
                    line_start(starts, k),
                    line_end(starts, k, count),
                    k,
                    max_width,
                    marker_width,
                )
            &&& forall|k: int|
                0 <= k < state.lines.len() ==> (#[trigger] state.lines[k]) == pieces_text(
                    pieces.subrange(line_start(starts, k), line_end(starts, k, count)),
                )
        }),
    decreases pieces.len(),
{
    let count = pieces.len() as int;
    let state = placed(pieces, max_width, marker_width);
    let starts = line_starts(pieces, max_width, marker_width);
    if count == 0 {
        assert(pieces.subrange(0, 0) =~= Seq::<MeasuredView>::empty());
    } else {
        let shorter = pieces.drop_last();
        assert forall|i: int| 0 <= i < shorter.len() implies (#[trigger] shorter[i]).0.len() > 0 by {
            assert(shorter[i] == pieces[i]);
        }
        lemma_placed_lines(shorter, max_width, marker_width);
        let before = placed(shorter, max_width, marker_width);
        let before_starts = line_starts(shorter, max_width, marker_width);
        let last = pieces.last();
        let from = before_starts.current;
        assert(last == pieces[count - 1]);
        assert(state == place(before, last, max_width, marker_width));
        let marker = if before.lines.len() == 0 {
            0
        } else {
            marker_width
        };
        assert forall|low: int, high: int| 0 <= low <= high <= count - 1 implies #[trigger] shorter.subrange(
            low,
            high,
        ) == pieces.subrange(low, high) by {
            assert(shorter.subrange(low, high) =~= pieces.subrange(low, high));
        }
        let appended = before.current.len() > 0 && before.width + last.1 + marker <= max_width;
        if before.current.len() == 0 {
            assert(count == 1);
        }
        if appended {
            assert(pieces.subrange(from, count).drop_last() =~= pieces.subrange(from, count - 1));
            assert(pieces.subrange(from, count).last() == last);
            assert(shorter.subrange(from, count - 1) == pieces.subrange(from, count - 1));
            assert(state.current =~= pieces_text(pieces.subrange(from, count)));
            assert(state.width == pieces_width(pieces.subrange(from, count)));
        } else {
            assert(pieces.subrange(count - 1, count).drop_last() =~= pieces.subrange(
                count - 1,
                count - 1,
            ));
            assert(pieces.subrange(count - 1, count - 1) =~= Seq::<MeasuredView>::empty());
            assert(pieces.subrange(count - 1, count).last() == last);
            assert(pieces_text(pieces.subrange(count - 1, count - 1)) =~= Seq::<char>::empty());
            assert(pieces_width(pieces.subrange(count - 1, count - 1)) == 0);
            assert(state.current =~= pieces_text(pieces.subrange(count - 1, count)));
            assert(state.width == pieces_width(pieces.subrange(count - 1, count)));
        }
        assert forall|k: int| 0 <= k < state.lines.len() implies #[trigger] line_in_order(
            pieces,
            line_start(starts, k),
            line_end(starts, k, count),
            k,
            max_width,
            marker_width,
        ) && state.lines[k] == pieces_text(
            pieces.subrange(line_start(starts, k), line_end(starts, k, count)),
        ) by {
            if k < before.lines.len() {
                assert(state.lines[k] == before.lines[k]);
                let low = line_start(before_starts, k);
                let high = line_end(before_starts, k, count - 1);
                assert(line_in_order(shorter, low, high, k, max_width, marker_width));
                assert(line_start(starts, k) == low);
                assert(line_end(starts, k, count) == high);
                assert(shorter.subrange(low, high) == pieces.subrange(low, high));
            } else {
                assert(!appended && before.current.len() > 0);
                assert(state.lines[k] == before.current);
                assert(line_start(starts, k) == from);
                assert(line_end(starts, k, count) == count - 1);
                assert(shorter.subrange(from, count - 1) == pieces.subrange(from, count - 1));
            }
        }
        assert forall|k: int| 0 <= k < state.lines.len() implies (#[trigger] state.lines[k])
            == pieces_text(pieces.subrange(line_start(starts, k), line_end(starts, k, count))) by {
            assert(line_in_order(
                pieces,
                line_start(starts, k),
                line_end(starts, k, count),
                k,
                max_width,
                marker_width,
            ));
        }
    }
}

/// Wraps measured pieces of text into lines of at most `max_width` columns
/// where that is possible without splitting a piece.
pub fn wrap_measured(pieces: &Vec<(String, usize)>, max_width: usize, wrap_symbol_width: usize) -> (lines: Vec<String>)
    ensures
        string_views(lines@) == wrapped(
            measured_views(pieces@),
            max_width as nat,
            wrap_symbol_width as nat,
        ),
{
    let ghost views = measured_views(pieces@);
    let mut lines: Vec<String> = Vec::new();
    let mut current = String::new();
    let mut width: u128 = 0;
    let mut i: usize = 0;
    assert(string_views(lines@) =~= Seq::<Seq<char>>::empty());
    while i < pieces.len()
        invariant
            i <= pieces.len(),
            views == measured_views(pieces@),
            width <= i * usize::MAX,
            placed(views.take(i as int), max_width as nat, wrap_symbol_width as nat) == (WrapState {
                lines: string_views(lines@),
                current: current@,
                width: width as nat,
            }),
        decreases pieces.len() - i,
    {
        proof {
            assert(views.take(i + 1).drop_last() =~= views.take(i as int));
            assert(views.take(i + 1).last() == (pieces@[i as int].0@, pieces@[i as int].1 as nat));
            assert(i * usize::MAX + usize::MAX == (i + 1) * usize::MAX) by (nonlinear_arith);
            let m = usize::MAX as int;
            assert((i + 2) * m <= (m + 1) * m) by (nonlinear_arith)
                requires
                    0 <= i + 1 <= m,
            ;
            assert((m + 1) * m <= 0x1_0000_0000_0000_0000 * 0xffff_ffff_ffff_ffff) by (nonlinear_arith)
                requires
                    0 <= m <= 0xffff_ffff_ffff_ffff,
            ;
            assert(i * m + 2 * m == (i + 2) * m) by (nonlinear_arith);
        }
        let piece = pieces[i].0.as_str();
        let piece_width = pieces[i].1;
        if current.as_str().is_empty() {
            current.push_str(piece);
            width = piece_width as u128;
        } else {
            let marker = if lines.len() == 0 {
                0
            } else {
                wrap_symbol_width
            };
            if width + piece_width as u128 + marker as u128 <= max_width as u128 {
                current.push_str(piece);
                width = width + piece_width as u128;
            } else {
                proof {
                    lemma_string_views_push(lines@, current);
                }
                lines.push(current);
                current = String::new();
                current.push_str(piece);
                width = piece_width as u128;
            }
        }
        i += 1;
    }
    proof {
        assert(views.take(i as int) =~= views);
    }
    if !current.as_str().is_empty() {
        proof {
            lemma_string_views_push(lines@, current);
        }
        lines.push(current);
    }
    lines
}

/// Each word with its trailing spaces as one piece, with its display width.
fn measure_words(words: &Vec<(String, String)>) -> (pieces: Vec<(String, usize)>)
    ensures
        measured_views(pieces@) == measured(word_views(words@)),
{
    let mut pieces: Vec<(String, usize)> = Vec::new();
    let mut i: usize = 0;
    while i < words.len()
        invariant
            i <= words.len(),
            pieces@.len() == i,
            forall|j: int|
                0 <= j < i ==> (#[trigger] pieces@[j]).0@ == words@[j].0@ + words@[j].1@
                    && pieces@[j].1 == text_display_width(words@[j].0@ + words@[j].1@),
        decreases words.len() - i,
    {
        let mut piece = words[i].0.clone();
        piece.push_str(words[i].1.as_str());
        let width = display_width(piece.as_str());
        pieces.push((piece, width));
        i += 1;
    }
    assert(measured_views(pieces@) =~= measured(word_views(words@)));
    pieces
}

/// Whether lines break only after spaces: no line is empty, every line but
/// the last ends with a space, and every line but the first starts with
/// something else.
pub open spec fn breaks_after_spaces(lines: Seq<Seq<char>>) -> bool {
    &&& forall|k: int| 0 <= k < lines.len() ==> (#[trigger] lines[k]).len() > 0
    &&& forall|k: int| 0 <= k < lines.len() - 1 ==> (#[trigger] lines[k]).last() == ' '
    &&& forall|k: int| 0 < k < lines.len() ==> (#[trigger] lines[k])[0] != ' '
}

/// The text of a stretch of pieces that are not empty starts as its first
/// piece starts and ends as its last piece ends.
proof fn lemma_pieces_text_ends(pieces: Seq<MeasuredView>, from: int, to: int)
    requires
        forall|i: int| 0 <= i < pieces.len() ==> (#[trigger] pieces[i]).0.len() > 0,
        0 <= from < to <= pieces.len(),
    ensures
        pieces_text(pieces.subrange(from, to)).len() > 0,
        pieces_text(pieces.subrange(from, to))[0] == pieces[from].0[0],
        pieces_text(pieces.subrange(from, to)).last() == pieces[to - 1].0.last(),
    decreases to - from,
{
    let stretch = pieces.subrange(from, to);
    assert(stretch.last() == pieces[to - 1]);
    assert(stretch.drop_last() =~= pieces.subrange(from, to - 1));
    if to - from == 1 {
        assert(pieces_text(pieces.subrange(from, to - 1)) =~= Seq::<char>::empty());
        assert(pieces_text(stretch) =~= pieces[from].0);
    } else {
        lemma_pieces_text_ends(pieces, from, to - 1);
    }
}

/// Where words are placed whole, no line is empty, and a line ends only after
/// the spaces of a word and before the start of the next: the first word of a
/// line is placed whole however wide it is, and no word is split.
pub proof fn lemma_wrapped_breaks(
    text: Seq<char>,
    words: Seq<WordView>,
    max_width: nat,
    marker_width: nat,
)
    requires
        is_ascii_space_split(text, words),
    ensures
        breaks_after_spaces(wrapped(measured(words), max_width, marker_width)),
        wrapped(measured(words), max_width, marker_width).len() == 0 <==> text.len() == 0,
{
    let pieces = measured(words);
    let lines = wrapped(pieces, max_width, marker_width);
    let starts = line_starts(pieces, max_width, marker_width);
    let count = pieces.len() as int;
    assert forall|i: int| 0 <= i < pieces.len() implies (#[trigger] pieces[i]).0.len() > 0 by {
        assert(words[i].0.len() + words[i].1.len() > 0);
    }
    lemma_placed_lines(pieces, max_width, marker_width);
    assert forall|k: int| 0 <= k < lines.len() implies (#[trigger] lines[k]).len() > 0 && (k
        < lines.len() - 1 ==> lines[k].last() == ' ') && (k > 0 ==> lines[k][0] != ' ') by {
        let from = line_start(starts, k);
        let to = line_end(starts, k, count);
        lemma_wrapped_lines(pieces, max_width, marker_width, k);
        lemma_pieces_text_ends(pieces, from, to);
        if k > 0 {
            lemma_wrapped_lines(pieces, max_width, marker_width, k - 1);
            assert(line_end(starts, k - 1, count) == from);
            assert(from > 0);
            assert(words[from].0.len() > 0);
            assert(pieces[from].0[0] == words[from].0[0]);
        }
        if k < lines.len() - 1 {
            lemma_wrapped_lines(pieces, max_width, marker_width, k + 1);
            assert(line_start(starts, k + 1) == to);
            assert(to < count);
            assert(words[to - 1].1.len() > 0);
            assert(pieces[to - 1].0.last() == words[to - 1].1.last());
        }
    }
    lemma_wrapped_keeps_text(pieces, max_width, marker_width);
    lemma_measured_text(words);
    if lines.len() > 0 {
        assert(lines.last().len() > 0);
        assert(concat(lines) == concat(lines.drop_last()) + lines.last());
    } else {
        assert(concat(lines) =~= Seq::<char>::empty());
    }
}

/// Wraps `text` into lines of whole words. A word keeps the spaces that
/// follow it; the first word of a line is placed even when it is wider than
/// `max_width`; lines after the first leave `wrap_symbol_width` columns for
/// a wrap marker. Widths are display widths, not byte or character counts.
pub fn wrap_preserve_trailing(text: &str, max_width: usize, wrap_symbol_width: usize) -> (lines: Vec<String>)
    ensures
        string_views(lines@) == wrapped(
            measured(ascii_space_words(text@)),
            max_width as nat,
            wrap_symbol_width as nat,
        ),
        is_ascii_space_split(text@, ascii_space_words(text@)),
        concat(string_views(lines@)) == text@,
        breaks_after_spaces(string_views(lines@)),
        lines@.len() == 0 <==> text@.len() == 0,
{
    let words = find_words(text);
    let pieces = measure_words(&words);
    proof {
        lemma_wrapped_keeps_text(
            measured(ascii_space_words(text@)),
            max_width as nat,
            wrap_symbol_width as nat,
        );
        lemma_measured_text(ascii_space_words(text@));
        lemma_wrapped_breaks(
            text@,
            ascii_space_words(text@),
            max_width as nat,
            wrap_symbol_width as nat,
        );
    }
    wrap_measured(&pieces, max_width, wrap_symbol_width)
}

} // verus!
