//! The cursor: a byte offset into the source text together with the row and
//! column of the virtual document that the offset is shown at, and the
//! mapping between the two in both directions.

use vstd::prelude::*;

use crate::ast::SourceRange;
use crate::text::{
    byte_offset, bytes_before, char_index, char_width, clamped, floor_boundary,
    is_printable_ascii, lemma_char_index, locate, sat_add, sat_sub, to_chars, width_of_char,
};
use crate::text_buffer::{TextBuffer, TextBufferView};
use crate::virtual_document::{
    line_has_content, line_source_range, line_views, range_contains, LineView, VirtualDocument,
    VirtualDocumentView, VirtualLine, VirtualSpan, VirtualSpanView,
};

verus! {

/// Whether the row stands for a range that holds `offset`.
pub open spec fn row_contains(line: LineView, offset: usize) -> bool {
    match line_source_range(line) {
        Some(range) => range_contains(range, offset),
        None => false,
    }
}

/// Whether the row stands for a range that ends just before `offset`.
pub open spec fn row_ends_at(line: LineView, offset: usize) -> bool {
    match line_source_range(line) {
        Some(range) => range.end == offset,
        None => false,
    }
}

/// The first row that holds `offset`.
pub open spec fn first_row_containing(lines: Seq<LineView>, offset: usize) -> Option<int>
    decreases lines.len(),
{
    if lines.len() == 0 {
        None
    } else {
        match first_row_containing(lines.drop_last(), offset) {
            Some(row) => Some(row),
            None => if row_contains(lines.last(), offset) {
                Some(lines.len() - 1)
            } else {
                None
            },
        }
    }
}

/// The last row that ends just before `offset`.
pub open spec fn last_row_ending_at(lines: Seq<LineView>, offset: usize) -> Option<int>
    decreases lines.len(),
{
    if lines.len() == 0 {
        None
    } else if row_ends_at(lines.last(), offset) {
        Some(lines.len() - 1)
    } else {
        last_row_ending_at(lines.drop_last(), offset)
    }
}

/// The row that `offset` is shown in: the first row that holds it, or, if no
/// row does, the last row that ends just before it.
pub open spec fn offset_row(lines: Seq<LineView>, offset: usize) -> Option<int> {
    match first_row_containing(lines, offset) {
        Some(row) => Some(row),
        None => last_row_ending_at(lines, offset),
    }
}

/// What `first_row_containing` finds is a row that holds the offset, with
/// none before it that does; it finds nothing only if no row holds it.
pub proof fn lemma_first_row_containing(lines: Seq<LineView>, offset: usize)
    ensures
        match first_row_containing(lines, offset) {
            Some(row) => 0 <= row < lines.len() && row_contains(lines[row], offset) && forall|i: int|
                0 <= i < row ==> !row_contains(#[trigger] lines[i], offset),
            None => forall|i: int| 0 <= i < lines.len() ==> !row_contains(#[trigger] lines[i], offset),
        },
    decreases lines.len(),
{
    if lines.len() > 0 {
        lemma_first_row_containing(lines.drop_last(), offset);
        match first_row_containing(lines.drop_last(), offset) {
            Some(row) => {
                assert(lines.drop_last()[row] == lines[row]);
                assert forall|i: int| 0 <= i < row implies !row_contains(
                    #[trigger] lines[i],
                    offset,
                ) by {
                    assert(lines.drop_last()[i] == lines[i]);
                }
            },
            None => {
                assert forall|i: int| 0 <= i < lines.len() - 1 implies !row_contains(
                    #[trigger] lines[i],
                    offset,
                ) by {
                    assert(lines.drop_last()[i] == lines[i]);
                }
            },
        }
    }
}

/// What `last_row_ending_at` finds is a row that ends at the offset, with
/// none after it that does; it finds nothing only if no row ends there.
pub proof fn lemma_last_row_ending_at(lines: Seq<LineView>, offset: usize)
    ensures
        match last_row_ending_at(lines, offset) {
            Some(row) => 0 <= row < lines.len() && row_ends_at(lines[row], offset) && forall|i: int|
                row < i < lines.len() ==> !row_ends_at(#[trigger] lines[i], offset),
            None => forall|i: int| 0 <= i < lines.len() ==> !row_ends_at(#[trigger] lines[i], offset),
        },
    decreases lines.len(),
{
    if lines.len() > 0 && !row_ends_at(lines.last(), offset) {
        lemma_last_row_ending_at(lines.drop_last(), offset);
        match last_row_ending_at(lines.drop_last(), offset) {
            Some(row) => {
                assert(lines.drop_last()[row] == lines[row]);
                assert forall|i: int| row < i < lines.len() implies !row_ends_at(
                    #[trigger] lines[i],
                    offset,
                ) by {
                    if i < lines.len() - 1 {
                        assert(lines.drop_last()[i] == lines[i]);
                    }
                }
            },
            None => {
                assert forall|i: int| 0 <= i < lines.len() implies !row_ends_at(
                    #[trigger] lines[i],
                    offset,
                ) by {
                    if i < lines.len() - 1 {
                        assert(lines.drop_last()[i] == lines[i]);
                    }
                }
            },
        }
    }
}

/// Finds the row that a byte offset of the source is shown in.
///
/// A row whose range holds the offset is taken at once. A row whose range
/// ends just before the offset is taken only if no row holds the offset, so
/// that at the border between two rows the offset belongs to the later one.
pub fn source_offset_to_virtual_line(offset: usize, lines: &[VirtualLine]) -> (row: Option<usize>)
    ensures
        match row {
            Some(row) => offset_row(line_views(lines@), offset) == Some(row as int),
            None => offset_row(line_views(lines@), offset).is_none(),
        },
{
    let ghost views = line_views(lines@);
    let mut fallback: Option<usize> = None;
    let mut i: usize = 0;
    assert(views.take(0) =~= Seq::<LineView>::empty());
    while i < lines.len()
        invariant
            i <= lines.len(),
            views == line_views(lines@),
            first_row_containing(views.take(i as int), offset).is_none(),
            match fallback {
                Some(row) => last_row_ending_at(views.take(i as int), offset) == Some(row as int),
                None => last_row_ending_at(views.take(i as int), offset).is_none(),
            },
        decreases lines.len() - i,
    {
        proof {
            assert(views.take(i + 1).drop_last() =~= views.take(i as int));
            assert(views.take(i + 1).last() == lines@[i as int]@);
        }
        if let Some(range) = lines[i].source_range() {
            if range.start <= offset && offset < range.end {
                proof {
                    lemma_first_row_found(views, offset, i as int);
                }
                return Some(i);
            }
            if range.end == offset {
                fallback = Some(i);
            }
        }
        i += 1;
    }
    proof {
        assert(views.take(i as int) =~= views);
    }
    fallback
}

/// The first row found among the first rows stays the first row found among
/// all.
proof fn lemma_first_row_found(lines: Seq<LineView>, offset: usize, row: int)
    requires
        0 <= row < lines.len(),
        first_row_containing(lines.take(row + 1), offset) == Some(row),
    ensures
        first_row_containing(lines, offset) == Some(row),
    decreases lines.len(),
{
    if lines.len() == row + 1 {
        assert(lines.take(row + 1) =~= lines);
    } else {
        assert(lines.drop_last().take(row + 1) =~= lines.take(row + 1));
        lemma_first_row_found(lines.drop_last(), offset, row);
    }
}

/// The columns that the characters of `s` take, one by one.
pub open spec fn chars_width(s: Seq<char>) -> nat
    decreases s.len(),
{
    if s.len() == 0 {
        0
    } else {
        chars_width(s.drop_last()) + char_width(s.last())
    }
}

/// The columns of the span's text before byte offset `offset`, if the span
/// stands for a range that holds the offset. A character that the offset
/// lies inside does not count.
pub open spec fn span_column(span: VirtualSpanView, offset: usize) -> Option<nat> {
    match span {
        VirtualSpanView::Content(text, range) => if range_contains(range, offset) {
            Some(
                chars_width(text.content.take(char_index(text.content, offset - range.start))),
            )
        } else {
            None
        },
        VirtualSpanView::Synthetic(_) => None,
    }
}

/// The columns that the text of a span of document text takes, counted
/// character by character; decoration counts nothing.
pub open spec fn span_text_columns(span: VirtualSpanView) -> nat {
    match span {
        VirtualSpanView::Content(text, _) => chars_width(text.content),
        VirtualSpanView::Synthetic(_) => 0,
    }
}

/// Whether every character of the text is a printed character of ASCII.
pub open spec fn all_printable_ascii(text: Seq<char>) -> bool {
    forall|i: int| 0 <= i < text.len() ==> is_printable_ascii(#[trigger] text[i])
}

/// Whether each of the first `count` characters of the text that is a printed
/// character of ASCII takes one column.
pub open spec fn ascii_takes_one_column(text: Seq<char>, count: int) -> bool {
    forall|i: int|
        0 <= i < count && i < text.len() && is_printable_ascii(#[trigger] text[i]) ==> char_width(
            text[i],
        ) == 1
}

/// Whether the row is a single span of printed characters of ASCII that
/// stands for exactly the bytes of its text.
pub open spec fn is_plain_row(line: LineView) -> bool {
    &&& line.len() == 1
    &&& line[0] is Content
    &&& all_printable_ascii(line[0].span().content)
    &&& line[0].source_range().unwrap().start + line[0].span().content.len()
        == line[0].source_range().unwrap().end
}

/// The byte offset that column `col` of a plain row stands for: as far
/// behind the start of the row as the column lies, and the end of the row for
/// a column behind its text.
pub open spec fn plain_row_offset(line: LineView, col: usize) -> usize {
    if col <= line[0].span().content.len() {
        (line[0].source_range().unwrap().start + col) as usize
    } else {
        line[0].source_range().unwrap().end
    }
}

/// The columns counted so far, and whether the span of the offset is found.
pub struct ColumnScan {
    pub column: nat,
    pub found: bool,
}

/// Walks the spans of a row from the left. Up to the first span that holds
/// the offset, every span counts with the full width of its text; that span
/// counts with the columns before the offset.
pub open spec fn column_scan(line: LineView, offset: usize) -> ColumnScan
    decreases line.len(),
{
    if line.len() == 0 {
        ColumnScan { column: 0, found: false }
    } else {
        let before = column_scan(line.drop_last(), offset);
        if before.found {
            before
        } else {
            match span_column(line.last(), offset) {
                Some(part) => ColumnScan { column: before.column + part, found: true },
                None => ColumnScan {
                    column: before.column + span_text_columns(line.last()),
                    found: false,
                },
            }
        }
    }
}

/// The column of a row that byte offset `offset` is shown at.
pub open spec fn offset_column(line: LineView, offset: usize) -> nat {
    column_scan(line, offset).column
}

/// The columns of the first `count` characters.
fn width_of_chars(chars: &Vec<char>, count: usize) -> (width: usize)
    requires
        count <= chars.len(),
    ensures
        width == clamped(chars_width(chars@.take(count as int))),
        ascii_takes_one_column(chars@, count as int),
{
    let mut width: usize = 0;
    let mut i: usize = 0;
    assert(chars@.take(0) =~= Seq::<char>::empty());
    while i < count
        invariant
            i <= count <= chars.len(),
            width == clamped(chars_width(chars@.take(i as int))),
            ascii_takes_one_column(chars@, i as int),
        decreases count - i,
    {
        proof {
            assert(chars@.take(i + 1).drop_last() =~= chars@.take(i as int));
        }
        width = width.saturating_add(width_of_char(chars[i]));
        i += 1;
    }
    width
}

/// Finds the column of `line` that a byte offset of the source is shown at.
///
/// The spans before the one that holds the offset count with the full width
/// of their text. In that span, the characters before the offset count. All
/// widths are display widths, counted character by character. In a plain row
/// the column of an offset is its distance from the start of the row.
pub fn source_offset_to_virtual_column(offset: usize, line: &VirtualLine) -> (column: usize)
    ensures
        column == clamped(offset_column(line@, offset)),
        is_plain_row(line@) && line@[0].source_range().unwrap().start <= offset
            <= line@[0].source_range().unwrap().end ==> column == offset
            - line@[0].source_range().unwrap().start,
{
    let mut column: usize = 0;
    let mut i: usize = 0;
    while i < line.spans.len()
        invariant
            i <= line.spans.len(),
            column_scan(line@.take(i as int), offset) == (ColumnScan {
                column: column_scan(line@.take(i as int), offset).column,
                found: false,
            }),
            column == clamped(column_scan(line@.take(i as int), offset).column),
            is_plain_row(line@) && i > 0 ==> column == line@[0].span().content.len()
                && !range_contains(line@[0].source_range().unwrap(), offset),
        decreases line.spans.len() - i,
    {
        proof {
            assert(line@.take(i + 1).drop_last() =~= line@.take(i as int));
        }
        match &line.spans[i] {
            VirtualSpan::Content(span, range) => {
                let chars = to_chars(span.content.as_str());
                if range.start <= offset && offset < range.end {
                    let (index, _) = locate(&chars, offset - range.start);
                    let part = width_of_chars(&chars, index);
                    proof {
                        lemma_column_found(line@, offset, i as int);
                        if is_plain_row(line@) {
                            assert(line@[0] == line@[i as int]);
                            lemma_ascii_bytes(chars@, offset - range.start);
                            lemma_ones_width(chars@, index as int);
                        }
                    }
                    return column.saturating_add(part);
                }
                let whole = width_of_chars(&chars, chars.len());
                proof {
                    assert(chars@.take(chars@.len() as int) =~= chars@);
                    if is_plain_row(line@) {
                        assert(line@[0] == line@[i as int]);
                        lemma_ones_width(chars@, chars@.len() as int);
                    }
                }
                column = column.saturating_add(whole);
            },
            VirtualSpan::Synthetic(_) => {},
        }
        i += 1;
    }
    proof {
        assert(line@.take(i as int) =~= line@);
    }
    column
}

/// Once the span of the offset is found, the spans after it do not count.
proof fn lemma_column_found(line: LineView, offset: usize, i: int)
    requires
        0 <= i < line.len(),
        column_scan(line.take(i + 1), offset).found,
    ensures
        column_scan(line, offset) == column_scan(line.take(i + 1), offset),
    decreases line.len(),
{
    if line.len() == i + 1 {
        assert(line.take(i + 1) =~= line);
    } else {
        assert(line.drop_last().take(i + 1) =~= line.take(i + 1));
        lemma_column_found(line.drop_last(), offset, i);
    }
}

/// The least number of characters of `text`, from its start, that take at
/// least `need` columns.
pub open spec fn reach(text: Seq<char>, need: nat) -> Option<int>
    decreases text.len(),
{
    if text.len() == 0 {
        None
    } else {
        match reach(text.drop_last(), need) {
            Some(count) => Some(count),
            None => if chars_width(text) >= need {
                Some(text.len() as int)
            } else {
                None
            },
        }
    }
}

/// The columns passed so far, and the offset found.
pub struct OffsetScan {
    pub column: nat,
    pub offset: Option<usize>,
}

/// Walks the spans of a row from the left, counting the columns of document
/// text, up to the character with which column `col` is reached. The offset
/// found is the one just after that character, but not after `row_end`.
pub open spec fn offset_scan(line: LineView, col: usize, row_end: usize) -> OffsetScan
    decreases line.len(),
{
    if line.len() == 0 {
        OffsetScan { column: 0, offset: None }
    } else {
        let before = offset_scan(line.drop_last(), col, row_end);
        if before.offset.is_some() {
            before
        } else {
            match line.last() {
                VirtualSpanView::Content(text, range) => match reach(
                    text.content,
                    (col - before.column) as nat,
                ) {
                    Some(count) => {
                        let offset = sat_add(range.start as nat, byte_offset(text.content, count));
                        OffsetScan {
                            column: before.column,
                            offset: Some(
                                if offset <= row_end {
                                    offset
                                } else {
                                    row_end
                                },
                            ),
                        }
                    },
                    None => OffsetScan {
                        column: before.column + chars_width(text.content),
                        offset: None,
                    },
                },
                VirtualSpanView::Synthetic(_) => before,
            }
        }
    }
}

/// Whether a span of document text of the row holds any text.
pub open spec fn row_has_text(line: LineView) -> bool {
    exists|i: int| 0 <= i < line.len() && (#[trigger] line[i]) is Content && line[i].span().content.len() > 0
}

/// The byte offset of the source that column `col` of a row stands for: the
/// start of the row's range for the first column and for a row whose spans
/// hold no text, the end of the range for a column behind the row's text. A
/// row of decoration stands for none.
pub open spec fn column_offset(line: LineView, col: usize) -> Option<usize> {
    match line_source_range(line) {
        Some(range) => if col == 0 || !row_has_text(line) {
            Some(range.start)
        } else {
            match offset_scan(line, col, range.end).offset {
                Some(offset) => Some(offset),
                None => Some(range.end),
            }
        },
        None => None,
    }
}

/// The byte offset of the source that a row and column of the virtual
/// document stand for.
pub open spec fn position_offset(lines: Seq<LineView>, row: usize, col: usize) -> Option<usize> {
    if row < lines.len() {
        column_offset(lines[row as int], col)
    } else {
        None
    }
}

/// Once the offset is found, the spans after it do not count.
proof fn lemma_offset_found(line: LineView, col: usize, row_end: usize, i: int)
    requires
        0 <= i < line.len(),
        offset_scan(line.take(i + 1), col, row_end).offset.is_some(),
    ensures
        offset_scan(line, col, row_end) == offset_scan(line.take(i + 1), col, row_end),
    decreases line.len(),
{
    if line.len() == i + 1 {
        assert(line.take(i + 1) =~= line);
    } else {
        assert(line.drop_last().take(i + 1) =~= line.take(i + 1));
        lemma_offset_found(line.drop_last(), col, row_end, i);
    }
}

/// What was reached among the first characters stays reached among all.
proof fn lemma_reach_found(text: Seq<char>, need: nat, count: int)
    requires
        0 < count <= text.len(),
        reach(text.take(count), need) == Some(count),
    ensures
        reach(text, need) == Some(count),
    decreases text.len(),
{
    if text.len() == count {
        assert(text.take(count) =~= text);
    } else {
        assert(text.drop_last().take(count) =~= text.take(count));
        lemma_reach_found(text.drop_last(), need, count);
    }
}

/// Walks the characters of a span's text until column `need` is reached.
/// Gives the bytes of the characters walked if it is reached, else the
/// columns of the whole text.
fn reach_in(chars: &Vec<char>, need: usize) -> (result: (bool, usize))
    requires
        need > 0,
    ensures
        match reach(chars@, need as nat) {
            Some(count) => result.0 && 0 < count <= chars@.len() && result.1 == clamped(
                byte_offset(chars@, count),
            ) && chars_width(chars@.take(count)) >= need && ascii_takes_one_column(chars@, count),
            None => !result.0 && result.1 == chars_width(chars@) && result.1 < need
                && ascii_takes_one_column(chars@, chars@.len() as int),
        },
{
    let mut column: usize = 0;
    let mut bytes: usize = 0;
    let mut k: usize = 0;
    assert(chars@.take(0) =~= Seq::<char>::empty());
    while k < chars.len()
        invariant
            k <= chars.len(),
            column < need,
            column == chars_width(chars@.take(k as int)),
            bytes == clamped(byte_offset(chars@, k as int)),
            reach(chars@.take(k as int), need as nat).is_none(),
            ascii_takes_one_column(chars@, k as int),
        decreases chars.len() - k,
    {
        proof {
            assert(chars@.take(k + 1).drop_last() =~= chars@.take(k as int));
        }
        let width = width_of_char(chars[k]);
        bytes = bytes.saturating_add(chars[k].len_utf8());
        k += 1;
        if width >= need - column {
            proof {
                lemma_reach_found(chars@, need as nat, k as int);
            }
            return (true, bytes);
        }
        column = column + width;
    }
    proof {
        assert(chars@.take(k as int) =~= chars@);
    }
    (false, column)
}

/// Walks the spans of a row until column `col` is reached.
fn offset_in_row(line: &VirtualLine, col: usize, row_end: usize) -> (offset: Option<usize>)
    requires
        col > 0,
    ensures
        offset == offset_scan(line@, col, row_end).offset,
        is_plain_row(line@) && row_end == line@[0].source_range().unwrap().end ==> offset == if col
            <= line@[0].span().content.len() {
            Some(plain_row_offset(line@, col))
        } else {
            None::<usize>
        },
{
    let mut column: usize = 0;
    let mut i: usize = 0;
    while i < line.spans.len()
        invariant
            i <= line.spans.len(),
            column < col,
            offset_scan(line@.take(i as int), col, row_end) == (OffsetScan {
                column: column as nat,
                offset: None,
            }),
            is_plain_row(line@) && i > 0 ==> col > line@[0].span().content.len(),
        decreases line.spans.len() - i,
    {
        proof {
            assert(line@.take(i + 1).drop_last() =~= line@.take(i as int));
        }
        match &line.spans[i] {
            VirtualSpan::Content(span, span_range) => {
                let chars = to_chars(span.content.as_str());
                let (found, value) = reach_in(&chars, col - column);
                proof {
                    if is_plain_row(line@) {
                        assert(line@[0] == line@[i as int]);
                        assert(line@.take(0) =~= Seq::<VirtualSpanView>::empty());
                        assert(column == 0);
                        match reach(chars@, col as nat) {
                            Some(count) => {
                                lemma_ones_width(chars@, count);
                                lemma_ones_reach(chars@, count, col as nat);
                                lemma_ascii_bytes(chars@, count);
                            },
                            None => {
                                assert(chars@.take(chars@.len() as int) =~= chars@);
                                lemma_ones_width(chars@, chars@.len() as int);
                            },
                        }
                    }
                }
                if found {
                    let offset = span_range.start.saturating_add(value);
                    proof {
                        lemma_offset_found(line@, col, row_end, i as int);
                    }
                    return Some(
                        if offset <= row_end {
                            offset
                        } else {
                            row_end
                        },
                    );
                }
                column = column + value;
            },
            VirtualSpan::Synthetic(_) => {},
        }
        i += 1;
    }
    proof {
        assert(line@.take(i as int) =~= line@);
    }
    None
}

/// Whether a span of document text of the row holds any text.
fn has_text(line: &VirtualLine) -> (found: bool)
    ensures
        found == row_has_text(line@),
{
    let mut i: usize = 0;
    while i < line.spans.len()
        invariant
            i <= line.spans.len(),
            forall|j: int|
                0 <= j < i ==> !((#[trigger] line@[j]) is Content && line@[j].span().content.len()
                    > 0),
        decreases line.spans.len() - i,
    {
        match &line.spans[i] {
            VirtualSpan::Content(span, _) => {
                if !span.content.as_str().is_empty() {
                    assert(line@[i as int] is Content && line@[i as int].span().content.len() > 0);
                    return true;
                }
            },
            VirtualSpan::Synthetic(_) => {},
        }
        i += 1;
    }
    false
}

/// Finds the byte offset of the source that a row and column of the virtual
/// document stand for.
///
/// In the row, the display widths of the characters of document text are
/// added up until they reach `col`; the offset after that character is the
/// result. The first column, and a row whose spans hold no text, give the
/// start of the row's range; a column behind the text gives its end.
pub fn virtual_position_to_source_offset(position: (usize, usize), lines: &[VirtualLine]) -> (offset:
    Option<usize>)
    ensures
        offset == position_offset(line_views(lines@), position.0, position.1),
        position.0 < lines@.len() && is_plain_row(lines@[position.0 as int]@) ==> offset == Some(
            plain_row_offset(lines@[position.0 as int]@, position.1),
        ),
{
    let (row, col) = position;
    if row >= lines.len() {
        return None;
    }
    let line = &lines[row];
    assert(line_views(lines@)[row as int] == line@);
    proof {
        if is_plain_row(line@) {
            lemma_plain_row_range(line@);
        }
    }
    match line.source_range() {
        Some(range) => {
            if col == 0 || !has_text(line) {
                Some(range.start)
            } else {
                match offset_in_row(line, col, range.end) {
                    Some(offset) => Some(offset),
                    None => Some(range.end),
                }
            }
        },
        None => None,
    }
}


#[derive(Clone, Copy, Debug, PartialEq, Eq, Structural)]
pub enum CursorMode {
    Read,
    Edit,
}

impl Default for CursorMode {
    fn default() -> (mode: Self)
        ensures
            mode == CursorMode::Read,
    {
        CursorMode::Read
    }
}

/// What the cursor is told to do.
#[derive(Clone, Copy, Debug, PartialEq, Eq, Structural)]
pub enum Message {
    /// Move left by a number of characters of the text being edited.
    MoveLeft(usize),
    /// Move right by a number of characters of the text being edited.
    MoveRight(usize),
    /// Move up by a number of rows, to the nearest row with text.
    MoveUp(usize),
    /// Move down by a number of rows, to the nearest row with text.
    MoveDown(usize),
    /// Move to the start of the next word of the text being edited.
    MoveWordForward,
    /// Move to the start of the word before the cursor.
    MoveWordBackward,
    /// Move to a byte offset of the source.
    Jump(usize),
    SwitchMode(CursorMode),
}

#[derive(Clone, Debug)]
pub struct Cursor {
    mode: CursorMode,
    source_offset: usize,
    virtual_line: usize,
    virtual_column: usize,
}

pub struct CursorView {
    pub mode: CursorMode,
    pub source_offset: usize,
    pub virtual_row: usize,
    pub virtual_column: usize,
}

impl View for Cursor {
    type V = CursorView;

    closed spec fn view(&self) -> CursorView {
        CursorView {
            mode: self.mode,
            source_offset: self.source_offset,
            virtual_row: self.virtual_line,
            virtual_column: self.virtual_column,
        }
    }
}

/// The view of an optional text buffer.
pub open spec fn option_buffer_view(buffer: Option<TextBuffer>) -> Option<TextBufferView> {
    match buffer {
        Some(buffer) => Some(buffer@),
        None => None,
    }
}

/// The index of the first character at or after `i` that is a space, or the
/// end of the text.
pub open spec fn skip_word(s: Seq<char>, i: int) -> int
    decreases s.len() - i,
{
    if 0 <= i < s.len() && s[i] != ' ' {
        skip_word(s, i + 1)
    } else {
        i
    }
}

/// The index of the first character at or after `i` that is no space, or the
/// end of the text.
pub open spec fn skip_spaces(s: Seq<char>, i: int) -> int
    decreases s.len() - i,
{
    if 0 <= i < s.len() && s[i] == ' ' {
        skip_spaces(s, i + 1)
    } else {
        i
    }
}

/// The start of the next word after index `i`: behind the rest of the word
/// at `i` and the run of spaces after it.
pub open spec fn next_word(s: Seq<char>, i: int) -> int {
    skip_spaces(s, skip_word(s, i))
}

/// The index behind the last character before `i` that is no space, or the
/// start of the text.
pub open spec fn back_spaces(s: Seq<char>, i: int) -> int
    decreases i,
{
    if 0 < i <= s.len() && s[i - 1] == ' ' {
        back_spaces(s, i - 1)
    } else {
        i
    }
}

/// The index behind the last space before `i`, or the start of the text.
pub open spec fn back_word(s: Seq<char>, i: int) -> int
    decreases i,
{
    if 0 < i <= s.len() && s[i - 1] != ' ' {
        back_word(s, i - 1)
    } else {
        i
    }
}

/// The start of the word before index `i`: before the run of spaces that
/// ends at `i` and the word before it.
pub open spec fn previous_word(s: Seq<char>, i: int) -> int {
    back_word(s, back_spaces(s, i))
}

/// The nearest row with text at or above `row`.
pub open spec fn content_row_at_or_before(lines: Seq<LineView>, row: int) -> Option<int>
    decreases row + 1,
{
    if row < 0 {
        None
    } else if row < lines.len() && line_has_content(lines[row]) {
        Some(row)
    } else {
        content_row_at_or_before(lines, row - 1)
    }
}

/// The nearest row with text at or below `row`.
pub open spec fn content_row_at_or_after(lines: Seq<LineView>, row: int) -> Option<int>
    decreases lines.len() - row,
{
    if row < 0 || row >= lines.len() {
        None
    } else if line_has_content(lines[row]) {
        Some(row)
    } else {
        content_row_at_or_after(lines, row + 1)
    }
}

/// The row that a move up or down arrives in has text, and lies in the
/// direction of the move from where the search started.
pub proof fn lemma_content_row(lines: Seq<LineView>, row: int)
    ensures
        match content_row_at_or_before(lines, row) {
            Some(found) => 0 <= found <= row && found < lines.len() && line_has_content(lines[found])
                && forall|i: int|
                found < i <= row && i < lines.len() ==> !line_has_content(#[trigger] lines[i]),
            None => forall|i: int|
                0 <= i <= row && i < lines.len() ==> !line_has_content(#[trigger] lines[i]),
        },
        match content_row_at_or_after(lines, row) {
            Some(found) => 0 <= row <= found < lines.len() && line_has_content(lines[found])
                && forall|i: int| row <= i < found ==> !line_has_content(#[trigger] lines[i]),
            None => forall|i: int|
                0 <= row <= i < lines.len() ==> !line_has_content(#[trigger] lines[i]),
        },
{
    lemma_content_row_before(lines, row);
    lemma_content_row_after(lines, row);
}

proof fn lemma_content_row_before(lines: Seq<LineView>, row: int)
    ensures
        match content_row_at_or_before(lines, row) {
            Some(found) => 0 <= found <= row && found < lines.len() && line_has_content(lines[found])
                && forall|i: int|
                found < i <= row && i < lines.len() ==> !line_has_content(#[trigger] lines[i]),
            None => forall|i: int|
                0 <= i <= row && i < lines.len() ==> !line_has_content(#[trigger] lines[i]),
        },
    decreases row + 1,
{
    if row >= 0 && !(row < lines.len() && line_has_content(lines[row])) {
        lemma_content_row_before(lines, row - 1);
    }
}

proof fn lemma_content_row_after(lines: Seq<LineView>, row: int)
    ensures
        match content_row_at_or_after(lines, row) {
            Some(found) => 0 <= row <= found < lines.len() && line_has_content(lines[found])
                && forall|i: int| row <= i < found ==> !line_has_content(#[trigger] lines[i]),
            None => forall|i: int|
                0 <= row <= i < lines.len() ==> !line_has_content(#[trigger] lines[i]),
        },
    decreases lines.len() - row,
{
    if 0 <= row < lines.len() && !line_has_content(lines[row]) {
        lemma_content_row_after(lines, row + 1);
    }
}

/// `offset`, moved into `range` where it lies outside.
pub open spec fn clamp_into(offset: usize, range: SourceRange<usize>) -> usize {
    if offset < range.start {
        range.start
    } else if offset > range.end {
        if range.end >= range.start {
            range.end
        } else {
            range.start
        }
    } else {
        offset
    }
}

/// The byte offset of the source at which the character with index `index`
/// of the buffer's text starts, kept before the end of the buffer's range
/// and moved back to the start of a character.
pub open spec fn buffer_offset(buffer: TextBufferView, index: int) -> usize {
    let start = buffer.source_range.start;
    let end = buffer.source_range.end;
    let target = sat_add(start as nat, byte_offset(buffer.content, index));
    let last = if end > start {
        (end - 1) as usize
    } else {
        start
    };
    let bounded = if target > last {
        last
    } else {
        target
    };
    sat_add(start as nat, floor_boundary(buffer.content, bounded - start))
}

/// The index of the character of the buffer's text that the cursor stands
/// at.
pub open spec fn buffer_index(buffer: TextBufferView, offset: usize) -> int {
    char_index(buffer.content, buffer.local(offset))
}

impl CursorView {
    /// The cursor at a byte offset, before it has been placed in a layout.
    pub open spec fn at(source_offset: usize) -> CursorView {
        CursorView { mode: CursorMode::Read, source_offset, virtual_row: 0, virtual_column: 0 }
    }

    /// The cursor with row and column brought in line with its offset. They
    /// stay as they are if no row shows the offset.
    pub open spec fn rederived(self, lines: Seq<LineView>) -> CursorView {
        match offset_row(lines, self.source_offset) {
            Some(row) => CursorView {
                virtual_row: row as usize,
                virtual_column: clamped(offset_column(lines[row], self.source_offset)),
                ..self
            },
            None => self,
        }
    }

    /// The cursor moved to the character with index `index` of the buffer.
    pub open spec fn moved_to_index(
        self,
        buffer: TextBufferView,
        index: int,
        lines: Seq<LineView>,
    ) -> CursorView {
        (CursorView { source_offset: buffer_offset(buffer, index), ..self }).rederived(lines)
    }

    /// The cursor moved to row `row`, if there is one to move to. Reading,
    /// it goes to the start of the row's range; editing, to the offset that
    /// its column stands for in that row.
    pub open spec fn moved_to_row(self, row: Option<int>, lines: Seq<LineView>) -> CursorView {
        match row {
            Some(row) => CursorView {
                virtual_row: row as usize,
                source_offset: match self.mode {
                    CursorMode::Read => match line_source_range(lines[row]) {
                        Some(range) => range.start,
                        None => self.source_offset,
                    },
                    CursorMode::Edit => match column_offset(lines[row], self.virtual_column) {
                        Some(offset) => offset,
                        None => self.source_offset,
                    },
                },
                ..self
            },
            None => self,
        }
    }

    /// The cursor switched to editing the block that its row belongs to: the
    /// offset is brought into the range of that block. Nothing happens if the
    /// row belongs to no block.
    pub open spec fn editing_block(self, document: VirtualDocumentView) -> CursorView {
        match document.block_of(self.virtual_row) {
            Some((_, block)) => CursorView {
                mode: CursorMode::Edit,
                source_offset: clamp_into(self.source_offset, block.source_range),
                ..self
            },
            None => self,
        }
    }

    /// The row from which a move down by `amount` rows looks for text: the
    /// last row at most.
    pub open spec fn row_below(self, amount: usize, lines: Seq<LineView>) -> int {
        let target = sat_add(self.virtual_row as nat, amount as nat);
        let last = if lines.len() >= 1 {
            lines.len() - 1
        } else {
            0
        };
        if target <= last {
            target as int
        } else {
            last
        }
    }

    /// The row that a move up or down arrives in: the nearest row with text
    /// in the direction of the move, looked for from as many rows away as the
    /// move says, but not from outside the rows. No other message has one.
    pub open spec fn target_row(self, message: Message, lines: Seq<LineView>) -> Option<int> {
        match message {
            Message::MoveUp(amount) => content_row_at_or_before(
                lines,
                sat_sub(self.virtual_row, amount) as int,
            ),
            Message::MoveDown(amount) => content_row_at_or_after(
                lines,
                self.row_below(amount, lines),
            ),
            _ => None,
        }
    }

    /// The cursor after it has been told `message`, given the rows of the
    /// layout and the buffer of the block being edited, if one is.
    ///
    /// Moves to the left and right and by words go by the characters of the
    /// buffer and do nothing without one. Moves up and down go to the nearest
    /// row with text in that direction. A jump sets the offset. A switch to
    /// reading puts the cursor in the first column; a switch to editing
    /// brings the offset into the range of the buffer.
    pub open spec fn updated(
        self,
        message: Message,
        lines: Seq<LineView>,
        buffer: Option<TextBufferView>,
    ) -> CursorView {
        match message {
            Message::MoveLeft(amount) => match buffer {
                Some(buffer) => {
                    let index = buffer_index(buffer, self.source_offset);
                    self.moved_to_index(
                        buffer,
                        if index >= amount {
                            index - amount
                        } else {
                            0
                        },
                        lines,
                    )
                },
                None => self,
            },
            Message::MoveRight(amount) => match buffer {
                Some(buffer) => {
                    let index = buffer_index(buffer, self.source_offset);
                    self.moved_to_index(
                        buffer,
                        if index + amount <= buffer.content.len() {
                            index + amount
                        } else {
                            buffer.content.len() as int
                        },
                        lines,
                    )
                },
                None => self,
            },
            Message::MoveWordForward => match buffer {
                Some(buffer) => self.moved_to_index(
                    buffer,
                    next_word(buffer.content, buffer_index(buffer, self.source_offset)),
                    lines,
                ),
                None => self,
            },
            Message::MoveWordBackward => match buffer {
                Some(buffer) => self.moved_to_index(
                    buffer,
                    previous_word(buffer.content, buffer_index(buffer, self.source_offset)),
                    lines,
                ),
                None => self,
            },
            Message::MoveUp(_) => self.moved_to_row(self.target_row(message, lines), lines),
            Message::MoveDown(_) => self.moved_to_row(self.target_row(message, lines), lines),
            Message::Jump(offset) => (CursorView { source_offset: offset, ..self }).rederived(lines),
            Message::SwitchMode(CursorMode::Read) => CursorView {
                mode: CursorMode::Read,
                virtual_row: match offset_row(lines, self.source_offset) {
                    Some(row) => row as usize,
                    None => self.virtual_row,
                },
                virtual_column: 0,
                ..self
            },
            Message::SwitchMode(CursorMode::Edit) => (CursorView {
                mode: CursorMode::Edit,
                source_offset: match buffer {
                    Some(buffer) => clamp_into(self.source_offset, buffer.source_range),
                    None => self.source_offset,
                },
                ..self
            }).rederived(lines),
        }
    }
}

impl Default for Cursor {
    fn default() -> (cursor: Self)
        ensures
            cursor@ == CursorView::at(0),
    {
        Cursor::new(0)
    }
}

impl Cursor {
    pub fn new(source_offset: usize) -> (cursor: Self)
        ensures
            cursor@ == CursorView::at(source_offset),
    {
        Self { mode: CursorMode::Read, source_offset, virtual_line: 0, virtual_column: 0 }
    }

    pub fn mode(&self) -> (mode: &CursorMode)
        ensures
            *mode == self@.mode,
    {
        &self.mode
    }

    pub fn source_offset(&self) -> (offset: usize)
        ensures
            offset == self@.source_offset,
    {
        self.source_offset
    }

    pub fn virtual_line(&self) -> (row: usize)
        ensures
            row == self@.virtual_row,
    {
        self.virtual_line
    }

    pub fn virtual_row(&self) -> (row: usize)
        ensures
            row == self@.virtual_row,
    {
        self.virtual_line
    }

    pub fn virtual_column(&self) -> (column: usize)
        ensures
            column == self@.virtual_column,
    {
        self.virtual_column
    }

    /// Switches to reading and puts the cursor in the row of its offset.
    pub fn enter_read_mode(&mut self, virtual_document: &VirtualDocument)
        ensures
            final(self)@ == old(self)@.updated(
                Message::SwitchMode(CursorMode::Read),
                virtual_document@.lines,
                None,
            ),
    {
        self.update(Message::SwitchMode(CursorMode::Read), virtual_document.lines(), &None);
    }

    /// Switches to editing the block that the cursor stands in.
    pub fn enter_edit_mode(&mut self, virtual_document: &VirtualDocument)
        ensures
            final(self)@ == old(self)@.editing_block(virtual_document@),
    {
        if let Some((_, block)) = virtual_document.get_block(self.virtual_line) {
            let range = block.source_range();
            if self.source_offset < range.start {
                self.source_offset = range.start;
            } else if self.source_offset > range.end {
                self.source_offset = if range.end >= range.start {
                    range.end
                } else {
                    range.start
                };
            }
            self.mode = CursorMode::Edit;
        }
    }

    /// The row that the offset of the cursor is shown in, with its index: the
    /// first row that holds the offset, or, if no row does, the last row
    /// that ends just before it.
    pub fn find_source_line(&self, lines: &[VirtualLine]) -> (found: Option<(usize, VirtualLine)>)
        ensures
            match found {
                Some((row, line)) => offset_row(line_views(lines@), self@.source_offset) == Some(
                    row as int,
                ) && row < lines@.len() && line@ == lines@[row as int]@,
                None => offset_row(line_views(lines@), self@.source_offset).is_none(),
            },
    {
        match source_offset_to_virtual_line(self.source_offset, lines) {
            Some(row) => {
                proof {
                    lemma_first_row_containing(line_views(lines@), self.source_offset);
                    lemma_last_row_ending_at(line_views(lines@), self.source_offset);
                }
                Some((row, lines[row].duplicate()))
            },
            None => None,
        }
    }

    /// The column of `line` that the offset of the cursor is shown at.
    pub fn find_source_column(&self, line: VirtualLine) -> (column: Option<usize>)
        ensures
            column == Some(clamped(offset_column(line@, self@.source_offset))),
    {
        Some(source_offset_to_virtual_column(self.source_offset, &line))
    }

    /// Moves up by `amount` rows, to the nearest row with text.
    pub fn cursor_up(&mut self, amount: usize, lines: &[VirtualLine])
        ensures
            final(self)@ == old(self)@.updated(Message::MoveUp(amount), line_views(lines@), None),
            match old(self)@.target_row(Message::MoveUp(amount), line_views(lines@)) {
                Some(row) => 0 <= row < lines@.len() && (old(self)@.mode is Edit && is_plain_row(
                    lines@[row]@,
                ) ==> final(self)@.source_offset == plain_row_offset(
                    lines@[row]@,
                    old(self)@.virtual_column,
                )),
                None => true,
            },
    {
        self.update(Message::MoveUp(amount), lines, &None);
    }

    /// Moves down by `amount` rows, to the nearest row with text.
    pub fn cursor_down(&mut self, amount: usize, lines: &[VirtualLine])
        ensures
            final(self)@ == old(self)@.updated(Message::MoveDown(amount), line_views(lines@), None),
            match old(self)@.target_row(Message::MoveDown(amount), line_views(lines@)) {
                Some(row) => 0 <= row < lines@.len() && (old(self)@.mode is Edit && is_plain_row(
                    lines@[row]@,
                ) ==> final(self)@.source_offset == plain_row_offset(
                    lines@[row]@,
                    old(self)@.virtual_column,
                )),
                None => true,
            },
    {
        self.update(Message::MoveDown(amount), lines, &None);
    }

    /// Brings row and column in line with the offset.
    fn rederive(&mut self, lines: &[VirtualLine])
        ensures
            final(self)@ == old(self)@.rederived(line_views(lines@)),
    {
        if let Some(row) = source_offset_to_virtual_line(self.source_offset, lines) {
            proof {
                lemma_first_row_containing(line_views(lines@), self.source_offset);
                lemma_last_row_ending_at(line_views(lines@), self.source_offset);
            }
            self.virtual_line = row;
            self.virtual_column = source_offset_to_virtual_column(self.source_offset, &lines[row]);
        }
    }

    /// Moves to the character with index `index` of the buffer.
    fn move_to_index(&mut self, buffer: &TextBuffer, chars: &Vec<char>, index: usize, lines: &[VirtualLine])
        requires
            chars@ == buffer@.content,
            index <= chars.len(),
        ensures
            final(self)@ == old(self)@.moved_to_index(buffer@, index as int, line_views(lines@)),
    {
        let start = buffer.source_range.start;
        let end = buffer.source_range.end;
        let target = start.saturating_add(bytes_before(chars, index));
        let last = if end > start {
            end - 1
        } else {
            start
        };
        let bounded = if target > last {
            last
        } else {
            target
        };
        let (_, at) = locate(chars, bounded - start);
        self.source_offset = start.saturating_add(at);
        self.rederive(lines);
    }

    /// Moves to row `row`, if there is one to move to.
    fn move_to_row(&mut self, row: Option<usize>, lines: &[VirtualLine])
        requires
            match row {
                Some(row) => row < lines@.len(),
                None => true,
            },
        ensures
            final(self)@ == old(self)@.moved_to_row(
                match row {
                    Some(row) => Some(row as int),
                    None => None,
                },
                line_views(lines@),
            ),
            match row {
                Some(row) => old(self)@.mode is Edit && is_plain_row(lines@[row as int]@)
                    ==> final(self)@.source_offset == plain_row_offset(
                    lines@[row as int]@,
                    old(self)@.virtual_column,
                ),
                None => true,
            },
    {
        if let Some(row) = row {
            assert(line_views(lines@)[row as int] == lines@[row as int]@);
            self.virtual_line = row;
            match self.mode {
                CursorMode::Read => {
                    if let Some(range) = lines[row].source_range() {
                        self.source_offset = range.start;
                    }
                },
                CursorMode::Edit => {
                    if let Some(offset) = virtual_position_to_source_offset(
                        (row, self.virtual_column),
                        lines,
                    ) {
                        self.source_offset = offset;
                    }
                },
            }
        }
    }

    /// Tells the cursor what to do.
    ///
    /// A move up or down while editing that arrives in a plain row puts the
    /// cursor as far behind the start of that row as its column says, and at
    /// the end of the row if the row is shorter.
    pub fn update(&mut self, message: Message, lines: &[VirtualLine], text_buffer: &Option<TextBuffer>)
        ensures
            final(self)@ == old(self)@.updated(
                message,
                line_views(lines@),
                option_buffer_view(*text_buffer),
            ),
            match old(self)@.target_row(message, line_views(lines@)) {
                Some(row) => 0 <= row < lines@.len() && (old(self)@.mode is Edit && is_plain_row(
                    lines@[row]@,
                ) ==> final(self)@.source_offset == plain_row_offset(
                    lines@[row]@,
                    old(self)@.virtual_column,
                )),
                None => true,
            },
    {
        match message {
            Message::MoveLeft(amount) => {
                if let Some(buffer) = text_buffer {
                    let chars = to_chars(buffer.content.as_str());
                    let local = self.source_offset.saturating_sub(buffer.source_range.start);
                    let (index, _) = locate(&chars, local);
                    self.move_to_index(buffer, &chars, index.saturating_sub(amount), lines);
                }
            },
            Message::MoveRight(amount) => {
                if let Some(buffer) = text_buffer {
                    let chars = to_chars(buffer.content.as_str());
                    let local = self.source_offset.saturating_sub(buffer.source_range.start);
                    let (index, _) = locate(&chars, local);
                    let target = if amount <= chars.len() - index {
                        index + amount
                    } else {
                        chars.len()
                    };
                    self.move_to_index(buffer, &chars, target, lines);
                }
            },
            Message::MoveWordForward => {
                if let Some(buffer) = text_buffer {
                    let chars = to_chars(buffer.content.as_str());
                    let local = self.source_offset.saturating_sub(buffer.source_range.start);
                    let (index, _) = locate(&chars, local);
                    let mut i = index;
                    while i < chars.len() && chars[i] != ' '
                        invariant
                            index <= i <= chars.len(),
                            skip_word(chars@, index as int) == skip_word(chars@, i as int),
                        decreases chars.len() - i,
                    {
                        i += 1;
                    }
                    let ghost word_end = i;
                    while i < chars.len() && chars[i] == ' '
                        invariant
                            word_end <= i <= chars.len(),
                            skip_spaces(chars@, word_end as int) == skip_spaces(chars@, i as int),
                        decreases chars.len() - i,
                    {
                        i += 1;
                    }
                    self.move_to_index(buffer, &chars, i, lines);
                }
            },
            Message::MoveWordBackward => {
                if let Some(buffer) = text_buffer {
                    let chars = to_chars(buffer.content.as_str());
                    let local = self.source_offset.saturating_sub(buffer.source_range.start);
                    let (index, _) = locate(&chars, local);
                    let mut i = index;
                    while i > 0 && chars[i - 1] == ' '
                        invariant
                            i <= index <= chars.len(),
                            back_spaces(chars@, index as int) == back_spaces(chars@, i as int),
                        decreases i,
                    {
                        i -= 1;
                    }
                    let ghost word_end = i;
                    while i > 0 && chars[i - 1] != ' '
                        invariant
                            i <= word_end <= chars.len(),
                            back_word(chars@, word_end as int) == back_word(chars@, i as int),
                        decreases i,
                    {
                        i -= 1;
                    }
                    self.move_to_index(buffer, &chars, i, lines);
                }
            },
            Message::MoveUp(amount) => {
                let target = self.virtual_line.saturating_sub(amount);
                let ghost views = line_views(lines@);
                let mut row = target;
                let mut found: Option<usize> = None;
                loop
                    invariant_except_break
                        row <= target,
                        found.is_none(),
                        views == line_views(lines@),
                        content_row_at_or_before(views, target as int) == content_row_at_or_before(
                            views,
                            row as int,
                        ),
                    ensures
                        views == line_views(lines@),
                        match found {
                            Some(row) => row < lines@.len() && content_row_at_or_before(
                                views,
                                target as int,
                            ) == Some(row as int),
                            None => content_row_at_or_before(views, target as int).is_none(),
                        },
                    decreases row,
                {
                    if row < lines.len() {
                        assert(views[row as int] == lines@[row as int]@);
                        if lines[row].has_content() {
                            found = Some(row);
                            break ;
                        }
                    }
                    if row == 0 {
                        assert(content_row_at_or_before(views, -1).is_none());
                        break ;
                    }
                    row -= 1;
                }
                self.move_to_row(found, lines);
            },
            Message::MoveDown(amount) => {
                let below = self.virtual_line.saturating_add(amount);
                let last = if lines.len() >= 1 {
                    lines.len() - 1
                } else {
                    0
                };
                let target = if below <= last {
                    below
                } else {
                    last
                };
                let ghost views = line_views(lines@);
                let mut row = target;
                let mut found: Option<usize> = None;
                while row < lines.len()
                    invariant_except_break
                        target <= row,
                        found.is_none(),
                        views == line_views(lines@),
                        content_row_at_or_after(views, target as int) == content_row_at_or_after(
                            views,
                            row as int,
                        ),
                    ensures
                        views == line_views(lines@),
                        match found {
                            Some(row) => row < lines@.len() && content_row_at_or_after(
                                views,
                                target as int,
                            ) == Some(row as int),
                            None => content_row_at_or_after(views, target as int).is_none(),
                        },
                    decreases lines.len() - row,
                {
                    assert(views[row as int] == lines@[row as int]@);
                    if lines[row].has_content() {
                        found = Some(row);
                        break ;
                    }
                    row += 1;
                }
                self.move_to_row(found, lines);
            },
            Message::Jump(offset) => {
                self.source_offset = offset;
                self.rederive(lines);
            },
            Message::SwitchMode(CursorMode::Read) => {
                self.mode = CursorMode::Read;
                if let Some(row) = source_offset_to_virtual_line(self.source_offset, lines) {
                    self.virtual_line = row;
                }
                self.virtual_column = 0;
            },
            Message::SwitchMode(CursorMode::Edit) => {
                self.mode = CursorMode::Edit;
                if let Some(buffer) = text_buffer {
                    let range = &buffer.source_range;
                    if self.source_offset < range.start {
                        self.source_offset = range.start;
                    } else if self.source_offset > range.end {
                        self.source_offset = if range.end >= range.start {
                            range.end
                        } else {
                            range.start
                        };
                    }
                }
                self.rederive(lines);
            },
        }
    }
}


/// A move inside the buffer keeps the cursor inside the range of the buffer,
/// before its end where the range is not empty, and at the start of a
/// character of the buffer's text.
pub proof fn lemma_buffer_offset(buffer: TextBufferView, index: int)
    requires
        buffer.source_range.start <= buffer.source_range.end,
    ensures
        buffer.source_range.start <= buffer_offset(buffer, index) <= buffer.source_range.end,
        buffer.source_range.start < buffer.source_range.end ==> buffer_offset(buffer, index)
            < buffer.source_range.end,
        crate::text::is_boundary(
            buffer.content,
            buffer_offset(buffer, index) - buffer.source_range.start,
        ),
{
    let start = buffer.source_range.start;
    let end = buffer.source_range.end;
    let target = sat_add(start as nat, byte_offset(buffer.content, index));
    let last = if end > start {
        (end - 1) as usize
    } else {
        start
    };
    let bounded = if target > last {
        last
    } else {
        target
    };
    crate::text::lemma_char_index_bounds(buffer.content, bounded - start);
    let at = char_index(buffer.content, bounded - start);
    let boundary = floor_boundary(buffer.content, bounded - start);
    crate::text::lemma_char_index(buffer.content, boundary as int, at);
}

/// A switch to editing leaves the cursor inside the range of the buffer.
pub proof fn lemma_edit_mode_offset(cursor: CursorView, lines: Seq<LineView>, buffer: TextBufferView)
    requires
        buffer.source_range.start <= buffer.source_range.end,
    ensures
        buffer.source_range.start <= cursor.updated(
            Message::SwitchMode(CursorMode::Edit),
            lines,
            Some(buffer),
        ).source_offset <= buffer.source_range.end,
{
}


/// In a text of printed characters of ASCII, bytes and characters count
/// alike.
proof fn lemma_ascii_bytes(text: Seq<char>, count: int)
    requires
        all_printable_ascii(text),
        0 <= count <= text.len(),
    ensures
        byte_offset(text, count) == count,
        char_index(text, count) == count,
    decreases count,
{
    if count > 0 {
        lemma_ascii_bytes(text, count - 1);
        assert(text.take(count).drop_last() =~= text.take(count - 1));
        assert(text.take(count).last() == text[count - 1]);
    } else {
        assert(text.take(0) =~= Seq::<char>::empty());
    }
    if count < text.len() {
        assert(text.take(count + 1).drop_last() =~= text.take(count));
    }
    lemma_char_index(text, count, count);
}

/// Printed characters of ASCII that take one column each take as many
/// columns as they are.
proof fn lemma_ones_width(text: Seq<char>, count: int)
    requires
        all_printable_ascii(text),
        ascii_takes_one_column(text, count),
        0 <= count <= text.len(),
    ensures
        chars_width(text.take(count)) == count,
    decreases count,
{
    if count > 0 {
        lemma_ones_width(text, count - 1);
        assert(text.take(count).drop_last() =~= text.take(count - 1));
        assert(text.take(count).last() == text[count - 1]);
    } else {
        assert(text.take(0) =~= Seq::<char>::empty());
    }
}

/// Among the first characters of such a text, a column is reached with as
/// many characters as its number says.
proof fn lemma_ones_reach_upto(text: Seq<char>, count: int, need: nat, upto: int)
    requires
        all_printable_ascii(text),
        ascii_takes_one_column(text, count),
        0 <= upto <= count <= text.len(),
        need > 0,
    ensures
        reach(text.take(upto), need) == if upto >= need {
            Some(need as int)
        } else {
            None
        },
    decreases upto,
{
    if upto > 0 {
        lemma_ones_reach_upto(text, count, need, upto - 1);
        lemma_ones_width(text, upto);
        assert(text.take(upto).drop_last() =~= text.take(upto - 1));
    } else {
        assert(text.take(0) =~= Seq::<char>::empty());
    }
}

/// In such a text a column is reached with as many characters as its number
/// says.
proof fn lemma_ones_reach(text: Seq<char>, count: int, need: nat)
    requires
        all_printable_ascii(text),
        ascii_takes_one_column(text, count),
        0 < need <= count <= text.len(),
    ensures
        reach(text, need) == Some(need as int),
{
    lemma_ones_reach_upto(text, count, need, need as int);
    lemma_reach_found(text, need, need as int);
}

/// A plain row stands for the range of its span, and has text if its span
/// has.
proof fn lemma_plain_row_range(line: LineView)
    requires
        is_plain_row(line),
    ensures
        line_source_range(line) == line[0].source_range(),
        row_has_text(line) <==> line[0].span().content.len() > 0,
{
    assert(line.drop_last() =~= Seq::<VirtualSpanView>::empty());
    assert(line.last() == line[0]);
    assert(line_source_range(line.drop_last()).is_none());
}

/// Whether every character of the text takes one byte and one column.
pub open spec fn is_narrow(text: Seq<char>) -> bool {
    forall|i: int|
        0 <= i < text.len() ==> crate::text::utf8_len(#[trigger] text[i]) == 1 && char_width(text[i])
            == 1
}

/// In a text of characters of one byte and one column, bytes, characters and
/// columns count alike.
pub proof fn lemma_narrow_text(text: Seq<char>, count: int)
    requires
        is_narrow(text),
        0 <= count <= text.len(),
    ensures
        byte_offset(text, count) == count,
        chars_width(text.take(count)) == count,
        char_index(text, count) == count,
        count > 0 ==> reach(text, count as nat) == Some(count),
        reach(text, (text.len() + 1) as nat).is_none(),
    decreases count,
{
    lemma_narrow_reach(text, (text.len() + 1) as nat);
    if count > 0 {
        lemma_narrow_text(text, count - 1);
        assert(text.take(count).drop_last() =~= text.take(count - 1));
        assert(text.take(count).last() == text[count - 1]);
        lemma_narrow_reach(text.take(count - 1), count as nat);
        assert(is_narrow(text.take(count))) by {
            assert forall|i: int| 0 <= i < count implies crate::text::utf8_len(
                #[trigger] text.take(count)[i],
            ) == 1 && char_width(text.take(count)[i]) == 1 by {
                assert(text.take(count)[i] == text[i]);
            }
        }
        assert(reach(text.take(count), count as nat) == Some(count));
        lemma_reach_found(text, count as nat, count);
    } else {
        assert(text.take(0) =~= Seq::<char>::empty());
    }
    if count < text.len() {
        assert(text.take(count + 1).drop_last() =~= text.take(count));
        assert(text.take(count + 1).last() == text[count]);
    }
    crate::text::lemma_char_index(text, count, count);
}

/// A text of characters of one column reaches no column behind its end.
proof fn lemma_narrow_reach(text: Seq<char>, need: nat)
    requires
        forall|i: int| 0 <= i < text.len() ==> char_width(#[trigger] text[i]) == 1,
        need > text.len(),
    ensures
        reach(text, need).is_none(),
        chars_width(text) == text.len(),
    decreases text.len(),
{
    if text.len() > 0 {
        assert forall|i: int| 0 <= i < text.len() - 1 implies char_width(
            #[trigger] text.drop_last()[i],
        ) == 1 by {
            assert(text.drop_last()[i] == text[i]);
        }
        lemma_narrow_reach(text.drop_last(), need);
        assert(text.last() == text[text.len() - 1]);
    }
}

/// In a row that is one span of text whose characters all take one byte and
/// one column, byte offsets and columns count alike: the offset at a distance
/// from the start of the row is shown in the column of that distance, and that
/// column stands for the offset again. A column behind the text stands for
/// the end of the row.
pub proof fn lemma_plain_row_mapping(text: crate::span::SpanView, range: SourceRange<usize>, distance: usize)
    requires
        is_narrow(text.content),
        range.start + text.content.len() == range.end,
    ensures
        distance <= text.content.len() ==> offset_column(
            seq![VirtualSpanView::Content(text, range)],
            (range.start + distance) as usize,
        ) == distance,
        distance <= text.content.len() ==> column_offset(
            seq![VirtualSpanView::Content(text, range)],
            distance,
        ) == Some((range.start + distance) as usize),
        distance > text.content.len() ==> column_offset(
            seq![VirtualSpanView::Content(text, range)],
            distance,
        ) == Some(range.end),
{
    let line = seq![VirtualSpanView::Content(text, range)];
    let none = Seq::<VirtualSpanView>::empty();
    let offset = (range.start + distance) as usize;
    assert(line.drop_last() =~= none);
    assert(line.last() == VirtualSpanView::Content(text, range));
    assert(line_source_range(none).is_none());
    assert(line_source_range(line) == Some(range));
    if text.content.len() > 0 {
        assert(line[0] is Content && line[0].span().content.len() > 0);
    }
    assert(column_scan(none, offset) == (ColumnScan { column: 0, found: false }));
    assert(offset_scan(none, distance, range.end) == (OffsetScan { column: 0, offset: None }));
    if distance <= text.content.len() {
        lemma_narrow_text(text.content, distance as int);
        lemma_narrow_text(text.content, text.content.len() as int);
        assert(text.content.take(text.content.len() as int) =~= text.content);
    } else {
        lemma_narrow_text(text.content, 0);
        lemma_narrow_reach(text.content, distance as nat);
    }
}

} // verus!
