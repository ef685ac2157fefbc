//! The layout engine: turns one block of the document tree into the rows it
//! is shown as, either as the literal source text or with Markdown-aware
//! styling.

use vstd::prelude::*;

use crate::ast::{
    lemma_node_views, node_views, BlockQuoteKind, HeadingLevel, ItemKind, Node, NodeView,
    SourceRange, TaskKind,
};
use crate::rich_text::{plain_text, RichText, TextSegmentView};
use crate::span::{Color, Span, SpanStyle, SpanView};
use crate::stylized_text::{stylize, stylized, FontStyle};
use crate::text::{
    byte_len, byte_length, byte_slice, clamped, decimal, decimal_string, lines_of, repeat_char,
    repeated, sat_add, sat_sub, slice_bytes, space_string, spaces, split_lines, str_width,
    string_views, to_chars, to_uppercase, unicode_width, uppercase,
};
use crate::text_wrap::{ascii_space_words, measured, wrap_preserve_trailing, wrapped};
use crate::virtual_document::{
    empty_line_view, lemma_line_views_push, line_views, span_views, LineView, VirtualBlock,
    VirtualBlockView, VirtualLine, VirtualSpan, VirtualSpanView,
};

verus! {

/// How a block is rendered: `Raw` shows the literal source text, `Visual`
/// the styled text with its decorations.
#[derive(Clone, Copy, PartialEq, Eq, Debug, Structural)]
pub enum RenderStyle {
    Raw,
    Visual,
}

/// The marker that starts every continuation row of a wrapped text.
pub open spec fn wrap_marker() -> Seq<char> {
    "⤷ "@
}

/// The columns that a wrapped text leaves free on its continuation rows.
pub open spec fn wrap_marker_room() -> usize {
    sat_add(str_width(wrap_marker()), 1)
}

/// The columns of blanks between the prefix and the wrap marker.
pub open spec fn continuation_indent(prefix: SpanView) -> nat {
    if prefix.width() > 2 {
        (prefix.width() - 1) as nat
    } else {
        1
    }
}

/// The style of the wrap marker.
pub open spec fn wrap_marker_style() -> SpanStyle {
    SpanStyle { fg: Some(Color::Black), ..SpanStyle::plain() }
}

/// One row of a wrapped text. The first row holds the prefix, the marker if
/// there is one and the block is shown styled, and the text. Every other row
/// holds the prefix, blanks, the wrap marker, and the text.
pub open spec fn wrapped_row(
    line: Seq<char>,
    first: bool,
    range: SourceRange<usize>,
    text_style: SpanStyle,
    prefix: SpanView,
    marker: Option<SpanView>,
    option: RenderStyle,
) -> LineView {
    let content = VirtualSpanView::Content(SpanView { content: line, style: text_style }, range);
    if first {
        match marker {
            Some(marker) if option == RenderStyle::Visual => seq![
                VirtualSpanView::Synthetic(prefix),
                VirtualSpanView::Synthetic(marker),
                content,
            ],
            _ => seq![VirtualSpanView::Synthetic(prefix), content],
        }
    } else {
        seq![
            VirtualSpanView::Synthetic(prefix),
            VirtualSpanView::Synthetic(
                SpanView { content: spaces(continuation_indent(prefix)), style: prefix.style },
            ),
            VirtualSpanView::Synthetic(
                SpanView { content: wrap_marker(), style: wrap_marker_style() },
            ),
            content,
        ]
    }
}

/// The rows laid out so far, and the offset at which the next row starts.
pub struct RowsAt {
    pub rows: Seq<LineView>,
    pub start: usize,
}

/// Lays wrapped lines out as rows. Each row stands for the bytes of its line
/// from the running offset on, cut off at the end of `source_range`.
pub open spec fn wrapped_rows(
    lines: Seq<Seq<char>>,
    text_style: SpanStyle,
    prefix: SpanView,
    source_range: SourceRange<usize>,
    marker: Option<SpanView>,
    option: RenderStyle,
) -> RowsAt
    decreases lines.len(),
{
    if lines.len() == 0 {
        RowsAt { rows: Seq::empty(), start: source_range.start }
    } else {
        let before = wrapped_rows(
            lines.drop_last(),
            text_style,
            prefix,
            source_range,
            marker,
            option,
        );
        let next = sat_add(before.start as nat, byte_len(lines.last()));
        let end = if next <= source_range.end {
            next
        } else {
            source_range.end
        };
        RowsAt {
            rows: before.rows.push(
                wrapped_row(
                    lines.last(),
                    lines.len() == 1,
                    SourceRange { start: before.start, end },
                    text_style,
                    prefix,
                    marker,
                    option,
                ),
            ),
            start: next,
        }
    }
}

/// The rows that `text` is shown as when it is wrapped to `width` columns.
pub open spec fn wrapped_text(
    text: Seq<char>,
    text_style: SpanStyle,
    prefix: SpanView,
    source_range: SourceRange<usize>,
    width: usize,
    marker: Option<SpanView>,
    option: RenderStyle,
) -> Seq<LineView> {
    wrapped_rows(
        wrapped(measured(ascii_space_words(text)), width as nat, wrap_marker_room() as nat),
        text_style,
        prefix,
        source_range,
        marker,
        option,
    ).rows
}

/// The view of an optional span.
pub open spec fn option_span_view(span: Option<Span>) -> Option<SpanView> {
    match span {
        Some(span) => Some(span@),
        None => None,
    }
}

/// The row made of the given spans.
fn row2(a: VirtualSpan, b: VirtualSpan) -> (line: VirtualLine)
    ensures
        line@ == seq![a@, b@],
{
    let mut spans: Vec<VirtualSpan> = Vec::new();
    spans.push(a);
    spans.push(b);
    assert(span_views(spans@) =~= seq![a@, b@]);
    VirtualLine::from_spans(spans)
}

fn row3(a: VirtualSpan, b: VirtualSpan, c: VirtualSpan) -> (line: VirtualLine)
    ensures
        line@ == seq![a@, b@, c@],
{
    let mut spans: Vec<VirtualSpan> = Vec::new();
    spans.push(a);
    spans.push(b);
    spans.push(c);
    assert(span_views(spans@) =~= seq![a@, b@, c@]);
    VirtualLine::from_spans(spans)
}

fn row4(a: VirtualSpan, b: VirtualSpan, c: VirtualSpan, d: VirtualSpan) -> (line: VirtualLine)
    ensures
        line@ == seq![a@, b@, c@, d@],
{
    let mut spans: Vec<VirtualSpan> = Vec::new();
    spans.push(a);
    spans.push(b);
    spans.push(c);
    spans.push(d);
    assert(span_views(spans@) =~= seq![a@, b@, c@, d@]);
    VirtualLine::from_spans(spans)
}

// Internal consolidated text wrapping function
fn text_wrap_internal(
    text_content: &str,
    text_style: SpanStyle,
    prefix: &Span,
    source_range: &SourceRange<usize>,
    width: usize,
    marker: &Option<Span>,
    option: &RenderStyle,
) -> (rows: Vec<VirtualLine>)
    ensures
        line_views(rows@) == wrapped_text(
            text_content@,
            text_style,
            prefix@,
            *source_range,
            width,
            option_span_view(*marker),
            *option,
        ),
{
    let prefix_width = prefix.width();
    let wrap_marker = "⤷ ";
    let wrapped_lines = wrap_preserve_trailing(
        text_content,
        width,
        unicode_width(wrap_marker).saturating_add(1),
    );
    let ghost lines = string_views(wrapped_lines@);
    let mut current_range_start = source_range.start;
    let mut rows: Vec<VirtualLine> = Vec::new();
    let mut i: usize = 0;
    assert(line_views(rows@) =~= Seq::<LineView>::empty());
    while i < wrapped_lines.len()
        invariant
            i <= wrapped_lines.len(),
            lines == string_views(wrapped_lines@),
            prefix_width == prefix@.width(),
            wrap_marker@ == "⤷ "@,
            wrapped_rows(
                lines.take(i as int),
                text_style,
                prefix@,
                *source_range,
                option_span_view(*marker),
                *option,
            ) == (RowsAt { rows: line_views(rows@), start: current_range_start }),
        decreases wrapped_lines.len() - i,
    {
        proof {
            assert(lines.take(i + 1).drop_last() =~= lines.take(i as int));
            assert(lines.take(i + 1).last() == wrapped_lines@[i as int]@);
        }
        let line = wrapped_lines[i].as_str();
        let line_byte_len = byte_length(&to_chars(line));
        let next = current_range_start.saturating_add(line_byte_len);
        let line_source_range = current_range_start..(if next <= source_range.end {
            next
        } else {
            source_range.end
        });
        current_range_start = next;
        let first_line = i == 0;
        let content_span = Span::styled(line, text_style);
        let row = if first_line {
            match marker {
                Some(marker) if matches!(option, RenderStyle::Visual) => row3(
                    VirtualSpan::synthetic(prefix.duplicate()),
                    VirtualSpan::synthetic(marker.duplicate()),
                    VirtualSpan::content(content_span, &line_source_range),
                ),
                _ => row2(
                    VirtualSpan::synthetic(prefix.duplicate()),
                    VirtualSpan::content(content_span, &line_source_range),
                ),
            }
        } else {
            let indent = if prefix_width > 2 {
                prefix_width - 1
            } else {
                1
            };
            row4(
                VirtualSpan::synthetic(prefix.duplicate()),
                VirtualSpan::synthetic(Span::from_string(space_string(indent), prefix.style)),
                VirtualSpan::synthetic(Span::styled(wrap_marker, SpanStyle::new().fg(Color::Black))),
                VirtualSpan::content(content_span, &line_source_range),
            )
        };
        proof {
            lemma_line_views_push(rows@, row);
        }
        rows.push(row);
        i += 1;
    }
    proof {
        assert(lines.take(i as int) =~= lines);
    }
    rows
}

/// Wraps the text of a span to `width` columns. The rows keep the span's
/// style; every row starts with `prefix`, the first carries `marker` when the
/// block is shown styled, the others the wrap marker.
pub fn text_wrap(
    text: &Span,
    prefix: Span,
    source_range: &SourceRange<usize>,
    width: usize,
    marker: Option<Span>,
    option: &RenderStyle,
) -> (rows: Vec<VirtualLine>)
    ensures
        line_views(rows@) == wrapped_text(
            text@.content,
            text@.style,
            prefix@,
            *source_range,
            width,
            option_span_view(marker),
            *option,
        ),
{
    text_wrap_internal(
        text.content.as_str(),
        text.style,
        &prefix,
        source_range,
        width,
        &marker,
        option,
    )
}

/// The range of a line that starts at `start` and is `line_width` long, with
/// the line feed that ends it if `newline` is set.
pub open spec fn line_range_of(start: usize, line_width: usize, newline: bool) -> SourceRange<usize> {
    SourceRange {
        start,
        end: sat_add(
            sat_add(start as nat, line_width as nat) as nat,
            if newline {
                1
            } else {
                0
            },
        ),
    }
}

pub fn line_range(start: usize, line_width: usize, newline: bool) -> (range: SourceRange<usize>)
    ensures
        range == line_range_of(start, line_width, newline),
{
    // + 1 for newline
    let end = start.saturating_add(line_width).saturating_add(
        if newline {
            1
        } else {
            0
        },
    );
    start..end
}

/// One line of literal source text as rows: an empty line is a row with an
/// empty span of text, any other line is wrapped.
pub open spec fn raw_line_rows(
    line: Seq<char>,
    range: SourceRange<usize>,
    max_width: usize,
    prefix: SpanView,
) -> Seq<LineView> {
    if line.len() == 0 {
        seq![
            seq![
                VirtualSpanView::Synthetic(prefix),
                VirtualSpanView::Content(SpanView::empty(), range),
            ],
        ]
    } else {
        wrapped_text(line, SpanStyle::plain(), prefix, range, max_width, None, RenderStyle::Raw)
    }
}

/// Lays the lines of literal source text out as rows. Each line stands for
/// its bytes from the running offset on, and one more for its line feed.
pub open spec fn raw_rows(
    lines: Seq<Seq<char>>,
    start: usize,
    max_width: usize,
    prefix: SpanView,
) -> RowsAt
    decreases lines.len(),
{
    if lines.len() == 0 {
        RowsAt { rows: Seq::empty(), start }
    } else {
        let before = raw_rows(lines.drop_last(), start, max_width, prefix);
        let range = line_range_of(before.start, clamped_bytes(lines.last()), true);
        RowsAt {
            rows: before.rows + raw_line_rows(lines.last(), range, max_width, prefix),
            start: range.end,
        }
    }
}

/// The number of bytes of a line, as far as a `usize` counts.
pub open spec fn clamped_bytes(line: Seq<char>) -> usize {
    clamped(byte_len(line))
}

/// The rows that the literal source text `content` is shown as, followed by
/// an empty row.
pub open spec fn raw_text(
    content: Seq<char>,
    source_range: SourceRange<usize>,
    max_width: usize,
    prefix: SpanView,
) -> Seq<LineView> {
    raw_rows(lines_of(content), source_range.start, max_width, prefix).rows.push(empty_line_view())
}

fn render_raw_line(
    line: &str,
    prefix: &Span,
    source_range: &SourceRange<usize>,
    max_width: usize,
) -> (rows: Vec<VirtualLine>)
    ensures
        line_views(rows@) == wrapped_text(
            line@,
            SpanStyle::plain(),
            prefix@,
            *source_range,
            max_width,
            None,
            RenderStyle::Raw,
        ),
{
    text_wrap_internal(
        line,
        SpanStyle::new(),
        prefix,
        source_range,
        max_width,
        &None,
        &RenderStyle::Raw,
    )
}

/// Moves the rows of `more` to the end of `rows`.
pub fn append_rows(rows: &mut Vec<VirtualLine>, more: Vec<VirtualLine>)
    ensures
        line_views(final(rows)@) == line_views(old(rows)@) + line_views(more@),
{
    let ghost added = more@;
    let mut more = more;
    rows.append(&mut more);
    assert(line_views(rows@) =~= line_views(old(rows)@) + line_views(added));
}

pub fn render_raw(
    content: &str,
    source_range: &SourceRange<usize>,
    max_width: usize,
    prefix: Span,
) -> (rows: Vec<VirtualLine>)
    ensures
        line_views(rows@) == raw_text(content@, *source_range, max_width, prefix@),
{
    let lines = split_lines(content);
    let ghost texts = string_views(lines@);
    let mut current_range_start = source_range.start;
    let mut rows: Vec<VirtualLine> = Vec::new();
    let mut i: usize = 0;
    assert(line_views(rows@) =~= Seq::<LineView>::empty());
    while i < lines.len()
        invariant
            i <= lines.len(),
            texts == string_views(lines@),
            raw_rows(texts.take(i as int), source_range.start, max_width, prefix@) == (RowsAt {
                rows: line_views(rows@),
                start: current_range_start,
            }),
        decreases lines.len() - i,
    {
        proof {
            assert(texts.take(i + 1).drop_last() =~= texts.take(i as int));
            assert(texts.take(i + 1).last() == lines@[i as int]@);
        }
        let line = lines[i].as_str();
        let line_range = line_range(current_range_start, byte_length(&to_chars(line)), true);
        current_range_start = line_range.end;
        if line.is_empty() {
            let row = row2(
                VirtualSpan::synthetic(prefix.duplicate()),
                VirtualSpan::content(Span::empty(), &line_range),
            );
            proof {
                lemma_line_views_push(rows@, row);
                assert(line_views(rows@.push(row)) =~= line_views(rows@) + seq![row@]);
            }
            rows.push(row);
        } else {
            let wrapped = render_raw_line(line, &prefix, &line_range, max_width);
            append_rows(&mut rows, wrapped);
        }
        i += 1;
    }
    proof {
        assert(texts.take(i as int) =~= texts);
    }
    let last = VirtualLine::empty();
    proof {
        lemma_line_views_push(rows@, last);
    }
    rows.push(last);
    rows
}


/// Lays the lines of a paragraph's text out as rows, each line wrapped. Each
/// line stands for its bytes from the running offset on, and one more for its
/// line feed.
pub open spec fn paragraph_rows(
    lines: Seq<Seq<char>>,
    start: usize,
    max_width: usize,
    prefix: SpanView,
) -> RowsAt
    decreases lines.len(),
{
    if lines.len() == 0 {
        RowsAt { rows: Seq::empty(), start }
    } else {
        let before = paragraph_rows(lines.drop_last(), start, max_width, prefix);
        let range = line_range_of(before.start, clamped_bytes(lines.last()), true);
        RowsAt {
            rows: before.rows + wrapped_text(
                lines.last(),
                SpanStyle::plain(),
                prefix,
                range,
                max_width,
                None,
                RenderStyle::Visual,
            ),
            start: range.end,
        }
    }
}

/// The rows of a paragraph. Shown styled, its text is wrapped line by line,
/// and an empty row follows if the paragraph stands at the top level, that
/// is, has an empty prefix.
pub open spec fn paragraph_view(
    content: Seq<char>,
    prefix: SpanView,
    text: Seq<TextSegmentView>,
    source_range: SourceRange<usize>,
    max_width: usize,
    option: RenderStyle,
) -> Seq<LineView> {
    match option {
        RenderStyle::Raw => raw_text(content, source_range, max_width, prefix),
        RenderStyle::Visual => {
            let rows = paragraph_rows(
                lines_of(plain_text(text)),
                source_range.start,
                max_width,
                prefix,
            ).rows;
            if prefix.content.len() == 0 {
                rows.push(empty_line_view())
            } else {
                rows
            }
        },
    }
}

pub fn paragraph(
    content: &str,
    prefix: Span,
    text: &RichText,
    source_range: &SourceRange<usize>,
    max_width: usize,
    option: &RenderStyle,
) -> (block: VirtualBlock)
    ensures
        block@ == (VirtualBlockView {
            lines: paragraph_view(content@, prefix@, text@, *source_range, max_width, *option),
            source_range: *source_range,
        }),
{
    let rows = match option {
        RenderStyle::Raw => render_raw(content, source_range, max_width, prefix),
        RenderStyle::Visual => {
            let text = text.to_string();
            let lines = split_lines(text.as_str());
            let ghost texts = string_views(lines@);
            let mut current_range_start = source_range.start;
            let mut rows: Vec<VirtualLine> = Vec::new();
            let mut i: usize = 0;
            assert(line_views(rows@) =~= Seq::<LineView>::empty());
            while i < lines.len()
                invariant
                    i <= lines.len(),
                    texts == string_views(lines@),
                    paragraph_rows(texts.take(i as int), source_range.start, max_width, prefix@)
                        == (RowsAt { rows: line_views(rows@), start: current_range_start }),
                decreases lines.len() - i,
            {
                proof {
                    assert(texts.take(i + 1).drop_last() =~= texts.take(i as int));
                    assert(texts.take(i + 1).last() == lines@[i as int]@);
                }
                let line = lines[i].as_str();
                let line_range = line_range(current_range_start, byte_length(&to_chars(line)), true);
                current_range_start = line_range.end;
                let wrapped = text_wrap_internal(
                    line,
                    SpanStyle::new(),
                    &prefix,
                    &line_range,
                    max_width,
                    &None,
                    &RenderStyle::Visual,
                );
                append_rows(&mut rows, wrapped);
                i += 1;
            }
            proof {
                assert(texts.take(i as int) =~= texts);
            }
            if prefix.content.as_str().is_empty() {
                let last = VirtualLine::empty();
                proof {
                    lemma_line_views_push(rows@, last);
                }
                rows.push(last);
            }
            rows
        },
    };
    VirtualBlock::from_lines(rows, source_range)
}

/// The style of a code block: a black background.
pub open spec fn code_style() -> SpanStyle {
    SpanStyle { bg: Some(Color::Black), ..SpanStyle::plain() }
}

/// The blanks that fill a row of code up to `max_width` columns.
pub open spec fn code_padding(line: Seq<char>, max_width: usize, prefix: SpanView) -> nat {
    sat_sub(sat_sub(max_width, sat_add(prefix.width(), line.len())), 1) as nat
}

/// One row of a code block: the prefix, a blank, the line of code, and
/// blanks up to the width of the block, all but the prefix on the block's
/// background.
pub open spec fn code_row(
    line: Seq<char>,
    range: SourceRange<usize>,
    max_width: usize,
    prefix: SpanView,
) -> LineView {
    seq![
        VirtualSpanView::Synthetic(prefix),
        VirtualSpanView::Synthetic(SpanView { content: seq![' '], style: code_style() }),
        VirtualSpanView::Content(SpanView { content: line, style: code_style() }, range),
        VirtualSpanView::Synthetic(
            SpanView { content: spaces(code_padding(line, max_width, prefix)), style: code_style() },
        ),
    ]
}

/// The row of blanks above and below a code block.
pub open spec fn code_padding_row(max_width: usize, prefix: SpanView) -> LineView {
    seq![
        VirtualSpanView::Synthetic(prefix),
        VirtualSpanView::Synthetic(
            SpanView {
                content: spaces(sat_sub(max_width, clamped(prefix.width())) as nat),
                style: code_style(),
            },
        ),
    ]
}

/// The rows of the literal source of a code block. Each line stands for its
/// bytes from the running offset on, and one more for its line feed.
pub open spec fn raw_code_rows(
    lines: Seq<Seq<char>>,
    start: usize,
    max_width: usize,
    prefix: SpanView,
) -> RowsAt
    decreases lines.len(),
{
    if lines.len() == 0 {
        RowsAt { rows: Seq::empty(), start }
    } else {
        let before = raw_code_rows(lines.drop_last(), start, max_width, prefix);
        let range = line_range_of(before.start, clamped_bytes(lines.last()), true);
        RowsAt {
            rows: before.rows.push(code_row(lines.last(), range, max_width, prefix)),
            start: range.end,
        }
    }
}

/// The rows of the code of a code block. Each line stands for its bytes from
/// the running offset on, cut off at the end of the block.
pub open spec fn visual_code_rows(
    lines: Seq<Seq<char>>,
    source_range: SourceRange<usize>,
    max_width: usize,
    prefix: SpanView,
) -> RowsAt
    decreases lines.len(),
{
    if lines.len() == 0 {
        RowsAt { rows: Seq::empty(), start: source_range.start }
    } else {
        let before = visual_code_rows(lines.drop_last(), source_range, max_width, prefix);
        let next = sat_add(before.start as nat, clamped(byte_len(lines.last())) as nat);
        let end = if next <= source_range.end {
            next
        } else {
            source_range.end
        };
        RowsAt {
            rows: before.rows.push(
                code_row(
                    lines.last(),
                    SourceRange { start: before.start, end },
                    max_width,
                    prefix,
                ),
            ),
            start: next,
        }
    }
}

/// The rows of a code block: no line is wrapped. Shown styled, a row of
/// blanks stands above and below the code. An empty row follows.
pub open spec fn code_block_view(
    content: Seq<char>,
    prefix: SpanView,
    text: Seq<TextSegmentView>,
    source_range: SourceRange<usize>,
    max_width: usize,
    option: RenderStyle,
) -> Seq<LineView> {
    match option {
        RenderStyle::Raw => raw_code_rows(
            lines_of(content),
            source_range.start,
            max_width,
            prefix,
        ).rows.push(empty_line_view()),
        RenderStyle::Visual => (seq![code_padding_row(max_width, prefix)] + visual_code_rows(
            lines_of(plain_text(text)),
            source_range,
            max_width,
            prefix,
        ).rows).push(code_padding_row(max_width, prefix)).push(empty_line_view()),
    }
}

fn code_line(line: &str, range: &SourceRange<usize>, max_width: usize, prefix: &Span) -> (row:
    VirtualLine)
    ensures
        row@ == code_row(line@, *range, max_width, prefix@),
{
    let background = SpanStyle::new().bg(Color::Black);
    let padding = max_width.saturating_sub(
        prefix.width().saturating_add(line.unicode_len()),
    ).saturating_sub(1);
    let row = row4(
        VirtualSpan::synthetic(prefix.duplicate()),
        VirtualSpan::synthetic(Span::from_string(space_string(1), background)),
        VirtualSpan::content(Span::styled(line, background), range),
        VirtualSpan::synthetic(Span::from_string(space_string(padding), background)),
    );
    assert(spaces(1) =~= seq![' ']);
    row
}

fn code_padding_line(max_width: usize, prefix: &Span) -> (row: VirtualLine)
    ensures
        row@ == code_padding_row(max_width, prefix@),
{
    row2(
        VirtualSpan::synthetic(prefix.duplicate()),
        VirtualSpan::synthetic(
            Span::from_string(
                space_string(max_width.saturating_sub(prefix.width())),
                SpanStyle::new().bg(Color::Black),
            ),
        ),
    )
}

pub fn code_block(
    content: &str,
    prefix: Span,
    _lang: &Option<String>,
    text: &RichText,
    source_range: &SourceRange<usize>,
    max_width: usize,
    option: &RenderStyle,
) -> (block: VirtualBlock)
    ensures
        block@ == (VirtualBlockView {
            lines: code_block_view(content@, prefix@, text@, *source_range, max_width, *option),
            source_range: *source_range,
        }),
{
    let rows = match option {
        RenderStyle::Raw => {
            let lines = split_lines(content);
            let ghost texts = string_views(lines@);
            let mut current_range_start = source_range.start;
            let mut rows: Vec<VirtualLine> = Vec::new();
            let mut i: usize = 0;
            assert(line_views(rows@) =~= Seq::<LineView>::empty());
            while i < lines.len()
                invariant
                    i <= lines.len(),
                    texts == string_views(lines@),
                    raw_code_rows(texts.take(i as int), source_range.start, max_width, prefix@)
                        == (RowsAt { rows: line_views(rows@), start: current_range_start }),
                decreases lines.len() - i,
            {
                proof {
                    assert(texts.take(i + 1).drop_last() =~= texts.take(i as int));
                    assert(texts.take(i + 1).last() == lines@[i as int]@);
                }
                let line = lines[i].as_str();
                let line_range = line_range(current_range_start, byte_length(&to_chars(line)), true);
                current_range_start = line_range.end;
                let row = code_line(line, &line_range, max_width, &prefix);
                proof {
                    lemma_line_views_push(rows@, row);
                }
                rows.push(row);
                i += 1;
            }
            proof {
                assert(texts.take(i as int) =~= texts);
            }
            let last = VirtualLine::empty();
            proof {
                lemma_line_views_push(rows@, last);
            }
            rows.push(last);
            rows
        },
        RenderStyle::Visual => {
            let text = text.to_string();
            let lines = split_lines(text.as_str());
            let ghost texts = string_views(lines@);
            let mut current_range_start = source_range.start;
            let mut rows: Vec<VirtualLine> = Vec::new();
            let mut i: usize = 0;
            assert(line_views(rows@) =~= Seq::<LineView>::empty());
            while i < lines.len()
                invariant
                    i <= lines.len(),
                    texts == string_views(lines@),
                    visual_code_rows(texts.take(i as int), *source_range, max_width, prefix@)
                        == (RowsAt { rows: line_views(rows@), start: current_range_start }),
                decreases lines.len() - i,
            {
                proof {
                    assert(texts.take(i + 1).drop_last() =~= texts.take(i as int));
                    assert(texts.take(i + 1).last() == lines@[i as int]@);
                }
                let line = lines[i].as_str();
                let line_byte_len = byte_length(&to_chars(line));
                let next = current_range_start.saturating_add(line_byte_len);
                let line_range = current_range_start..(if next <= source_range.end {
                    next
                } else {
                    source_range.end
                });
                current_range_start = next;
                let row = code_line(line, &line_range, max_width, &prefix);
                proof {
                    lemma_line_views_push(rows@, row);
                }
                rows.push(row);
                i += 1;
            }
            proof {
                assert(texts.take(i as int) =~= texts);
            }
            let mut all: Vec<VirtualLine> = Vec::new();
            let top = code_padding_line(max_width, &prefix);
            let bottom = code_padding_line(max_width, &prefix);
            let last = VirtualLine::empty();
            let ghost code = line_views(rows@);
            proof {
                lemma_line_views_push(all@, top);
            }
            all.push(top);
            assert(line_views(all@) =~= seq![code_padding_row(max_width, prefix@)]);
            append_rows(&mut all, rows);
            proof {
                lemma_line_views_push(all@, bottom);
            }
            all.push(bottom);
            proof {
                lemma_line_views_push(all@, last);
            }
            all.push(last);
            all
        },
    };
    VirtualBlock::from_lines(rows, source_range)
}

/// The style of the text of a heading.
pub open spec fn heading_style(level: HeadingLevel) -> SpanStyle {
    match level {
        HeadingLevel::H1 => SpanStyle { bold: true, ..SpanStyle::plain() },
        HeadingLevel::H2 => SpanStyle { bold: true, fg: Some(Color::Yellow), ..SpanStyle::plain() },
        HeadingLevel::H3 => SpanStyle { bold: true, fg: Some(Color::Cyan), ..SpanStyle::plain() },
        HeadingLevel::H4 => SpanStyle { bold: true, fg: Some(Color::Magenta), ..SpanStyle::plain() },
        HeadingLevel::H5 => SpanStyle::plain(),
        HeadingLevel::H6 => SpanStyle::plain(),
    }
}

/// The text of a heading as it is shown: the first level in upper case when
/// shown styled, the two deepest levels in script letters.
pub open spec fn heading_text(level: HeadingLevel, text: Seq<char>, option: RenderStyle) -> Seq<char> {
    match level {
        HeadingLevel::H1 => if option == RenderStyle::Visual {
            uppercase(text)
        } else {
            text
        },
        HeadingLevel::H5 => stylized(text, FontStyle::Script),
        HeadingLevel::H6 => stylized(text, FontStyle::Script),
        _ => text,
    }
}

/// The marker in front of a heading of the four deeper levels.
pub open spec fn heading_marker(level: HeadingLevel) -> Option<SpanView> {
    match level {
        HeadingLevel::H1 => None,
        HeadingLevel::H2 => None,
        HeadingLevel::H3 => Some(
            SpanView {
                content: "⬤  "@,
                style: SpanStyle { fg: Some(Color::Cyan), ..SpanStyle::plain() },
            },
        ),
        HeadingLevel::H4 => Some(
            SpanView {
                content: "● "@,
                style: SpanStyle { fg: Some(Color::Magenta), ..SpanStyle::plain() },
            },
        ),
        HeadingLevel::H5 => Some(SpanView::raw("◆ "@)),
        HeadingLevel::H6 => Some(SpanView::raw("✺ "@)),
    }
}

/// The row under a heading: a rule as wide as the block under the two top
/// levels, an empty row under the others.
pub open spec fn heading_underline(level: HeadingLevel, max_width: usize, prefix: SpanView) -> LineView {
    let width = sat_sub(max_width, clamped(prefix.width())) as nat;
    match level {
        HeadingLevel::H1 => seq![VirtualSpanView::Synthetic(SpanView::raw(repeated('═', width)))],
        HeadingLevel::H2 => seq![
            VirtualSpanView::Synthetic(
                SpanView {
                    content: repeated('─', width),
                    style: SpanStyle { fg: Some(Color::Yellow), ..SpanStyle::plain() },
                },
            ),
        ],
        _ => empty_line_view(),
    }
}

/// The rows of a heading: its text, wrapped, in the style of its level, with
/// the level's marker, and the row under it. The text is the literal source
/// when the heading is not shown styled.
pub open spec fn heading_view(
    level: HeadingLevel,
    content: Seq<char>,
    prefix: SpanView,
    text: Seq<TextSegmentView>,
    source_range: SourceRange<usize>,
    max_width: usize,
    option: RenderStyle,
) -> Seq<LineView> {
    let text = match option {
        RenderStyle::Visual => plain_text(text),
        RenderStyle::Raw => content,
    };
    wrapped_text(
        heading_text(level, text, option),
        heading_style(level),
        prefix,
        source_range,
        max_width,
        heading_marker(level),
        option,
    ).push(heading_underline(level, max_width, prefix))
}

pub fn heading(
    level: HeadingLevel,
    content: &str,
    prefix: Span,
    text: &RichText,
    source_range: &SourceRange<usize>,
    max_width: usize,
    option: &RenderStyle,
) -> (block: VirtualBlock)
    ensures
        block@ == (VirtualBlockView {
            lines: heading_view(level, content@, prefix@, text@, *source_range, max_width, *option),
            source_range: *source_range,
        }),
{
    // Raw rendering shows the source text of the heading, markers included.
    let text = match option {
        RenderStyle::Visual => text.to_string(),
        RenderStyle::Raw => content.to_owned(),
    };
    let rule_width = max_width.saturating_sub(prefix.width());
    let bold = SpanStyle::new().bold();
    let (shown, style, marker, underline) = match level {
        HeadingLevel::H1 => (
            if matches!(option, RenderStyle::Visual) {
                to_uppercase(text.as_str())
            } else {
                text
            },
            bold,
            None,
            VirtualLine::from_spans(
                vec![
                    VirtualSpan::synthetic(
                        Span::from_string(repeat_char('═', rule_width), SpanStyle::new()),
                    ),
                ],
            ),
        ),
        HeadingLevel::H2 => (
            text,
            bold.fg(Color::Yellow),
            None,
            VirtualLine::from_spans(
                vec![
                    VirtualSpan::synthetic(
                        Span::from_string(
                            repeat_char('─', rule_width),
                            SpanStyle::new().fg(Color::Yellow),
                        ),
                    ),
                ],
            ),
        ),
        HeadingLevel::H3 => (
            text,
            bold.fg(Color::Cyan),
            Some(Span::styled("⬤  ", SpanStyle::new().fg(Color::Cyan))),
            VirtualLine::empty(),
        ),
        HeadingLevel::H4 => (
            text,
            bold.fg(Color::Magenta),
            Some(Span::styled("● ", SpanStyle::new().fg(Color::Magenta))),
            VirtualLine::empty(),
        ),
        HeadingLevel::H5 => (
            stylize(text.as_str(), FontStyle::Script),
            SpanStyle::new(),
            Some(Span::raw("◆ ")),
            VirtualLine::empty(),
        ),
        HeadingLevel::H6 => (
            stylize(text.as_str(), FontStyle::Script),
            SpanStyle::new(),
            Some(Span::raw("✺ ")),
            VirtualLine::empty(),
        ),
    };
    assert(underline@ =~= heading_underline(level, max_width, prefix@));
    let mut rows = text_wrap_internal(
        shown.as_str(),
        style,
        &prefix,
        source_range,
        max_width,
        &marker,
        option,
    );
    proof {
        lemma_line_views_push(rows@, underline);
    }
    rows.push(underline);
    VirtualBlock::from_lines(rows, source_range)
}


/// The bar that marks the rows of a block quote.
pub open spec fn quote_bar() -> SpanView {
    SpanView { content: "┃ "@, style: SpanStyle { fg: Some(Color::Magenta), ..SpanStyle::plain() } }
}

/// The blanks by which the blocks nested in a list item are indented.
pub open spec fn item_indent() -> SpanView {
    SpanView::raw("  "@)
}

/// The marker in front of a list item.
pub open spec fn item_marker(kind: ItemKind) -> SpanView {
    SpanView {
        content: match kind {
            ItemKind::Ordered(n) => decimal(n as nat) + ". "@,
            ItemKind::Unordered => "- "@,
        },
        style: SpanStyle { fg: Some(Color::DarkGray), ..SpanStyle::plain() },
    }
}

/// The checkbox in front of a task.
pub open spec fn task_marker(kind: TaskKind) -> SpanView {
    match kind {
        TaskKind::Unchecked => SpanView {
            content: "□ "@,
            style: SpanStyle { fg: Some(Color::DarkGray), ..SpanStyle::plain() },
        },
        _ => SpanView {
            content: "■ "@,
            style: SpanStyle { fg: Some(Color::Magenta), ..SpanStyle::plain() },
        },
    }
}

/// The style of the text of a task: greyed once it is checked in any way,
/// and crossed out once it is done.
pub open spec fn task_style(kind: TaskKind) -> SpanStyle {
    match kind {
        TaskKind::Unchecked => SpanStyle::plain(),
        TaskKind::LooselyChecked => SpanStyle { fg: Some(Color::DarkGray), ..SpanStyle::plain() },
        TaskKind::Checked => SpanStyle {
            fg: Some(Color::DarkGray),
            crossed_out: true,
            ..SpanStyle::plain()
        },
    }
}

/// The part of `content` that `range` cuts out, or nothing where it cannot.
pub open spec fn slice_or_empty(content: Seq<char>, range: SourceRange<usize>) -> Seq<char> {
    match byte_slice(content, range.start, range.end) {
        Some(slice) => slice,
        None => Seq::empty(),
    }
}

/// The row after a child of a block quote at the top level: a bare bar
/// between children, an empty row after the last.
pub open spec fn quote_separator(i: int, count: nat, prefix: SpanView) -> Seq<LineView> {
    if prefix.content.len() == 0 {
        if i + 1 == count {
            seq![empty_line_view()]
        } else {
            seq![seq![VirtualSpanView::Synthetic(quote_bar())]]
        }
    } else {
        Seq::empty()
    }
}

/// The rows of the first `upto` children of a list, shown styled. Each child
/// is given its own part of the source text.
pub open spec fn list_rows(
    content: Seq<char>,
    nodes: Seq<NodeView>,
    upto: int,
    max_width: usize,
    prefix: SpanView,
) -> Seq<LineView>
    decreases nodes, upto,
{
    if upto <= 0 || upto > nodes.len() {
        Seq::empty()
    } else {
        list_rows(content, nodes, upto - 1, max_width, prefix) + rendered_rows(
            slice_or_empty(content, nodes[upto - 1].source_range()),
            nodes[upto - 1],
            max_width,
            prefix,
            RenderStyle::Visual,
        )
    }
}

/// The rows of the children `from..upto` of a list item, shown styled under
/// `prefix`.
pub open spec fn nested_rows(
    content: Seq<char>,
    nodes: Seq<NodeView>,
    from: int,
    upto: int,
    max_width: usize,
    prefix: SpanView,
) -> Seq<LineView>
    decreases nodes, upto,
{
    if upto <= from || from < 0 || upto > nodes.len() {
        Seq::empty()
    } else {
        nested_rows(content, nodes, from, upto - 1, max_width, prefix) + rendered_rows(
            content,
            nodes[upto - 1],
            max_width,
            prefix,
            RenderStyle::Visual,
        )
    }
}

/// The rows of the first `upto` children of a block quote, shown styled,
/// each under the prefix with the quote bar added, and each followed by its
/// separator.
pub open spec fn quote_rows(
    content: Seq<char>,
    nodes: Seq<NodeView>,
    upto: int,
    max_width: usize,
    prefix: SpanView,
) -> Seq<LineView>
    decreases nodes, upto,
{
    if upto <= 0 || upto > nodes.len() {
        Seq::empty()
    } else {
        quote_rows(content, nodes, upto - 1, max_width, prefix) + rendered_rows(
            content,
            nodes[upto - 1],
            max_width,
            prefix.merged(quote_bar()),
            RenderStyle::Visual,
        ) + quote_separator(upto - 1, nodes.len(), prefix)
    }
}

/// The rows of a list item or a task, shown styled: the text of its first
/// child, which must be a block of text, wrapped behind the marker, then its
/// other children, indented. Without such a first child there are no rows.
pub open spec fn entry_rows(
    content: Seq<char>,
    nodes: Seq<NodeView>,
    marker: SpanView,
    text_style: SpanStyle,
    source_range: SourceRange<usize>,
    max_width: usize,
    prefix: SpanView,
) -> Seq<LineView>
    decreases nodes, nodes.len() + 1,
{
    if nodes.len() == 0 {
        Seq::empty()
    } else {
        match nodes[0].rich_text() {
            Some(text) => wrapped_text(
                plain_text(text),
                text_style,
                prefix,
                source_range,
                max_width,
                Some(marker),
                RenderStyle::Visual,
            ) + nested_rows(
                content,
                nodes,
                1,
                nodes.len() as int,
                max_width,
                prefix.merged(item_indent()),
            ),
            None => Seq::empty(),
        }
    }
}

/// The rows that a block of the document is shown as.
///
/// A block that is not shown styled is shown as the literal text `content`;
/// only a heading and a code block keep a form of their own. Shown styled, a
/// list shows its children one after the other, an item and a task their
/// marker, text and nested blocks, a block quote its children behind a bar.
/// A list at the top level is followed by an empty row.
pub open spec fn rendered_rows(
    content: Seq<char>,
    node: NodeView,
    max_width: usize,
    prefix: SpanView,
    option: RenderStyle,
) -> Seq<LineView>
    decreases node, 0int,
{
    match node {
        NodeView::Heading { level, text, source_range } => heading_view(
            level,
            content,
            prefix,
            text,
            source_range,
            max_width,
            option,
        ),
        NodeView::Paragraph { text, source_range } => paragraph_view(
            content,
            prefix,
            text,
            source_range,
            max_width,
            option,
        ),
        NodeView::CodeBlock { text, source_range, .. } => code_block_view(
            content,
            prefix,
            text,
            source_range,
            max_width,
            option,
        ),
        NodeView::List { nodes, source_range } => match option {
            RenderStyle::Raw => raw_text(content, source_range, max_width, prefix),
            RenderStyle::Visual => {
                let rows = list_rows(content, nodes, nodes.len() as int, max_width, prefix);
                if prefix.content.len() == 0 {
                    rows.push(empty_line_view())
                } else {
                    rows
                }
            },
        },
        NodeView::Item { kind, nodes, source_range } => match option {
            RenderStyle::Raw => raw_text(content, source_range, max_width, prefix),
            RenderStyle::Visual => entry_rows(
                content,
                nodes,
                item_marker(kind),
                SpanStyle::plain(),
                source_range,
                max_width,
                prefix,
            ),
        },
        NodeView::Task { kind, nodes, source_range } => match option {
            RenderStyle::Raw => raw_text(content, source_range, max_width, prefix),
            RenderStyle::Visual => entry_rows(
                content,
                nodes,
                task_marker(kind),
                task_style(kind),
                source_range,
                max_width,
                prefix,
            ),
        },
        NodeView::BlockQuote { nodes, source_range, .. } => match option {
            RenderStyle::Raw => raw_text(content, source_range, max_width, prefix),
            RenderStyle::Visual => quote_rows(content, nodes, nodes.len() as int, max_width, prefix),
        },
    }
}

/// The block that a node of the document is shown as: its rows, and its
/// range.
pub open spec fn rendered(
    content: Seq<char>,
    node: NodeView,
    max_width: usize,
    prefix: SpanView,
    option: RenderStyle,
) -> VirtualBlockView {
    VirtualBlockView {
        lines: rendered_rows(content, node, max_width, prefix, option),
        source_range: node.source_range(),
    }
}

pub fn list(
    content: &str,
    prefix: Span,
    nodes: &[Node],
    source_range: &SourceRange<usize>,
    max_width: usize,
    option: &RenderStyle,
) -> (block: VirtualBlock)
    ensures
        block@ == rendered(
            content@,
            NodeView::List { nodes: node_views(nodes@), source_range: *source_range },
            max_width,
            prefix@,
            *option,
        ),
    decreases nodes@, 0int,
{
    let rows = match option {
        RenderStyle::Raw => render_raw(content, source_range, max_width, prefix),
        RenderStyle::Visual => {
            let ghost views = node_views(nodes@);
            proof {
                lemma_node_views(nodes@);
            }
            let mut rows: Vec<VirtualLine> = Vec::new();
            let mut i: usize = 0;
            assert(line_views(rows@) =~= Seq::<LineView>::empty());
            while i < nodes.len()
                invariant
                    i <= nodes.len(),
                    views == node_views(nodes@),
                    views.len() == nodes@.len(),
                    forall|j: int| 0 <= j < nodes@.len() ==> (#[trigger] views[j]) == nodes@[j]@,
                    line_views(rows@) == list_rows(content@, views, i as int, max_width, prefix@),
                decreases nodes.len() - i,
            {
                let node = &nodes[i];
                let node_content = match slice_bytes(
                    content,
                    node.source_range().start,
                    node.source_range().end,
                ) {
                    Some(slice) => slice,
                    None => String::new(),
                };
                let block = render_node(
                    node_content,
                    node,
                    max_width,
                    prefix.duplicate(),
                    &RenderStyle::Visual,
                );
                append_rows(&mut rows, block.lines);
                i += 1;
            }
            if prefix.content.as_str().is_empty() {
                let last = VirtualLine::empty();
                proof {
                    lemma_line_views_push(rows@, last);
                }
                rows.push(last);
            }
            rows
        },
    };
    VirtualBlock::from_lines(rows, source_range)
}

/// The rows of a list item or a task, shown styled.
fn entry(
    content: &str,
    prefix: &Span,
    nodes: &[Node],
    marker: Span,
    text_style: SpanStyle,
    source_range: &SourceRange<usize>,
    max_width: usize,
) -> (rows: Vec<VirtualLine>)
    ensures
        line_views(rows@) == entry_rows(
            content@,
            node_views(nodes@),
            marker@,
            text_style,
            *source_range,
            max_width,
            prefix@,
        ),
    decreases nodes@, 1int,
{
    let ghost views = node_views(nodes@);
    proof {
        lemma_node_views(nodes@);
    }
    if nodes.len() == 0 {
        let rows: Vec<VirtualLine> = Vec::new();
        assert(line_views(rows@) =~= Seq::<LineView>::empty());
        return rows;
    }
    let text = match nodes[0].rich_text() {
        Some(text) => text.to_string(),
        None => {
            let rows: Vec<VirtualLine> = Vec::new();
            assert(line_views(rows@) =~= Seq::<LineView>::empty());
            return rows;
        },
    };
    let mut rows = text_wrap_internal(
        text.as_str(),
        text_style,
        prefix,
        source_range,
        max_width,
        &Some(marker),
        &RenderStyle::Visual,
    );
    let nested_prefix = prefix.merge(&Span::raw("  "));
    let ghost own = line_views(rows@);
    let mut i: usize = 1;
    assert(nested_rows(content@, views, 1, 1, max_width, nested_prefix@) =~= Seq::<LineView>::empty());
    while i < nodes.len()
        invariant
            1 <= i <= nodes.len(),
            views == node_views(nodes@),
            views.len() == nodes@.len(),
            forall|j: int| 0 <= j < nodes@.len() ==> (#[trigger] views[j]) == nodes@[j]@,
            line_views(rows@) == own + nested_rows(
                content@,
                views,
                1,
                i as int,
                max_width,
                nested_prefix@,
            ),
        decreases nodes.len() - i,
    {
        let block = render_node(
            content.to_owned(),
            &nodes[i],
            max_width,
            nested_prefix.duplicate(),
            &RenderStyle::Visual,
        );
        append_rows(&mut rows, block.lines);
        i += 1;
        assert(line_views(rows@) =~= own + nested_rows(
            content@,
            views,
            1,
            i as int,
            max_width,
            nested_prefix@,
        ));
    }
    rows
}

pub fn task(
    content: &str,
    prefix: Span,
    kind: &TaskKind,
    nodes: &[Node],
    source_range: &SourceRange<usize>,
    max_width: usize,
    option: &RenderStyle,
) -> (block: VirtualBlock)
    ensures
        block@ == rendered(
            content@,
            NodeView::Task { kind: *kind, nodes: node_views(nodes@), source_range: *source_range },
            max_width,
            prefix@,
            *option,
        ),
    decreases nodes@, 2int,
{
    let rows = match option {
        RenderStyle::Raw => render_raw(content, source_range, max_width, prefix),
        RenderStyle::Visual => {
            let grey = SpanStyle::new().fg(Color::DarkGray);
            let (marker, text_style) = match kind {
                TaskKind::Unchecked => (Span::styled("□ ", grey), SpanStyle::new()),
                TaskKind::LooselyChecked => (
                    Span::styled("■ ", SpanStyle::new().fg(Color::Magenta)),
                    grey,
                ),
                TaskKind::Checked => (
                    Span::styled("■ ", SpanStyle::new().fg(Color::Magenta)),
                    grey.crossed_out(),
                ),
            };
            entry(content, &prefix, nodes, marker, text_style, source_range, max_width)
        },
    };
    VirtualBlock::from_lines(rows, source_range)
}

pub fn item(
    content: &str,
    prefix: Span,
    kind: &ItemKind,
    nodes: &[Node],
    source_range: &SourceRange<usize>,
    max_width: usize,
    option: &RenderStyle,
) -> (block: VirtualBlock)
    ensures
        block@ == rendered(
            content@,
            NodeView::Item { kind: *kind, nodes: node_views(nodes@), source_range: *source_range },
            max_width,
            prefix@,
            *option,
        ),
    decreases nodes@, 2int,
{
    let rows = match option {
        RenderStyle::Raw => render_raw(content, source_range, max_width, prefix),
        RenderStyle::Visual => {
            let marker = match kind {
                ItemKind::Ordered(i) => {
                    let mut number = decimal_string(*i);
                    number.push_str(". ");
                    number
                },
                ItemKind::Unordered => "- ".to_owned(),
            };
            entry(
                content,
                &prefix,
                nodes,
                Span::from_string(marker, SpanStyle::new().fg(Color::DarkGray)),
                SpanStyle::new(),
                source_range,
                max_width,
            )
        },
    };
    VirtualBlock::from_lines(rows, source_range)
}

pub fn block_quote(
    content: &str,
    prefix: Span,
    _kind: &Option<BlockQuoteKind>,
    nodes: &[Node],
    source_range: &SourceRange<usize>,
    max_width: usize,
    option: &RenderStyle,
) -> (block: VirtualBlock)
    ensures
        block@ == rendered(
            content@,
            NodeView::BlockQuote {
                kind: *_kind,
                nodes: node_views(nodes@),
                source_range: *source_range,
            },
            max_width,
            prefix@,
            *option,
        ),
    decreases nodes@, 0int,
{
    let rows = match option {
        RenderStyle::Raw => render_raw(content, source_range, max_width, prefix),
        RenderStyle::Visual => {
            let ghost views = node_views(nodes@);
            proof {
                lemma_node_views(nodes@);
            }
            let bar = Span::styled("┃ ", SpanStyle::new().fg(Color::Magenta));
            let quoted = prefix.merge(&bar);
            let top_level = prefix.content.as_str().is_empty();
            let mut rows: Vec<VirtualLine> = Vec::new();
            let mut i: usize = 0;
            assert(line_views(rows@) =~= Seq::<LineView>::empty());
            while i < nodes.len()
                invariant
                    i <= nodes.len(),
                    views == node_views(nodes@),
                    views.len() == nodes@.len(),
                    forall|j: int| 0 <= j < nodes@.len() ==> (#[trigger] views[j]) == nodes@[j]@,
                    quoted@ == prefix@.merged(quote_bar()),
                    bar@ == quote_bar(),
                    top_level == (prefix@.content.len() == 0),
                    line_views(rows@) == quote_rows(content@, views, i as int, max_width, prefix@),
                decreases nodes.len() - i,
            {
                let block = render_node(
                    content.to_owned(),
                    &nodes[i],
                    max_width,
                    quoted.duplicate(),
                    &RenderStyle::Visual,
                );
                append_rows(&mut rows, block.lines);
                if top_level {
                    let separator = if i + 1 == nodes.len() {
                        VirtualLine::empty()
                    } else {
                        let spans = vec![VirtualSpan::synthetic(bar.duplicate())];
                        assert(span_views(spans@) =~= seq![VirtualSpanView::Synthetic(quote_bar())]);
                        VirtualLine::from_spans(spans)
                    };
                    proof {
                        lemma_line_views_push(rows@, separator);
                        assert(seq![separator@] =~= quote_separator(
                            i as int,
                            views.len(),
                            prefix@,
                        ));
                    }
                    rows.push(separator);
                }
                i += 1;
                assert(line_views(rows@) =~= quote_rows(
                    content@,
                    views,
                    i as int,
                    max_width,
                    prefix@,
                ));
            }
            rows
        },
    };
    VirtualBlock::from_lines(rows, source_range)
}

pub fn render_node(
    content: String,
    node: &Node,
    max_width: usize,
    prefix: Span,
    option: &RenderStyle,
) -> (block: VirtualBlock)
    ensures
        block@ == rendered(content@, node@, max_width, prefix@, *option),
    decreases node, 3int,
{
    match node {
        Node::Heading { level, text, source_range } => heading(
            *level,
            content.as_str(),
            prefix,
            text,
            source_range,
            max_width,
            option,
        ),
        Node::Paragraph { text, source_range } => paragraph(
            content.as_str(),
            prefix,
            text,
            source_range,
            max_width,
            option,
        ),
        Node::CodeBlock { lang, text, source_range } => code_block(
            content.as_str(),
            prefix,
            lang,
            text,
            source_range,
            max_width,
            option,
        ),
        Node::List { nodes, source_range } => list(
            content.as_str(),
            prefix,
            nodes.as_slice(),
            source_range,
            max_width,
            option,
        ),
        Node::Item { kind, nodes, source_range } => item(
            content.as_str(),
            prefix,
            kind,
            nodes.as_slice(),
            source_range,
            max_width,
            option,
        ),
        Node::Task { kind, nodes, source_range } => task(
            content.as_str(),
            prefix,
            kind,
            nodes.as_slice(),
            source_range,
            max_width,
            option,
        ),
        Node::BlockQuote { kind, nodes, source_range } => block_quote(
            content.as_str(),
            prefix,
            kind,
            nodes.as_slice(),
            source_range,
            max_width,
            option,
        ),
    }
}


/// Whether the row has at most one span of document text.
pub open spec fn has_single_text(line: LineView) -> bool {
    forall|i: int, j: int|
        0 <= i < j < line.len() ==> !((#[trigger] line[i]) is Content && (#[trigger] line[j]) is Content)
}

/// Whether every row has at most one span of document text.
pub open spec fn all_single_text(rows: Seq<LineView>) -> bool {
    forall|k: int| 0 <= k < rows.len() ==> has_single_text(#[trigger] rows[k])
}

proof fn lemma_single_text_concat(a: Seq<LineView>, b: Seq<LineView>)
    requires
        all_single_text(a),
        all_single_text(b),
    ensures
        all_single_text(a + b),
{
    assert forall|k: int| 0 <= k < (a + b).len() implies has_single_text(#[trigger] (a + b)[k]) by {
        if k < a.len() {
            assert((a + b)[k] == a[k]);
        } else {
            assert((a + b)[k] == b[k - a.len()]);
        }
    }
}

proof fn lemma_single_text_push(a: Seq<LineView>, row: LineView)
    requires
        all_single_text(a),
        has_single_text(row),
    ensures
        all_single_text(a.push(row)),
{
    assert forall|k: int| 0 <= k < a.push(row).len() implies has_single_text(
        #[trigger] a.push(row)[k],
    ) by {
        if k < a.len() {
            assert(a.push(row)[k] == a[k]);
        }
    }
}

proof fn lemma_wrapped_rows_single_text(
    lines: Seq<Seq<char>>,
    text_style: SpanStyle,
    prefix: SpanView,
    source_range: SourceRange<usize>,
    marker: Option<SpanView>,
    option: RenderStyle,
)
    ensures
        all_single_text(wrapped_rows(lines, text_style, prefix, source_range, marker, option).rows),
    decreases lines.len(),
{
    if lines.len() > 0 {
        lemma_wrapped_rows_single_text(
            lines.drop_last(),
            text_style,
            prefix,
            source_range,
            marker,
            option,
        );
        let before = wrapped_rows(lines.drop_last(), text_style, prefix, source_range, marker, option);
        let rows = wrapped_rows(lines, text_style, prefix, source_range, marker, option).rows;
        lemma_single_text_push(before.rows, rows.last());
        assert(rows =~= before.rows.push(rows.last()));
    }
}

proof fn lemma_raw_rows_single_text(lines: Seq<Seq<char>>, start: usize, max_width: usize, prefix: SpanView)
    ensures
        all_single_text(raw_rows(lines, start, max_width, prefix).rows),
    decreases lines.len(),
{
    if lines.len() > 0 {
        lemma_raw_rows_single_text(lines.drop_last(), start, max_width, prefix);
        let before = raw_rows(lines.drop_last(), start, max_width, prefix);
        let range = line_range_of(before.start, clamped_bytes(lines.last()), true);
        let added = raw_line_rows(lines.last(), range, max_width, prefix);
        if lines.last().len() > 0 {
            lemma_wrapped_rows_single_text(
                wrapped(
                    measured(ascii_space_words(lines.last())),
                    max_width as nat,
                    wrap_marker_room() as nat,
                ),
                SpanStyle::plain(),
                prefix,
                range,
                None,
                RenderStyle::Raw,
            );
        }
        lemma_single_text_concat(before.rows, added);
    }
}

proof fn lemma_paragraph_rows_single_text(
    lines: Seq<Seq<char>>,
    start: usize,
    max_width: usize,
    prefix: SpanView,
)
    ensures
        all_single_text(paragraph_rows(lines, start, max_width, prefix).rows),
    decreases lines.len(),
{
    if lines.len() > 0 {
        lemma_paragraph_rows_single_text(lines.drop_last(), start, max_width, prefix);
        let before = paragraph_rows(lines.drop_last(), start, max_width, prefix);
        let range = line_range_of(before.start, clamped_bytes(lines.last()), true);
        lemma_wrapped_rows_single_text(
            wrapped(
                measured(ascii_space_words(lines.last())),
                max_width as nat,
                wrap_marker_room() as nat,
            ),
            SpanStyle::plain(),
            prefix,
            range,
            None,
            RenderStyle::Visual,
        );
        lemma_single_text_concat(
            before.rows,
            wrapped_text(
                lines.last(),
                SpanStyle::plain(),
                prefix,
                range,
                max_width,
                None,
                RenderStyle::Visual,
            ),
        );
    }
}

proof fn lemma_code_rows_single_text(
    lines: Seq<Seq<char>>,
    source_range: SourceRange<usize>,
    max_width: usize,
    prefix: SpanView,
)
    ensures
        all_single_text(raw_code_rows(lines, source_range.start, max_width, prefix).rows),
        all_single_text(visual_code_rows(lines, source_range, max_width, prefix).rows),
    decreases lines.len(),
{
    if lines.len() > 0 {
        lemma_code_rows_single_text(lines.drop_last(), source_range, max_width, prefix);
        let raw_before = raw_code_rows(lines.drop_last(), source_range.start, max_width, prefix);
        let raw = raw_code_rows(lines, source_range.start, max_width, prefix).rows;
        lemma_single_text_push(raw_before.rows, raw.last());
        assert(raw =~= raw_before.rows.push(raw.last()));
        let visual_before = visual_code_rows(lines.drop_last(), source_range, max_width, prefix);
        let visual = visual_code_rows(lines, source_range, max_width, prefix).rows;
        lemma_single_text_push(visual_before.rows, visual.last());
        assert(visual =~= visual_before.rows.push(visual.last()));
    }
}

/// The rows of a block of text hold at most one span of document text each.
proof fn lemma_leaf_rows_single_text(
    content: Seq<char>,
    node: NodeView,
    max_width: usize,
    prefix: SpanView,
    option: RenderStyle,
)
    ensures
        all_single_text(raw_text(content, node.source_range(), max_width, prefix)),
        node.rich_text().is_some() ==> all_single_text(
            rendered_rows(content, node, max_width, prefix, option),
        ),
{
    let range = node.source_range();
    lemma_raw_rows_single_text(lines_of(content), range.start, max_width, prefix);
    lemma_single_text_push(
        raw_rows(lines_of(content), range.start, max_width, prefix).rows,
        empty_line_view(),
    );
    match node {
        NodeView::Heading { level, text, .. } => {
            let shown = match option {
                RenderStyle::Visual => plain_text(text),
                RenderStyle::Raw => content,
            };
            lemma_wrapped_rows_single_text(
                wrapped(
                    measured(ascii_space_words(heading_text(level, shown, option))),
                    max_width as nat,
                    wrap_marker_room() as nat,
                ),
                heading_style(level),
                prefix,
                range,
                heading_marker(level),
                option,
            );
            lemma_single_text_push(
                wrapped_text(
                    heading_text(level, shown, option),
                    heading_style(level),
                    prefix,
                    range,
                    max_width,
                    heading_marker(level),
                    option,
                ),
                heading_underline(level, max_width, prefix),
            );
        },
        NodeView::Paragraph { text, .. } => {
            let rows = paragraph_rows(lines_of(plain_text(text)), range.start, max_width, prefix).rows;
            lemma_paragraph_rows_single_text(
                lines_of(plain_text(text)),
                range.start,
                max_width,
                prefix,
            );
            lemma_single_text_push(rows, empty_line_view());
        },
        NodeView::CodeBlock { text, .. } => {
            lemma_code_rows_single_text(lines_of(content), range, max_width, prefix);
            lemma_code_rows_single_text(lines_of(plain_text(text)), range, max_width, prefix);
            let raw = raw_code_rows(lines_of(content), range.start, max_width, prefix).rows;
            lemma_single_text_push(raw, empty_line_view());
            let padding = code_padding_row(max_width, prefix);
            let code = visual_code_rows(lines_of(plain_text(text)), range, max_width, prefix).rows;
            assert(all_single_text(seq![padding])) by {
                assert(seq![padding][0] == padding);
            }
            lemma_single_text_concat(seq![padding], code);
            lemma_single_text_push(seq![padding] + code, padding);
            lemma_single_text_push((seq![padding] + code).push(padding), empty_line_view());
        },
        _ => {},
    }
}

proof fn lemma_children_rows_single_text(
    content: Seq<char>,
    nodes: Seq<NodeView>,
    from: int,
    upto: int,
    max_width: usize,
    prefix: SpanView,
)
    ensures
        all_single_text(list_rows(content, nodes, upto, max_width, prefix)),
        all_single_text(nested_rows(content, nodes, from, upto, max_width, prefix)),
        all_single_text(quote_rows(content, nodes, upto, max_width, prefix)),
    decreases nodes, upto,
{
    if 0 < upto <= nodes.len() {
        lemma_children_rows_single_text(content, nodes, from, upto - 1, max_width, prefix);
        let node = nodes[upto - 1];
        lemma_rendered_rows_single_text(
            slice_or_empty(content, node.source_range()),
            node,
            max_width,
            prefix,
            RenderStyle::Visual,
        );
        lemma_single_text_concat(
            list_rows(content, nodes, upto - 1, max_width, prefix),
            rendered_rows(
                slice_or_empty(content, node.source_range()),
                node,
                max_width,
                prefix,
                RenderStyle::Visual,
            ),
        );
        lemma_rendered_rows_single_text(content, node, max_width, prefix, RenderStyle::Visual);
        if from >= 0 && from < upto {
            lemma_single_text_concat(
                nested_rows(content, nodes, from, upto - 1, max_width, prefix),
                rendered_rows(content, node, max_width, prefix, RenderStyle::Visual),
            );
        }
        let quoted = prefix.merged(quote_bar());
        lemma_rendered_rows_single_text(content, node, max_width, quoted, RenderStyle::Visual);
        lemma_single_text_concat(
            quote_rows(content, nodes, upto - 1, max_width, prefix),
            rendered_rows(content, node, max_width, quoted, RenderStyle::Visual),
        );
        let separator = quote_separator(upto - 1, nodes.len(), prefix);
        assert(all_single_text(separator)) by {
            if separator.len() > 0 {
                assert(separator[0].len() == 1);
            }
        }
        lemma_single_text_concat(
            quote_rows(content, nodes, upto - 1, max_width, prefix) + rendered_rows(
                content,
                node,
                max_width,
                quoted,
                RenderStyle::Visual,
            ),
            separator,
        );
    }
}

/// Every row that a block is shown as holds at most one span of document
/// text, so the ranges of the spans of a row are in order from left to right.
pub proof fn lemma_rendered_rows_single_text(
    content: Seq<char>,
    node: NodeView,
    max_width: usize,
    prefix: SpanView,
    option: RenderStyle,
)
    ensures
        all_single_text(rendered_rows(content, node, max_width, prefix, option)),
    decreases node, 0int,
{
    lemma_leaf_rows_single_text(content, node, max_width, prefix, option);
    if option == RenderStyle::Visual {
        match node {
            NodeView::List { nodes, .. } => {
                lemma_children_rows_single_text(
                    content,
                    nodes,
                    0,
                    nodes.len() as int,
                    max_width,
                    prefix,
                );
                lemma_single_text_push(
                    list_rows(content, nodes, nodes.len() as int, max_width, prefix),
                    empty_line_view(),
                );
            },
            NodeView::BlockQuote { nodes, .. } => {
                lemma_children_rows_single_text(
                    content,
                    nodes,
                    0,
                    nodes.len() as int,
                    max_width,
                    prefix,
                );
            },
            NodeView::Item { kind, nodes, source_range } => {
                lemma_entry_rows_single_text(
                    content,
                    nodes,
                    item_marker(kind),
                    SpanStyle::plain(),
                    source_range,
                    max_width,
                    prefix,
                );
            },
            NodeView::Task { kind, nodes, source_range } => {
                lemma_entry_rows_single_text(
                    content,
                    nodes,
                    task_marker(kind),
                    task_style(kind),
                    source_range,
                    max_width,
                    prefix,
                );
            },
            _ => {},
        }
    }
}

proof fn lemma_entry_rows_single_text(
    content: Seq<char>,
    nodes: Seq<NodeView>,
    marker: SpanView,
    text_style: SpanStyle,
    source_range: SourceRange<usize>,
    max_width: usize,
    prefix: SpanView,
)
    ensures
        all_single_text(
            entry_rows(content, nodes, marker, text_style, source_range, max_width, prefix),
        ),
    decreases nodes, nodes.len() + 1,
{
    if nodes.len() > 0 {
        match nodes[0].rich_text() {
            Some(text) => {
                lemma_wrapped_rows_single_text(
                    wrapped(
                        measured(ascii_space_words(plain_text(text))),
                        max_width as nat,
                        wrap_marker_room() as nat,
                    ),
                    text_style,
                    prefix,
                    source_range,
                    Some(marker),
                    RenderStyle::Visual,
                );
                lemma_children_rows_single_text(
                    content,
                    nodes,
                    1,
                    nodes.len() as int,
                    max_width,
                    prefix.merged(item_indent()),
                );
                lemma_single_text_concat(
                    wrapped_text(
                        plain_text(text),
                        text_style,
                        prefix,
                        source_range,
                        max_width,
                        Some(marker),
                        RenderStyle::Visual,
                    ),
                    nested_rows(
                        content,
                        nodes,
                        1,
                        nodes.len() as int,
                        max_width,
                        prefix.merged(item_indent()),
                    ),
                );
            },
            None => {},
        }
    }
}

} // verus!
