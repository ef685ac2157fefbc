//! The virtual document: the wrapped, styled rows that a document is shown
//! as, each made of spans that either carry a piece of the source text with
//! its byte range or are decoration.

use vstd::prelude::*;

use crate::ast::{copy_range, lemma_node_views, node_views, Node, NodeView, SourceRange};
use crate::render::{render_node, rendered, text_wrap, wrapped_text, RenderStyle};
use crate::span::{Span, SpanStyle, SpanView};
use crate::state::View as ViewMode;
use crate::stylized_text::{stylize, stylized, FontStyle};
use crate::text::{repeat_char, repeated};
use crate::text_buffer::{TextBuffer, TextBufferView};

verus! {

/// One span of a row: decoration, or text of the document with the byte
/// range it stands for.
#[derive(Clone, PartialEq, Debug)]
pub enum VirtualSpan {
    Synthetic(Span),
    Content(Span, SourceRange<usize>),
}

pub enum VirtualSpanView {
    Synthetic(SpanView),
    Content(SpanView, SourceRange<usize>),
}

impl View for VirtualSpan {
    type V = VirtualSpanView;

    open spec fn view(&self) -> VirtualSpanView {
        match self {
            VirtualSpan::Synthetic(span) => VirtualSpanView::Synthetic(span@),
            VirtualSpan::Content(span, range) => VirtualSpanView::Content(span@, *range),
        }
    }
}

/// Whether `range` holds `offset`; the end is not part of a range.
pub open spec fn range_contains(range: SourceRange<usize>, offset: usize) -> bool {
    range.start <= offset < range.end
}

impl VirtualSpanView {
    pub open spec fn contains_offset(self, offset: usize) -> bool {
        match self {
            VirtualSpanView::Content(_, range) => range_contains(range, offset),
            VirtualSpanView::Synthetic(_) => false,
        }
    }

    pub open spec fn source_range(self) -> Option<SourceRange<usize>> {
        match self {
            VirtualSpanView::Content(_, range) => Some(range),
            VirtualSpanView::Synthetic(_) => None,
        }
    }

    /// The columns of document text in the span: decoration counts nothing.
    pub open spec fn width(self) -> nat {
        match self {
            VirtualSpanView::Content(span, _) => span.width(),
            VirtualSpanView::Synthetic(_) => 0,
        }
    }

    /// The span as it is painted, without its range.
    pub open spec fn span(self) -> SpanView {
        match self {
            VirtualSpanView::Content(span, _) => span,
            VirtualSpanView::Synthetic(span) => span,
        }
    }
}

impl VirtualSpan {
    /// A span of decoration.
    pub fn synthetic(span: Span) -> (virtual_span: Self)
        ensures
            virtual_span@ == VirtualSpanView::Synthetic(span@),
    {
        VirtualSpan::Synthetic(span)
    }

    /// A span of document text that stands for `range`.
    pub fn content(span: Span, range: &SourceRange<usize>) -> (virtual_span: Self)
        ensures
            virtual_span@ == VirtualSpanView::Content(span@, *range),
    {
        VirtualSpan::Content(span, copy_range(range))
    }

    pub fn contains_offset(&self, offset: usize) -> (contains: bool)
        ensures
            contains == self@.contains_offset(offset),
    {
        match self {
            VirtualSpan::Content(_, source_range) => source_range.start <= offset && offset
                < source_range.end,
            _ => false,
        }
    }

    pub fn source_range(&self) -> (range: Option<&SourceRange<usize>>)
        ensures
            match range {
                Some(range) => self@.source_range() == Some(*range),
                None => self@.source_range().is_none(),
            },
    {
        match self {
            Self::Content(_, source_range) => Some(source_range),
            Self::Synthetic(..) => None,
        }
    }

    /// Only content span width is taken into account when calculating width
    pub fn width(&self) -> (width: usize)
        ensures
            width == self@.width(),
    {
        match self {
            VirtualSpan::Content(span, ..) => span.width(),
            _ => 0,
        }
    }

    pub fn is_synthetic(&self) -> (synthetic: bool)
        ensures
            synthetic == (self@ is Synthetic),
    {
        matches!(self, VirtualSpan::Synthetic(..))
    }

    /// The span as it is painted, without its range.
    pub fn into_span(self) -> (span: Span)
        ensures
            span@ == self@.span(),
    {
        match self {
            VirtualSpan::Synthetic(span) => span,
            VirtualSpan::Content(span, _) => span,
        }
    }

    /// A copy of the span.
    pub fn duplicate(&self) -> (copy: Self)
        ensures
            copy@ == self@,
    {
        match self {
            VirtualSpan::Synthetic(span) => VirtualSpan::Synthetic(span.duplicate()),
            VirtualSpan::Content(span, range) => VirtualSpan::Content(
                span.duplicate(),
                copy_range(range),
            ),
        }
    }
}

/// The views of a sequence of spans, in order.
pub open spec fn span_views(spans: Seq<VirtualSpan>) -> Seq<VirtualSpanView> {
    Seq::new(spans.len(), |i: int| spans[i]@)
}

pub proof fn lemma_span_views_push(spans: Seq<VirtualSpan>, span: VirtualSpan)
    ensures
        span_views(spans.push(span)) == span_views(spans).push(span@),
{
    assert(span_views(spans.push(span)) =~= span_views(spans).push(span@));
}

/// What a row holds: its spans, left to right.
pub type LineView = Seq<VirtualSpanView>;

/// The columns of document text in a row.
pub open spec fn line_width(line: LineView) -> nat
    decreases line.len(),
{
    if line.len() == 0 {
        0
    } else {
        line_width(line.drop_last()) + line.last().width()
    }
}

/// Whether a span of the row stands for a range that holds `offset`.
pub open spec fn line_contains_offset(line: LineView, offset: usize) -> bool {
    exists|i: int| 0 <= i < line.len() && (#[trigger] line[i]).contains_offset(offset)
}

/// Whether the row has a span of document text.
pub open spec fn line_has_content(line: LineView) -> bool {
    exists|i: int| 0 <= i < line.len() && (#[trigger] line[i]) is Content
}

/// The range with the smaller start and the larger end of the two.
pub open spec fn range_hull(a: SourceRange<usize>, b: SourceRange<usize>) -> SourceRange<usize> {
    SourceRange {
        start: if a.start <= b.start {
            a.start
        } else {
            b.start
        },
        end: if a.end >= b.end {
            a.end
        } else {
            b.end
        },
    }
}

/// The range that a row stands for: from the least start to the greatest
/// end of its spans of document text. A row of decoration stands for none.
pub open spec fn line_source_range(line: LineView) -> Option<SourceRange<usize>>
    decreases line.len(),
{
    if line.len() == 0 {
        None
    } else {
        let rest = line_source_range(line.drop_last());
        match line.last() {
            VirtualSpanView::Content(_, range) => match rest {
                Some(hull) => Some(range_hull(hull, range)),
                None => Some(range),
            },
            VirtualSpanView::Synthetic(_) => rest,
        }
    }
}

/// The range of a row spans the ranges of all its spans of document text, and
/// no more: its start is the start of one of them and its end the end of one
/// of them.
pub proof fn lemma_line_source_range(line: LineView)
    ensures
        match line_source_range(line) {
            Some(range) => {
                &&& forall|i: int|
                    0 <= i < line.len() && (#[trigger] line[i]) is Content ==> range.start
                        <= line[i].source_range().unwrap().start && line[i].source_range().unwrap().end
                        <= range.end
                &&& exists|i: int|
                    0 <= i < line.len() && (#[trigger] line[i]).source_range().is_some()
                        && line[i].source_range().unwrap().start == range.start
                &&& exists|i: int|
                    0 <= i < line.len() && (#[trigger] line[i]).source_range().is_some()
                        && line[i].source_range().unwrap().end == range.end
            },
            None => forall|i: int| 0 <= i < line.len() ==> !((#[trigger] line[i]) is Content),
        },
    decreases line.len(),
{
    if line.len() > 0 {
        let rest = line.drop_last();
        let last = line.len() - 1;
        lemma_line_source_range(rest);
        assert forall|i: int| 0 <= i < rest.len() implies rest[i] == line[i] by {}
        match line_source_range(rest) {
            Some(hull) => {
                let low = choose|i: int|
                    0 <= i < rest.len() && (#[trigger] rest[i]).source_range().is_some()
                        && rest[i].source_range().unwrap().start == hull.start;
                let high = choose|i: int|
                    0 <= i < rest.len() && (#[trigger] rest[i]).source_range().is_some()
                        && rest[i].source_range().unwrap().end == hull.end;
                assert(line[low] == rest[low] && line[high] == rest[high]);
                match line.last() {
                    VirtualSpanView::Content(_, range) => {
                        let whole = range_hull(hull, range);
                        assert(line[last].source_range() == Some(range));
                        if range.start < hull.start {
                            assert(line[last].source_range().unwrap().start == whole.start);
                        } else {
                            assert(line[low].source_range().unwrap().start == whole.start);
                        }
                        if range.end > hull.end {
                            assert(line[last].source_range().unwrap().end == whole.end);
                        } else {
                            assert(line[high].source_range().unwrap().end == whole.end);
                        }
                        assert forall|i: int|
                            0 <= i < line.len() && (#[trigger] line[i]) is Content implies whole.start
                            <= line[i].source_range().unwrap().start
                            && line[i].source_range().unwrap().end <= whole.end by {
                            if i < last {
                                assert(rest[i] is Content);
                            }
                        }
                    },
                    VirtualSpanView::Synthetic(_) => {
                        assert forall|i: int|
                            0 <= i < line.len() && (#[trigger] line[i]) is Content implies hull.start
                            <= line[i].source_range().unwrap().start
                            && line[i].source_range().unwrap().end <= hull.end by {
                            assert(rest[i] is Content);
                        }
                    },
                }
            },
            None => {
                match line.last() {
                    VirtualSpanView::Content(_, range) => {
                        assert(line[last].source_range() == Some(range));
                        assert forall|i: int|
                            0 <= i < line.len() && (#[trigger] line[i]) is Content implies range.start
                            <= line[i].source_range().unwrap().start
                            && line[i].source_range().unwrap().end <= range.end by {
                            if i < last {
                                assert(!(rest[i] is Content));
                            }
                        }
                    },
                    VirtualSpanView::Synthetic(_) => {
                        assert forall|i: int| 0 <= i < line.len() implies !((
                        #[trigger] line[i]) is Content) by {
                            if i < last {
                                assert(!(rest[i] is Content));
                            }
                        }
                    },
                }
            },
        }
    }
}

/// A row has a range exactly if it has a span of document text.
pub proof fn lemma_source_range_iff_content(line: LineView)
    ensures
        line_source_range(line).is_some() <==> line_has_content(line),
    decreases line.len(),
{
    if line.len() > 0 {
        let rest = line.drop_last();
        lemma_source_range_iff_content(rest);
        if line_has_content(rest) {
            let i = choose|i: int| 0 <= i < rest.len() && (#[trigger] rest[i]) is Content;
            assert(line[i] is Content);
        }
        if line_has_content(line) {
            let i = choose|i: int| 0 <= i < line.len() && (#[trigger] line[i]) is Content;
            if i < line.len() - 1 {
                assert(rest[i] is Content);
            }
        }
        if line.last() is Content {
            assert(line[line.len() - 1] is Content);
        }
    }
}

/// One row of the terminal.
#[derive(Clone, PartialEq, Debug)]
pub struct VirtualLine {
    pub spans: Vec<VirtualSpan>,
}

impl View for VirtualLine {
    type V = LineView;

    open spec fn view(&self) -> LineView {
        span_views(self.spans@)
    }
}

/// The row of a single empty span of decoration.
pub open spec fn empty_line_view() -> LineView {
    seq![VirtualSpanView::Synthetic(SpanView::empty())]
}

impl VirtualLine {
    pub fn new(spans: &[VirtualSpan]) -> (line: Self)
        ensures
            line@ == span_views(spans@),
    {
        let mut copy: Vec<VirtualSpan> = Vec::new();
        let mut i: usize = 0;
        while i < spans.len()
            invariant
                i <= spans.len(),
                copy@.len() == i,
                forall|j: int| 0 <= j < i ==> (#[trigger] copy@[j])@ == spans@[j]@,
            decreases spans.len() - i,
        {
            copy.push(spans[i].duplicate());
            i += 1;
        }
        assert(span_views(copy@) =~= span_views(spans@));
        VirtualLine { spans: copy }
    }

    /// The row made of `spans`.
    pub fn from_spans(spans: Vec<VirtualSpan>) -> (line: Self)
        ensures
            line@ == span_views(spans@),
    {
        VirtualLine { spans }
    }

    /// The row of a single empty span of decoration.
    pub fn empty() -> (line: Self)
        ensures
            line@ == empty_line_view(),
    {
        let mut spans: Vec<VirtualSpan> = Vec::new();
        spans.push(VirtualSpan::Synthetic(Span::empty()));
        assert(span_views(spans@) =~= empty_line_view());
        VirtualLine { spans }
    }

    /// Synthetic spans are not calculated into line width
    pub fn width(&self) -> (width: usize)
        ensures
            width == if line_width(self@) <= usize::MAX {
                line_width(self@)
            } else {
                usize::MAX as nat
            },
    {
        let mut width: usize = 0;
        let mut i: usize = 0;
        while i < self.spans.len()
            invariant
                i <= self.spans.len(),
                width == if line_width(self@.take(i as int)) <= usize::MAX {
                    line_width(self@.take(i as int))
                } else {
                    usize::MAX as nat
                },
            decreases self.spans.len() - i,
        {
            proof {
                assert(self@.take(i + 1).drop_last() =~= self@.take(i as int));
            }
            width = width.saturating_add(self.spans[i].width());
            i += 1;
        }
        proof {
            assert(self@.take(i as int) =~= self@);
        }
        width
    }

    pub fn contains_offset(&self, offset: usize) -> (contains: bool)
        ensures
            contains == line_contains_offset(self@, offset),
    {
        let mut i: usize = 0;
        while i < self.spans.len()
            invariant
                i <= self.spans.len(),
                forall|j: int| 0 <= j < i ==> !(#[trigger] self@[j]).contains_offset(offset),
            decreases self.spans.len() - i,
        {
            if self.spans[i].contains_offset(offset) {
                assert(self@[i as int].contains_offset(offset));
                return true;
            }
            i += 1;
        }
        false
    }

    /// The spans as they are painted, without their ranges.
    pub fn spans(self) -> (spans: Vec<Span>)
        ensures
            spans@.len() == self@.len(),
            forall|i: int| 0 <= i < spans@.len() ==> (#[trigger] spans@[i])@ == self@[i].span(),
    {
        let mut spans: Vec<Span> = Vec::new();
        let mut i: usize = 0;
        while i < self.spans.len()
            invariant
                i <= self.spans.len(),
                spans@.len() == i,
                forall|j: int| 0 <= j < i ==> (#[trigger] spans@[j])@ == self@[j].span(),
            decreases self.spans.len() - i,
        {
            spans.push(self.spans[i].duplicate().into_span());
            i += 1;
        }
        spans
    }

    pub fn virtual_spans(self) -> (spans: Vec<VirtualSpan>)
        ensures
            span_views(spans@) == self@,
    {
        self.spans
    }

    pub fn source_range(&self) -> (range: Option<SourceRange<usize>>)
        ensures
            range == line_source_range(self@),
    {
        let mut hull: Option<SourceRange<usize>> = None;
        let mut i: usize = 0;
        while i < self.spans.len()
            invariant
                i <= self.spans.len(),
                hull == line_source_range(self@.take(i as int)),
            decreases self.spans.len() - i,
        {
            proof {
                assert(self@.take(i + 1).drop_last() =~= self@.take(i as int));
            }
            if let Some(range) = self.spans[i].source_range() {
                hull = match hull {
                    Some(hull) => Some(
                        (if hull.start <= range.start {
                            hull.start
                        } else {
                            range.start
                        })..(if hull.end >= range.end {
                            hull.end
                        } else {
                            range.end
                        }),
                    ),
                    None => Some(copy_range(range)),
                };
            }
            i += 1;
        }
        proof {
            assert(self@.take(i as int) =~= self@);
        }
        hull
    }

    pub fn has_content(&self) -> (content: bool)
        ensures
            content == line_has_content(self@),
    {
        let mut i: usize = 0;
        while i < self.spans.len()
            invariant
                i <= self.spans.len(),
                forall|j: int| 0 <= j < i ==> !((#[trigger] self@[j]) is Content),
            decreases self.spans.len() - i,
        {
            if !self.spans[i].is_synthetic() {
                assert(self@[i as int] is Content);
                return true;
            }
            i += 1;
        }
        false
    }

    /// A copy of the row.
    pub fn duplicate(&self) -> (line: Self)
        ensures
            line@ == self@,
    {
        VirtualLine::new(self.spans.as_slice())
    }
}

/// The views of a sequence of rows, in order.
pub open spec fn line_views(lines: Seq<VirtualLine>) -> Seq<LineView> {
    Seq::new(lines.len(), |i: int| lines[i]@)
}

pub proof fn lemma_line_views_push(lines: Seq<VirtualLine>, line: VirtualLine)
    ensures
        line_views(lines.push(line)) == line_views(lines).push(line@),
{
    assert(line_views(lines.push(line)) =~= line_views(lines).push(line@));
}

/// A copy of `lines`.
pub fn duplicate_lines(lines: &[VirtualLine]) -> (copy: Vec<VirtualLine>)
    ensures
        line_views(copy@) == line_views(lines@),
{
    let mut copy: Vec<VirtualLine> = Vec::new();
    let mut i: usize = 0;
    while i < lines.len()
        invariant
            i <= lines.len(),
            copy@.len() == i,
            forall|j: int| 0 <= j < i ==> (#[trigger] copy@[j])@ == lines@[j]@,
        decreases lines.len() - i,
    {
        copy.push(lines[i].duplicate());
        i += 1;
    }
    assert(line_views(copy@) =~= line_views(lines@));
    copy
}

/// The rows that one top-level block of the document is shown as, with the
/// byte range of the block.
#[derive(Clone, Debug, PartialEq)]
pub struct VirtualBlock {
    pub lines: Vec<VirtualLine>,
    pub source_range: SourceRange<usize>,
}

pub struct VirtualBlockView {
    pub lines: Seq<LineView>,
    pub source_range: SourceRange<usize>,
}

impl View for VirtualBlock {
    type V = VirtualBlockView;

    open spec fn view(&self) -> VirtualBlockView {
        VirtualBlockView { lines: line_views(self.lines@), source_range: self.source_range }
    }
}

impl VirtualBlock {
    pub fn new(lines: &[VirtualLine], source_range: &SourceRange<usize>) -> (block: Self)
        ensures
            block@ == (VirtualBlockView { lines: line_views(lines@), source_range: *source_range }),
    {
        Self { lines: duplicate_lines(lines), source_range: copy_range(source_range) }
    }

    /// The block that takes `lines` over as they are.
    pub fn from_lines(lines: Vec<VirtualLine>, source_range: &SourceRange<usize>) -> (block: Self)
        ensures
            block@ == (VirtualBlockView { lines: line_views(lines@), source_range: *source_range }),
    {
        Self { lines, source_range: copy_range(source_range) }
    }

    pub fn lines(&self) -> (lines: &[VirtualLine])
        ensures
            line_views(lines@) == self@.lines,
    {
        self.lines.as_slice()
    }

    pub fn source_range(&self) -> (range: &SourceRange<usize>)
        ensures
            *range == self@.source_range,
    {
        &self.source_range
    }

    /// A copy of the block.
    pub fn duplicate(&self) -> (block: Self)
        ensures
            block@ == self@,
    {
        Self::new(self.lines.as_slice(), &self.source_range)
    }
}

/// The views of a sequence of blocks, in order.
pub open spec fn block_views(blocks: Seq<VirtualBlock>) -> Seq<VirtualBlockView> {
    Seq::new(blocks.len(), |i: int| blocks[i]@)
}


/// The rows of all blocks, one block after the other.
pub open spec fn flattened(blocks: Seq<VirtualBlockView>) -> Seq<LineView>
    decreases blocks.len(),
{
    if blocks.len() == 0 {
        Seq::empty()
    } else {
        flattened(blocks.drop_last()) + blocks.last().lines
    }
}

/// For every row of `flattened`, the index of the block it belongs to.
pub open spec fn block_indices(blocks: Seq<VirtualBlockView>) -> Seq<usize>
    decreases blocks.len(),
{
    if blocks.len() == 0 {
        Seq::empty()
    } else {
        block_indices(blocks.drop_last()) + Seq::new(
            blocks.last().lines.len(),
            |i: int| (blocks.len() - 1) as usize,
        )
    }
}

/// The rows above the document that show its title: the title in
/// double-struck letters, wrapped, a rule as wide as the layout, and an
/// empty row.
pub open spec fn title_rows(title: Seq<char>, width: usize) -> Seq<LineView> {
    wrapped_text(
        stylized(title, FontStyle::BlackBoardBold),
        SpanStyle::plain(),
        SpanView::empty(),
        SourceRange { start: 0, end: 1 },
        width,
        None,
        RenderStyle::Visual,
    ).push(seq![VirtualSpanView::Synthetic(SpanView::raw(repeated('═', width as nat)))]).push(
        empty_line_view(),
    )
}

/// Whether the block with index `index` is the one being edited.
pub open spec fn is_active_block(
    index: int,
    view: ViewMode,
    active: Option<usize>,
    buffer: Option<TextBufferView>,
) -> bool {
    view is Edit && active == Some(index as usize) && buffer.is_some()
}

/// The rows of one top-level block: the literal text of the buffer for the
/// block being edited, the styled text of the document for every other.
pub open spec fn laid_out_block(
    source: Seq<char>,
    node: NodeView,
    index: int,
    view: ViewMode,
    active: Option<usize>,
    width: usize,
    buffer: Option<TextBufferView>,
) -> VirtualBlockView {
    if is_active_block(index, view, active, buffer) {
        rendered(buffer.unwrap().content, node, width, SpanView::empty(), RenderStyle::Raw)
    } else {
        rendered(source, node, width, SpanView::empty(), RenderStyle::Visual)
    }
}

pub open spec fn laid_out_blocks(
    source: Seq<char>,
    nodes: Seq<NodeView>,
    view: ViewMode,
    active: Option<usize>,
    width: usize,
    buffer: Option<TextBufferView>,
) -> Seq<VirtualBlockView> {
    Seq::new(
        nodes.len(),
        |i: int| laid_out_block(source, nodes[i], i, view, active, width, buffer),
    )
}

/// The whole virtual document: the rows of the title, the blocks, the rows of
/// all blocks one after the other, and for each of those rows the index of
/// its block.
#[derive(Clone, Debug)]
pub struct VirtualDocument {
    meta: Vec<VirtualLine>,
    blocks: Vec<VirtualBlock>,
    lines: Vec<VirtualLine>,
    line_to_block: Vec<usize>,
}

pub struct VirtualDocumentView {
    pub meta: Seq<LineView>,
    pub blocks: Seq<VirtualBlockView>,
    pub lines: Seq<LineView>,
    pub line_to_block: Seq<usize>,
}

impl View for VirtualDocument {
    type V = VirtualDocumentView;

    closed spec fn view(&self) -> VirtualDocumentView {
        VirtualDocumentView {
            meta: line_views(self.meta@),
            blocks: block_views(self.blocks@),
            lines: line_views(self.lines@),
            line_to_block: self.line_to_block@,
        }
    }
}

impl VirtualDocumentView {
    /// The document without any rows.
    pub open spec fn empty() -> VirtualDocumentView {
        VirtualDocumentView {
            meta: Seq::empty(),
            blocks: Seq::empty(),
            lines: Seq::empty(),
            line_to_block: Seq::empty(),
        }
    }

    /// Whether the rows are those of the blocks, and every row knows its
    /// block.
    pub open spec fn is_consistent(self) -> bool {
        &&& self.lines == flattened(self.blocks)
        &&& self.line_to_block == block_indices(self.blocks)
    }

    /// The block that row `line` belongs to, with its index.
    pub open spec fn block_of(self, line: usize) -> Option<(usize, VirtualBlockView)> {
        if line < self.line_to_block.len() && self.line_to_block[line as int] < self.blocks.len() {
            Some(
                (
                    self.line_to_block[line as int],
                    self.blocks[self.line_to_block[line as int] as int],
                ),
            )
        } else {
            None
        }
    }

    /// The document laid out anew. The rows of the title are made only for a
    /// title that is not empty; else they stay as they were.
    pub open spec fn laid_out(
        self,
        title: Seq<char>,
        source: Seq<char>,
        view: ViewMode,
        active: Option<usize>,
        nodes: Seq<NodeView>,
        width: usize,
        buffer: Option<TextBufferView>,
    ) -> VirtualDocumentView {
        let blocks = laid_out_blocks(source, nodes, view, active, width, buffer);
        VirtualDocumentView {
            meta: if title.len() > 0 {
                title_rows(title, width)
            } else {
                self.meta
            },
            blocks,
            lines: flattened(blocks),
            line_to_block: block_indices(blocks),
        }
    }
}

/// In a consistent document every row has a block, and the rows and the
/// entries of the index are as many.
pub proof fn lemma_block_indices(blocks: Seq<VirtualBlockView>)
    ensures
        block_indices(blocks).len() == flattened(blocks).len(),
        forall|i: int|
            0 <= i < block_indices(blocks).len() ==> (#[trigger] block_indices(blocks)[i])
                < blocks.len(),
    decreases blocks.len(),
{
    if blocks.len() > 0 {
        lemma_block_indices(blocks.drop_last());
    }
}

/// The block that the index gives for a row is the block that the row comes
/// from: the row is one of the rows of that block.
pub proof fn lemma_row_of_block(blocks: Seq<VirtualBlockView>, row: int)
    requires
        blocks.len() <= usize::MAX,
        0 <= row < flattened(blocks).len(),
    ensures
        row < block_indices(blocks).len(),
        block_indices(blocks)[row] < blocks.len(),
        exists|i: int|
            0 <= i < blocks[block_indices(blocks)[row] as int].lines.len() && flattened(blocks)[row]
                == #[trigger] blocks[block_indices(blocks)[row] as int].lines[i],
    decreases blocks.len(),
{
    lemma_block_indices(blocks);
    if blocks.len() > 0 {
        let before = blocks.drop_last();
        lemma_block_indices(before);
        if row < flattened(before).len() {
            lemma_row_of_block(before, row);
            let block = block_indices(before)[row];
            assert(block_indices(blocks)[row] == block);
            assert(before[block as int] == blocks[block as int]);
            let i = choose|i: int|
                0 <= i < before[block as int].lines.len() && flattened(before)[row]
                    == #[trigger] before[block as int].lines[i];
            assert(flattened(blocks)[row] == blocks[block as int].lines[i]);
        } else {
            let i = row - flattened(before).len();
            assert(block_indices(blocks)[row] == blocks.len() - 1);
            assert(flattened(blocks)[row] == blocks[blocks.len() - 1].lines[i]);
        }
    }
}

impl VirtualDocument {
    pub fn new() -> (document: Self)
        ensures
            document@ == VirtualDocumentView::empty(),
            document@.is_consistent(),
    {
        let document = Self {
            meta: Vec::new(),
            blocks: Vec::new(),
            lines: Vec::new(),
            line_to_block: Vec::new(),
        };
        assert(line_views(document.meta@) =~= Seq::<LineView>::empty());
        assert(block_views(document.blocks@) =~= Seq::<VirtualBlockView>::empty());
        assert(document.line_to_block@ =~= Seq::<usize>::empty());
        document
    }

    pub fn meta(&self) -> (meta: &[VirtualLine])
        ensures
            line_views(meta@) == self@.meta,
    {
        self.meta.as_slice()
    }

    pub fn blocks(&self) -> (blocks: &[VirtualBlock])
        ensures
            block_views(blocks@) == self@.blocks,
    {
        self.blocks.as_slice()
    }

    pub fn lines(&self) -> (lines: &[VirtualLine])
        ensures
            line_views(lines@) == self@.lines,
    {
        self.lines.as_slice()
    }

    pub fn line_to_block(&self) -> (indices: &[usize])
        ensures
            indices@ == self@.line_to_block,
    {
        self.line_to_block.as_slice()
    }

    pub fn get_block(&self, line: usize) -> (block: Option<(usize, &VirtualBlock)>)
        ensures
            match block {
                Some((index, block)) => self@.block_of(line) == Some((index, block@)),
                None => self@.block_of(line).is_none(),
            },
    {
        if line < self.line_to_block.len() {
            let index = self.line_to_block[line];
            if index < self.blocks.len() {
                return Some((index, &self.blocks[index]));
            }
        }
        None
    }

    /// Lays the document out anew: every top-level block as rows `width`
    /// columns wide, the block with index `active_block` as literal text
    /// from `text_buffer` while editing, all others styled from `content`.
    pub fn layout(
        &mut self,
        note_name: &str,
        content: &str,
        view: &ViewMode,
        active_block: Option<usize>,
        ast_nodes: &[Node],
        width: usize,
        text_buffer: Option<TextBuffer>,
    )
        ensures
            final(self)@ == old(self)@.laid_out(
                note_name@,
                content@,
                *view,
                active_block,
                node_views(ast_nodes@),
                width,
                crate::cursor::option_buffer_view(text_buffer),
            ),
            final(self)@.is_consistent(),
    {
        let ghost buffer = crate::cursor::option_buffer_view(text_buffer);
        let ghost nodes = node_views(ast_nodes@);
        let ghost goal = laid_out_blocks(content@, nodes, *view, active_block, width, buffer);
        proof {
            lemma_node_views(ast_nodes@);
        }
        if !note_name.is_empty() {
            let title = Span::from_string(
                stylize(note_name, FontStyle::BlackBoardBold),
                SpanStyle::new(),
            );
            let mut meta = text_wrap(
                &title,
                Span::empty(),
                &(0..1),
                width,
                None,
                &RenderStyle::Visual,
            );
            let rule = VirtualLine::from_spans(
                vec![VirtualSpan::synthetic(Span::from_string(repeat_char('═', width), SpanStyle::new()))],
            );
            assert(rule@ =~= seq![
                VirtualSpanView::Synthetic(SpanView::raw(repeated('═', width as nat))),
            ]);
            let last = VirtualLine::empty();
            proof {
                lemma_line_views_push(meta@, rule);
                lemma_line_views_push(meta@.push(rule), last);
            }
            meta.push(rule);
            meta.push(last);
            self.meta = meta;
        }
        let editing = matches!(view, ViewMode::Edit(..));
        let mut blocks: Vec<VirtualBlock> = Vec::new();
        let mut lines: Vec<VirtualLine> = Vec::new();
        let mut line_to_block: Vec<usize> = Vec::new();
        let mut idx: usize = 0;
        assert(line_views(lines@) =~= Seq::<LineView>::empty());
        assert(goal.take(0) =~= Seq::<VirtualBlockView>::empty());
        while idx < ast_nodes.len()
            invariant
                idx <= ast_nodes.len(),
                editing == (*view is Edit),
                buffer == crate::cursor::option_buffer_view(text_buffer),
                nodes == node_views(ast_nodes@),
                nodes.len() == ast_nodes@.len(),
                forall|j: int| 0 <= j < ast_nodes@.len() ==> (#[trigger] nodes[j]) == ast_nodes@[j]@,
                goal == laid_out_blocks(content@, nodes, *view, active_block, width, buffer),
                block_views(blocks@) == goal.take(idx as int),
                line_views(lines@) == flattened(goal.take(idx as int)),
                line_to_block@ == block_indices(goal.take(idx as int)),
            decreases ast_nodes.len() - idx,
        {
            proof {
                assert(goal.take(idx + 1).drop_last() =~= goal.take(idx as int));
            }
            let node = &ast_nodes[idx];
            let active = editing && match active_block {
                Some(active) => active == idx,
                None => false,
            };
            let block = match &text_buffer {
                Some(buffer) if active => render_node(
                    buffer.content.clone(),
                    node,
                    width,
                    Span::empty(),
                    &RenderStyle::Raw,
                ),
                _ => render_node(
                    content.to_owned(),
                    node,
                    width,
                    Span::empty(),
                    &RenderStyle::Visual,
                ),
            };
            assert(block@ == goal[idx as int]);
            let block_lines = duplicate_lines(block.lines());
            let line_count = block_lines.len();
            assert(line_count == block@.lines.len());
            let ghost before = line_to_block@;
            let mut k: usize = 0;
            while k < line_count
                invariant
                    k <= line_count,
                    line_to_block@ == before + Seq::new(k as nat, |i: int| idx),
                decreases line_count - k,
            {
                line_to_block.push(idx);
                k += 1;
                assert(line_to_block@ =~= before + Seq::new(k as nat, |i: int| idx));
            }
            blocks.push(block);
            crate::render::append_rows(&mut lines, block_lines);
            idx += 1;
            assert(block_views(blocks@) =~= goal.take(idx as int));
            assert(line_to_block@ =~= block_indices(goal.take(idx as int)));
        }
        assert(goal.take(idx as int) =~= goal);
        self.blocks = blocks;
        self.lines = lines;
        self.line_to_block = line_to_block;
    }
}

impl Default for VirtualDocument {
    fn default() -> (document: Self)
        ensures
            document@ == VirtualDocumentView::empty(),
    {
        VirtualDocument::new()
    }
}

} // verus!
