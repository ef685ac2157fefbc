//! The parser: reads the stream of Markdown events that the tokenizer gives
//! for a source text and builds the document tree from it, with the byte
//! range of every block.

use pulldown_cmark::{CodeBlockKind, Event, Tag, TagEnd};
use vstd::prelude::*;

use crate::ast::{
    copy_range, node_views, BlockQuoteKind, HeadingLevel, ItemKind, Node, NodeView, SourceRange,
    TaskKind,
};
use crate::rich_text::{segment_views, RichText, Style, TextSegment, TextSegmentView};
use crate::text::{from_chars, to_chars};

verus! {

/// An opening tag of the event stream, reduced to what the tree needs.
#[derive(Clone, Debug, PartialEq)]
pub enum MdTag {
    Paragraph,
    Heading(HeadingLevel),
    BlockQuote(Option<BlockQuoteKind>),
    /// A code block; a fenced one carries its info string.
    CodeBlock(Option<String>),
    /// A list; an ordered one carries the number of its first item.
    List(Option<u64>),
    Item,
    Emphasis,
    Strong,
    Strikethrough,
    /// Any tag that the tree does not model.
    Other,
}

/// A closing tag of the event stream. Only its kind is kept.
#[derive(Clone, Copy, Debug, PartialEq, Eq, Structural)]
pub enum MdTagEnd {
    Paragraph,
    Heading,
    BlockQuote,
    CodeBlock,
    List,
    Item,
    /// The end of any tag that the tree does not model.
    Other,
}

/// One event of the tokenizer's stream, reduced to what the tree needs.
#[derive(Clone, Debug, PartialEq)]
pub enum MdEvent {
    Start(MdTag),
    End(MdTagEnd),
    Text(String),
    Code(String),
    SoftBreak,
    TaskListMarker(bool),
    /// Any event that the tree does not model.
    Other,
}

pub enum MdTagView {
    Paragraph,
    Heading(HeadingLevel),
    BlockQuote(Option<BlockQuoteKind>),
    CodeBlock(Option<Seq<char>>),
    List(Option<u64>),
    Item,
    Emphasis,
    Strong,
    Strikethrough,
    Other,
}

pub enum MdEventView {
    Start(MdTagView),
    End(MdTagEnd),
    Text(Seq<char>),
    Code(Seq<char>),
    SoftBreak,
    TaskListMarker(bool),
    Other,
}

impl View for MdTag {
    type V = MdTagView;

    open spec fn view(&self) -> MdTagView {
        match self {
            MdTag::Paragraph => MdTagView::Paragraph,
            MdTag::Heading(level) => MdTagView::Heading(*level),
            MdTag::BlockQuote(kind) => MdTagView::BlockQuote(*kind),
            MdTag::CodeBlock(Some(lang)) => MdTagView::CodeBlock(Some(lang@)),
            MdTag::CodeBlock(None) => MdTagView::CodeBlock(None),
            MdTag::List(start) => MdTagView::List(*start),
            MdTag::Item => MdTagView::Item,
            MdTag::Emphasis => MdTagView::Emphasis,
            MdTag::Strong => MdTagView::Strong,
            MdTag::Strikethrough => MdTagView::Strikethrough,
            MdTag::Other => MdTagView::Other,
        }
    }
}

impl View for MdEvent {
    type V = MdEventView;

    open spec fn view(&self) -> MdEventView {
        match self {
            MdEvent::Start(tag) => MdEventView::Start(tag@),
            MdEvent::End(end) => MdEventView::End(*end),
            MdEvent::Text(text) => MdEventView::Text(text@),
            MdEvent::Code(text) => MdEventView::Code(text@),
            MdEvent::SoftBreak => MdEventView::SoftBreak,
            MdEvent::TaskListMarker(checked) => MdEventView::TaskListMarker(*checked),
            MdEvent::Other => MdEventView::Other,
        }
    }
}

/// An event with the byte range of the source that it was read from.
pub type Token = (MdEvent, SourceRange<usize>);

pub type TokenView = (MdEventView, SourceRange<usize>);

/// The views of a sequence of tokens, in order.
pub open spec fn token_views(tokens: Seq<Token>) -> Seq<TokenView> {
    Seq::new(tokens.len(), |i: int| (tokens[i].0@, tokens[i].1))
}

/// An event of the tokenizer. Nothing is known of it but what the functions
/// below read from it.
#[verifier::external_type_specification]
#[verifier::external_body]
pub struct ExEvent<'a>(pulldown_cmark::Event<'a>);

/// The kind of an event of the tokenizer, without what it carries.
#[derive(Clone, Copy, Debug, PartialEq, Eq, Structural)]
pub enum EventShape {
    Start,
    End,
    Text,
    Code,
    SoftBreak,
    TaskListMarker(bool),
    Other,
}

/// The kind of an opening tag of the tokenizer, without what it carries.
#[derive(Clone, Copy, Debug, PartialEq, Eq, Structural)]
pub enum TagShape {
    Paragraph,
    Heading,
    BlockQuote,
    CodeBlock,
    List,
    Item,
    Emphasis,
    Strong,
    Strikethrough,
    Other,
}

/// Tells the variants of `pulldown_cmark::Event` apart.
#[verifier::external_body]
fn event_shape(event: &Event<'_>) -> EventShape {
    match event {
        Event::Start(_) => EventShape::Start,
        Event::End(_) => EventShape::End,
        Event::Text(_) => EventShape::Text,
        Event::Code(_) => EventShape::Code,
        Event::SoftBreak => EventShape::SoftBreak,
        Event::TaskListMarker(checked) => EventShape::TaskListMarker(*checked),
        _ => EventShape::Other,
    }
}

/// The text that a `Text` or `Code` event of `pulldown_cmark` carries.
#[verifier::external_body]
fn event_text(event: &Event<'_>) -> Option<String> {
    match event {
        Event::Text(text) => Some(text.to_string()),
        Event::Code(text) => Some(text.to_string()),
        _ => None,
    }
}

/// Tells the variants of the `pulldown_cmark::Tag` of a `Start` event apart.
#[verifier::external_body]
fn tag_shape(event: &Event<'_>) -> TagShape {
    match event {
        Event::Start(Tag::Paragraph) => TagShape::Paragraph,
        Event::Start(Tag::Heading { .. }) => TagShape::Heading,
        Event::Start(Tag::BlockQuote(_)) => TagShape::BlockQuote,
        Event::Start(Tag::CodeBlock(_)) => TagShape::CodeBlock,
        Event::Start(Tag::List(_)) => TagShape::List,
        Event::Start(Tag::Item) => TagShape::Item,
        Event::Start(Tag::Emphasis) => TagShape::Emphasis,
        Event::Start(Tag::Strong) => TagShape::Strong,
        Event::Start(Tag::Strikethrough) => TagShape::Strikethrough,
        _ => TagShape::Other,
    }
}

/// The `pulldown_cmark::HeadingLevel` of the start of a heading, carried over
/// variant by variant.
#[verifier::external_body]
fn heading_level_of(event: &Event<'_>) -> Option<HeadingLevel> {
    match event {
        Event::Start(Tag::Heading { level: pulldown_cmark::HeadingLevel::H1, .. }) => Some(HeadingLevel::H1),
        Event::Start(Tag::Heading { level: pulldown_cmark::HeadingLevel::H2, .. }) => Some(HeadingLevel::H2),
        Event::Start(Tag::Heading { level: pulldown_cmark::HeadingLevel::H3, .. }) => Some(HeadingLevel::H3),
        Event::Start(Tag::Heading { level: pulldown_cmark::HeadingLevel::H4, .. }) => Some(HeadingLevel::H4),
        Event::Start(Tag::Heading { level: pulldown_cmark::HeadingLevel::H5, .. }) => Some(HeadingLevel::H5),
        Event::Start(Tag::Heading { level: pulldown_cmark::HeadingLevel::H6, .. }) => Some(HeadingLevel::H6),
        _ => None,
    }
}

/// The `pulldown_cmark::BlockQuoteKind` of the start of a block quote that
/// has one, carried over variant by variant.
#[verifier::external_body]
fn block_quote_kind_of(event: &Event<'_>) -> Option<BlockQuoteKind> {
    match event {
        Event::Start(Tag::BlockQuote(Some(pulldown_cmark::BlockQuoteKind::Tip))) => Some(BlockQuoteKind::Tip),
        Event::Start(Tag::BlockQuote(Some(pulldown_cmark::BlockQuoteKind::Note))) => Some(BlockQuoteKind::Note),
        Event::Start(Tag::BlockQuote(Some(pulldown_cmark::BlockQuoteKind::Warning))) => Some(BlockQuoteKind::Warning),
        Event::Start(Tag::BlockQuote(Some(pulldown_cmark::BlockQuoteKind::Caution))) => Some(BlockQuoteKind::Caution),
        Event::Start(Tag::BlockQuote(Some(pulldown_cmark::BlockQuoteKind::Important))) => Some(BlockQuoteKind::Important),
        _ => None,
    }
}

/// The info string of the start of a fenced code block of `pulldown_cmark`.
#[verifier::external_body]
fn code_block_lang_of(event: &Event<'_>) -> Option<String> {
    match event {
        Event::Start(Tag::CodeBlock(CodeBlockKind::Fenced(lang))) => Some(lang.to_string()),
        _ => None,
    }
}

/// The number of the first item of the start of an ordered list of
/// `pulldown_cmark`.
#[verifier::external_body]
fn list_start_of(event: &Event<'_>) -> Option<u64> {
    match event {
        Event::Start(Tag::List(start)) => *start,
        _ => None,
    }
}

/// Tells the variants of the `pulldown_cmark::TagEnd` of an `End` event
/// apart, as far as the tree models them.
#[verifier::external_body]
fn tag_end_of(event: &Event<'_>) -> MdTagEnd {
    match event {
        Event::End(TagEnd::Paragraph) => MdTagEnd::Paragraph,
        Event::End(TagEnd::Heading(_)) => MdTagEnd::Heading,
        Event::End(TagEnd::BlockQuote(_)) => MdTagEnd::BlockQuote,
        Event::End(TagEnd::CodeBlock) => MdTagEnd::CodeBlock,
        Event::End(TagEnd::List(_)) => MdTagEnd::List,
        Event::End(TagEnd::Item) => MdTagEnd::Item,
        _ => MdTagEnd::Other,
    }
}

/// The opening tag of a `Start` event, made of what the functions above read
/// from the event.
fn tag_from(event: &Event<'_>) -> MdTag {
    // Every reading is taken, whatever the kind of the tag: one that does not
    // apply to the kind comes back empty and is not looked at.
    let shape = tag_shape(event);
    let level = heading_level_of(event);
    let kind = block_quote_kind_of(event);
    let lang = code_block_lang_of(event);
    let start = list_start_of(event);
    MdTag::from_reading(
        shape,
        level,
        kind,
        lang,
        start,
    )
}

/// An event of the tokenizer as the parser reads it, made of what the
/// functions above read from the event. Every reading is taken, whatever the
/// kind of the event.
fn event_from(event: &Event<'_>) -> MdEvent {
    let shape = event_shape(event);
    let text = event_text(event);
    let tag = tag_from(event);
    let end = tag_end_of(event);
    MdEvent::from_reading(shape, text, tag, end)
}

/// The opening tag that is made of what has been read from a `Start` event:
/// the block and inline tags that the tree models keep what they carry, every
/// other tag becomes `Other`. A heading without a level is none of them.
pub open spec fn tag_of_reading(
    shape: TagShape,
    level: Option<HeadingLevel>,
    kind: Option<BlockQuoteKind>,
    lang: Option<Seq<char>>,
    start: Option<u64>,
) -> MdTagView {
    match shape {
        TagShape::Paragraph => MdTagView::Paragraph,
        TagShape::Heading => match level {
            Some(level) => MdTagView::Heading(level),
            None => MdTagView::Other,
        },
        TagShape::BlockQuote => MdTagView::BlockQuote(kind),
        TagShape::CodeBlock => MdTagView::CodeBlock(lang),
        TagShape::List => MdTagView::List(start),
        TagShape::Item => MdTagView::Item,
        TagShape::Emphasis => MdTagView::Emphasis,
        TagShape::Strong => MdTagView::Strong,
        TagShape::Strikethrough => MdTagView::Strikethrough,
        TagShape::Other => MdTagView::Other,
    }
}

/// The event that is made of what has been read from an event of the
/// tokenizer: the events that the tree models keep what they carry, every
/// other event becomes `Other`. An event of text or code without a text is
/// none of them.
pub open spec fn event_of_reading(
    shape: EventShape,
    text: Option<Seq<char>>,
    tag: MdTagView,
    end: MdTagEnd,
) -> MdEventView {
    match shape {
        EventShape::Start => MdEventView::Start(tag),
        EventShape::End => MdEventView::End(end),
        EventShape::Text => match text {
            Some(text) => MdEventView::Text(text),
            None => MdEventView::Other,
        },
        EventShape::Code => match text {
            Some(text) => MdEventView::Code(text),
            None => MdEventView::Other,
        },
        EventShape::SoftBreak => MdEventView::SoftBreak,
        EventShape::TaskListMarker(checked) => MdEventView::TaskListMarker(checked),
        EventShape::Other => MdEventView::Other,
    }
}

impl MdTag {
    /// Makes the opening tag of what has been read from a `Start` event: its
    /// kind, and the level, the kind of quote, the info string and the first
    /// number that it carries, where it carries one.
    pub fn from_reading(
        shape: TagShape,
        level: Option<HeadingLevel>,
        kind: Option<BlockQuoteKind>,
        lang: Option<String>,
        start: Option<u64>,
    ) -> (tag: Self)
        ensures
            tag@ == tag_of_reading(shape, level, kind, crate::ast::option_string_view(lang), start),
    {
        match shape {
            TagShape::Paragraph => MdTag::Paragraph,
            TagShape::Heading => match level {
                Some(level) => MdTag::Heading(level),
                None => MdTag::Other,
            },
            TagShape::BlockQuote => MdTag::BlockQuote(kind),
            TagShape::CodeBlock => MdTag::CodeBlock(lang),
            TagShape::List => MdTag::List(start),
            TagShape::Item => MdTag::Item,
            TagShape::Emphasis => MdTag::Emphasis,
            TagShape::Strong => MdTag::Strong,
            TagShape::Strikethrough => MdTag::Strikethrough,
            TagShape::Other => MdTag::Other,
        }
    }
}

impl MdEvent {
    /// Makes the event of what has been read from an event of the tokenizer:
    /// its kind, the text that it carries, if it carries one, its opening tag
    /// and the kind of its closing tag.
    pub fn from_reading(shape: EventShape, text: Option<String>, tag: MdTag, end: MdTagEnd) -> (event:
        Self)
        ensures
            event@ == event_of_reading(shape, crate::ast::option_string_view(text), tag@, end),
    {
        match shape {
            EventShape::Start => MdEvent::Start(tag),
            EventShape::End => MdEvent::End(end),
            EventShape::Text => match text {
                Some(text) => MdEvent::Text(text),
                None => MdEvent::Other,
            },
            EventShape::Code => match text {
                Some(text) => MdEvent::Code(text),
                None => MdEvent::Other,
            },
            EventShape::SoftBreak => MdEvent::SoftBreak,
            EventShape::TaskListMarker(checked) => MdEvent::TaskListMarker(checked),
            EventShape::Other => MdEvent::Other,
        }
    }
}

/// The events that the tokenizer reads from `text`, each with its byte range
/// in `text`, with all of the tokenizer's extensions switched on and
/// neighbouring text events merged into one.
pub uninterp spec fn markdown_events(text: Seq<char>) -> Seq<TokenView>;

/// Runs `pulldown_cmark::Parser::new_ext` with `Options::all()` over `text`,
/// turns it into an offset iterator, merges neighbouring text events with
/// `TextMergeWithOffset`, and collects the events, each as the parser reads
/// it. The stream depends on the text alone.
#[verifier::external_body]
fn tokenize(text: &str) -> (tokens: Vec<Token>)
    ensures
        token_views(tokens@) == markdown_events(text@),
{
    pulldown_cmark::TextMergeWithOffset::new(
        pulldown_cmark::Parser::new_ext(text, pulldown_cmark::Options::all()).into_offset_iter(),
    ).map(|(event, range)| (event_from(&event), range)).collect()
}


/// What the parser remembers between containers: the task marker that the
/// current item has met, and the kind of each list that is open.
#[derive(Clone, Debug, PartialEq)]
pub struct ParserState {
    task_kind: Option<TaskKind>,
    item_kind: Vec<ItemKind>,
}

pub struct ParserStateView {
    pub task_kind: Option<TaskKind>,
    pub item_kind: Seq<ItemKind>,
}

impl View for ParserState {
    type V = ParserStateView;

    closed spec fn view(&self) -> ParserStateView {
        ParserStateView { task_kind: self.task_kind, item_kind: self.item_kind@ }
    }
}

impl ParserStateView {
    /// The state in which parsing starts.
    pub open spec fn initial() -> ParserStateView {
        ParserStateView { task_kind: None, item_kind: Seq::empty() }
    }
}

impl ParserState {
    pub fn new() -> (state: Self)
        ensures
            state@ == ParserStateView::initial(),
    {
        Self { task_kind: None, item_kind: Vec::new() }
    }
}

impl Default for ParserState {
    fn default() -> (state: Self)
        ensures
            state@ == ParserStateView::initial(),
    {
        Self::new()
    }
}

/// What a container has gathered so far: its child blocks, the segments of
/// its own text, and the inline styles that were opened inside it.
pub struct Pending {
    pub nodes: Seq<NodeView>,
    pub segments: Seq<TextSegmentView>,
    pub styles: Seq<Style>,
}

impl Pending {
    pub open spec fn empty() -> Pending {
        Pending { nodes: Seq::empty(), segments: Seq::empty(), styles: Seq::empty() }
    }
}

/// The outcome of reading one container: the block, if the container was
/// closed, the index of the first token after it, and the state left behind.
pub struct ContainerResult {
    pub node: Option<NodeView>,
    pub next: int,
    pub state: ParserStateView,
}

pub open spec fn is_container_tag(tag: MdTagView) -> bool {
    match tag {
        MdTagView::Paragraph => true,
        MdTagView::Item => true,
        MdTagView::List(_) => true,
        MdTagView::BlockQuote(_) => true,
        MdTagView::CodeBlock(_) => true,
        MdTagView::Heading(_) => true,
        _ => false,
    }
}

pub open spec fn tag_style(tag: MdTagView) -> Option<Style> {
    match tag {
        MdTagView::Emphasis => Some(Style::Emphasis),
        MdTagView::Strong => Some(Style::Strong),
        MdTagView::Strikethrough => Some(Style::Strikethrough),
        _ => None,
    }
}

pub open spec fn is_inline_tag(tag: MdTagView) -> bool {
    tag_style(tag).is_some()
}

/// Whether `end` closes a container that `start` opened. Only the kinds are
/// compared.
pub open spec fn tags_match(start: MdTagView, end: MdTagEnd) -> bool {
    match start {
        MdTagView::Heading(_) => end == MdTagEnd::Heading,
        MdTagView::List(_) => end == MdTagEnd::List,
        MdTagView::Item => end == MdTagEnd::Item,
        MdTagView::BlockQuote(_) => end == MdTagEnd::BlockQuote,
        MdTagView::CodeBlock(_) => end == MdTagEnd::CodeBlock,
        MdTagView::Paragraph => end == MdTagEnd::Paragraph,
        _ => false,
    }
}

/// The state after a container with `tag` has been opened: a list adds its
/// kind to the open lists.
pub open spec fn enter_container(state: ParserStateView, tag: MdTagView) -> ParserStateView {
    match tag {
        MdTagView::List(Some(start)) => ParserStateView {
            item_kind: state.item_kind.push(ItemKind::Ordered(start)),
            ..state
        },
        MdTagView::List(None) => ParserStateView {
            item_kind: state.item_kind.push(ItemKind::Unordered),
            ..state
        },
        _ => state,
    }
}

/// The style that text gets inside a container: the one opened last.
pub open spec fn current_style(styles: Seq<Style>) -> Option<Style> {
    if styles.len() > 0 {
        Some(styles.last())
    } else {
        None
    }
}

/// Whether `text` starts with a checkbox that holds something other than a
/// space or an `x`, followed by a space.
pub open spec fn is_loose_task_marker(text: Seq<char>) -> bool {
    &&& text.len() >= 4
    &&& text[0] == '['
    &&& text[1] != ' ' && text[1] != 'x' && text[1] != 'X'
    &&& text[2] == ']'
    &&& text[3] == ' '
}

/// Whether a text event with `text` is read as the loose task marker of the
/// item being gathered: it is the first thing in a list item that has met no
/// task marker yet.
pub open spec fn opens_loose_task(
    tag: MdTagView,
    pending: Pending,
    state: ParserStateView,
    text: Seq<char>,
) -> bool {
    &&& tag is Item
    &&& pending.nodes.len() == 0
    &&& pending.segments.len() == 0
    &&& state.task_kind.is_none()
    &&& is_loose_task_marker(text)
}

/// The kind of the next item of the innermost open list.
pub open spec fn advance_item_kind(kinds: Seq<ItemKind>) -> Seq<ItemKind> {
    if kinds.len() > 0 {
        match kinds.last() {
            ItemKind::Ordered(n) => kinds.update(
                kinds.len() - 1,
                ItemKind::Ordered(
                    if n < u64::MAX {
                        (n + 1) as u64
                    } else {
                        n
                    },
                ),
            ),
            ItemKind::Unordered => kinds,
        }
    } else {
        kinds
    }
}

/// The block that a container with `tag` becomes when its closing tag, read
/// from `range`, is met, and the state after it.
pub open spec fn close_container(
    tag: MdTagView,
    children: Seq<NodeView>,
    segments: Seq<TextSegmentView>,
    state: ParserStateView,
    range: SourceRange<usize>,
) -> (Option<NodeView>, ParserStateView) {
    match tag {
        MdTagView::Heading(level) => (
            Some(NodeView::Heading { level, text: segments, source_range: range }),
            state,
        ),
        MdTagView::Item => {
            let nodes = if segments.len() > 0 {
                children.insert(
                    0,
                    NodeView::Paragraph { text: segments, source_range: range },
                )
            } else {
                children
            };
            let node = match state.task_kind {
                Some(kind) => NodeView::Task { kind, nodes, source_range: range },
                None => NodeView::Item {
                    kind: if state.item_kind.len() > 0 {
                        state.item_kind.last()
                    } else {
                        ItemKind::Unordered
                    },
                    nodes,
                    source_range: range,
                },
            };
            (
                Some(node),
                ParserStateView { task_kind: None, item_kind: advance_item_kind(state.item_kind) },
            )
        },
        MdTagView::List(_) => (
            Some(NodeView::List { nodes: children, source_range: range }),
            ParserStateView {
                item_kind: if state.item_kind.len() > 0 {
                    state.item_kind.drop_last()
                } else {
                    state.item_kind
                },
                ..state
            },
        ),
        MdTagView::CodeBlock(lang) => (
            Some(NodeView::CodeBlock { lang, text: segments, source_range: range }),
            state,
        ),
        MdTagView::BlockQuote(kind) => (
            Some(NodeView::BlockQuote { kind, nodes: children, source_range: range }),
            state,
        ),
        MdTagView::Paragraph => (
            Some(NodeView::Paragraph { text: segments, source_range: range }),
            state,
        ),
        _ => (None, state),
    }
}

/// Reads the rest of a container with `tag` from `tokens[pos..]`, given what
/// it has gathered so far.
///
/// A container start opens a nested container, whose block becomes a child.
/// An inline start adds its style. A task marker is remembered for the
/// enclosing item. Code and text become segments, a soft break a line break.
/// The closing tag of the container ends it. Without a closing tag there is
/// no block.
pub open spec fn container_from(
    tokens: Seq<TokenView>,
    pos: int,
    tag: MdTagView,
    pending: Pending,
    state: ParserStateView,
) -> ContainerResult
    decreases tokens.len() - pos,
{
    if pos < 0 || pos >= tokens.len() {
        ContainerResult { node: None, next: pos, state }
    } else {
        let range = tokens[pos].1;
        match tokens[pos].0 {
            MdEventView::Start(inner) => {
                if is_container_tag(inner) {
                    let sub = container_from(
                        tokens,
                        pos + 1,
                        inner,
                        Pending::empty(),
                        enter_container(state, inner),
                    );
                    let next = if pos < sub.next <= tokens.len() {
                        sub.next
                    } else {
                        pos + 1
                    };
                    let nodes = match sub.node {
                        Some(node) => pending.nodes.push(node),
                        None => pending.nodes,
                    };
                    container_from(tokens, next, tag, Pending { nodes, ..pending }, sub.state)
                } else {
                    let styles = match tag_style(inner) {
                        Some(style) => pending.styles.push(style),
                        None => pending.styles,
                    };
                    container_from(tokens, pos + 1, tag, Pending { styles, ..pending }, state)
                }
            },
            MdEventView::TaskListMarker(checked) => container_from(
                tokens,
                pos + 1,
                tag,
                pending,
                ParserStateView {
                    task_kind: Some(
                        if checked {
                            TaskKind::Checked
                        } else {
                            TaskKind::Unchecked
                        },
                    ),
                    ..state
                },
            ),
            MdEventView::Code(text) => container_from(
                tokens,
                pos + 1,
                tag,
                Pending {
                    segments: pending.segments.push(
                        TextSegmentView { content: text, style: Some(Style::Code) },
                    ),
                    ..pending
                },
                state,
            ),
            MdEventView::Text(text) => {
                let style = current_style(pending.styles);
                if opens_loose_task(tag, pending, state, text) {
                    container_from(
                        tokens,
                        pos + 1,
                        tag,
                        Pending {
                            segments: pending.segments.push(
                                TextSegmentView { content: text.skip(4), style },
                            ),
                            ..pending
                        },
                        ParserStateView { task_kind: Some(TaskKind::LooselyChecked), ..state },
                    )
                } else {
                    container_from(
                        tokens,
                        pos + 1,
                        tag,
                        Pending {
                            segments: pending.segments.push(
                                TextSegmentView { content: text, style },
                            ),
                            ..pending
                        },
                        state,
                    )
                }
            },
            MdEventView::SoftBreak => container_from(
                tokens,
                pos + 1,
                tag,
                Pending {
                    segments: pending.segments.push(
                        TextSegmentView { content: seq!['\n'], style: None },
                    ),
                    ..pending
                },
                state,
            ),
            MdEventView::End(end) => {
                if tags_match(tag, end) {
                    let closed = close_container(
                        tag,
                        pending.nodes,
                        pending.segments,
                        state,
                        range,
                    );
                    ContainerResult { node: closed.0, next: pos + 1, state: closed.1 }
                } else {
                    container_from(tokens, pos + 1, tag, pending, state)
                }
            },
            MdEventView::Other => container_from(tokens, pos + 1, tag, pending, state),
        }
    }
}

/// Reading a container moves on through the tokens and never past their end.
pub proof fn lemma_container_advances(
    tokens: Seq<TokenView>,
    pos: int,
    tag: MdTagView,
    pending: Pending,
    state: ParserStateView,
)
    requires
        0 <= pos <= tokens.len(),
    ensures
        pos <= container_from(tokens, pos, tag, pending, state).next <= tokens.len(),
        container_from(tokens, pos, tag, pending, state).node.is_some() ==> pos
            < container_from(tokens, pos, tag, pending, state).next,
    decreases tokens.len() - pos,
{
    if pos < tokens.len() {
        let range = tokens[pos].1;
        match tokens[pos].0 {
            MdEventView::Start(inner) => {
                if is_container_tag(inner) {
                    let entered = enter_container(state, inner);
                    lemma_container_advances(tokens, pos + 1, inner, Pending::empty(), entered);
                    let sub = container_from(tokens, pos + 1, inner, Pending::empty(), entered);
                    let nodes = match sub.node {
                        Some(node) => pending.nodes.push(node),
                        None => pending.nodes,
                    };
                    lemma_container_advances(
                        tokens,
                        sub.next,
                        tag,
                        Pending { nodes, ..pending },
                        sub.state,
                    );
                } else {
                    let styles = match tag_style(inner) {
                        Some(style) => pending.styles.push(style),
                        None => pending.styles,
                    };
                    lemma_container_advances(
                        tokens,
                        pos + 1,
                        tag,
                        Pending { styles, ..pending },
                        state,
                    );
                }
            },
            MdEventView::TaskListMarker(checked) => {
                lemma_container_advances(
                    tokens,
                    pos + 1,
                    tag,
                    pending,
                    ParserStateView {
                        task_kind: Some(
                            if checked {
                                TaskKind::Checked
                            } else {
                                TaskKind::Unchecked
                            },
                        ),
                        ..state
                    },
                );
            },
            MdEventView::Code(text) => {
                lemma_container_advances(
                    tokens,
                    pos + 1,
                    tag,
                    Pending {
                        segments: pending.segments.push(
                            TextSegmentView { content: text, style: Some(Style::Code) },
                        ),
                        ..pending
                    },
                    state,
                );
            },
            MdEventView::Text(text) => {
                let style = current_style(pending.styles);
                if opens_loose_task(tag, pending, state, text) {
                    lemma_container_advances(
                        tokens,
                        pos + 1,
                        tag,
                        Pending {
                            segments: pending.segments.push(
                                TextSegmentView { content: text.skip(4), style },
                            ),
                            ..pending
                        },
                        ParserStateView { task_kind: Some(TaskKind::LooselyChecked), ..state },
                    );
                } else {
                    lemma_container_advances(
                        tokens,
                        pos + 1,
                        tag,
                        Pending {
                            segments: pending.segments.push(
                                TextSegmentView { content: text, style },
                            ),
                            ..pending
                        },
                        state,
                    );
                }
            },
            MdEventView::SoftBreak => {
                lemma_container_advances(
                    tokens,
                    pos + 1,
                    tag,
                    Pending {
                        segments: pending.segments.push(
                            TextSegmentView { content: seq!['\n'], style: None },
                        ),
                        ..pending
                    },
                    state,
                );
            },
            MdEventView::End(end) => {
                if !tags_match(tag, end) {
                    lemma_container_advances(tokens, pos + 1, tag, pending, state);
                }
            },
            MdEventView::Other => {
                lemma_container_advances(tokens, pos + 1, tag, pending, state);
            },
        }
    }
}

/// Reads a whole container whose start tag `tag` stands just before
/// `tokens[pos]`.
pub open spec fn container_at(
    tokens: Seq<TokenView>,
    pos: int,
    tag: MdTagView,
    state: ParserStateView,
) -> ContainerResult {
    container_from(tokens, pos, tag, Pending::empty(), enter_container(state, tag))
}

/// The top-level blocks read from `tokens[pos..]`, after `nodes`.
pub open spec fn nodes_from(
    tokens: Seq<TokenView>,
    pos: int,
    state: ParserStateView,
    nodes: Seq<NodeView>,
) -> Seq<NodeView>
    decreases tokens.len() - pos,
{
    if pos < 0 || pos >= tokens.len() {
        nodes
    } else {
        match tokens[pos].0 {
            MdEventView::Start(tag) => {
                if is_container_tag(tag) {
                    let sub = container_at(tokens, pos + 1, tag, state);
                    let next = if pos < sub.next <= tokens.len() {
                        sub.next
                    } else {
                        pos + 1
                    };
                    nodes_from(
                        tokens,
                        next,
                        sub.state,
                        match sub.node {
                            Some(node) => nodes.push(node),
                            None => nodes,
                        },
                    )
                } else {
                    nodes_from(tokens, pos + 1, state, nodes)
                }
            },
            _ => nodes_from(tokens, pos + 1, state, nodes),
        }
    }
}

/// The document tree that a stream of tokens describes.
pub open spec fn parsed_nodes(tokens: Seq<TokenView>) -> Seq<NodeView> {
    nodes_from(tokens, 0, ParserStateView::initial(), Seq::empty())
}


/// A copy of an optional string.
fn clone_lang(lang: &Option<String>) -> (copy: Option<String>)
    ensures
        crate::ast::option_string_view(copy) == crate::ast::option_string_view(*lang),
{
    match lang {
        Some(lang) => Some(lang.clone()),
        None => None,
    }
}

/// Whether `text` starts with a loose task marker.
fn starts_with_loose_task_marker(chars: &Vec<char>) -> (found: bool)
    ensures
        found == is_loose_task_marker(chars@),
{
    chars.len() >= 4 && chars[0] == '[' && chars[1] != ' ' && chars[1] != 'x' && chars[1] != 'X'
        && chars[2] == ']' && chars[3] == ' '
}

/// Builds the block of a container that has met its closing tag.
fn finish_container(
    tag: &MdTag,
    nodes: Vec<Node>,
    segments: Vec<TextSegment>,
    state: &mut ParserState,
    range: &SourceRange<usize>,
) -> (node: Option<Node>)
    ensures
        ({
            let closed = close_container(
                tag@,
                node_views(nodes@),
                segment_views(segments@),
                old(state)@,
                *range,
            );
            &&& crate::ast::option_node_view(node) == closed.0
            &&& final(state)@ == closed.1
        }),
{
    let mut nodes = nodes;
    let has_text = segments.len() > 0;
    let text = RichText::from_segments(segments);
    match tag {
        MdTag::Heading(level) => Some(
            Node::Heading { level: *level, text, source_range: copy_range(range) },
        ),
        MdTag::Item => {
            if has_text {
                let paragraph = Node::Paragraph { text, source_range: copy_range(range) };
                proof {
                    crate::ast::lemma_node_views_insert(nodes@, 0, paragraph);
                }
                nodes.insert(0, paragraph);
            }
            let node = match state.task_kind {
                Some(kind) => Node::Task { kind, nodes, source_range: copy_range(range) },
                None => {
                    let count = state.item_kind.len();
                    let kind = if count > 0 {
                        state.item_kind[count - 1]
                    } else {
                        ItemKind::Unordered
                    };
                    Node::Item { kind, nodes, source_range: copy_range(range) }
                },
            };
            state.task_kind = None;
            let count = state.item_kind.len();
            if count > 0 {
                match state.item_kind[count - 1] {
                    ItemKind::Ordered(n) => {
                        let next = if n < u64::MAX {
                            n + 1
                        } else {
                            n
                        };
                        state.item_kind.set(count - 1, ItemKind::Ordered(next));
                    },
                    ItemKind::Unordered => {},
                }
            }
            assert(state.item_kind@ =~= advance_item_kind(old(state).item_kind@));
            Some(node)
        },
        MdTag::List(_) => {
            state.item_kind.pop();
            Some(Node::List { nodes, source_range: copy_range(range) })
        },
        MdTag::CodeBlock(lang) => Some(
            Node::CodeBlock { lang: clone_lang(lang), text, source_range: copy_range(range) },
        ),
        MdTag::BlockQuote(kind) => Some(
            Node::BlockQuote { kind: *kind, nodes, source_range: copy_range(range) },
        ),
        MdTag::Paragraph => Some(Node::Paragraph { text, source_range: copy_range(range) }),
        _ => None,
    }
}

/// Reads the container whose start tag `tag` stands just before
/// `tokens[start]`. Gives the block, if the container is closed, and the
/// index of the first token after it.
fn read_container(
    tokens: &Vec<Token>,
    start: usize,
    tag: &MdTag,
    state: &mut ParserState,
) -> (result: (Option<Node>, usize))
    requires
        start <= tokens.len(),
    ensures
        ({
            let spec = container_at(token_views(tokens@), start as int, tag@, old(state)@);
            &&& crate::ast::option_node_view(result.0) == spec.node
            &&& result.1 == spec.next
            &&& final(state)@ == spec.state
            &&& start <= result.1 <= tokens.len()
        }),
    decreases tokens.len() - start,
{
    let ghost views = token_views(tokens@);
    let ghost goal = container_at(views, start as int, tag@, state@);
    let mut nodes: Vec<Node> = Vec::new();
    let mut segments: Vec<TextSegment> = Vec::new();
    let mut styles: Vec<Style> = Vec::new();
    match tag {
        MdTag::List(Some(first)) => {
            state.item_kind.push(ItemKind::Ordered(*first));
        },
        MdTag::List(None) => {
            state.item_kind.push(ItemKind::Unordered);
        },
        _ => {},
    }
    assert(node_views(nodes@) =~= Seq::<NodeView>::empty());
    assert(segment_views(segments@) =~= Seq::<TextSegmentView>::empty());
    let mut pos = start;
    while pos < tokens.len()
        invariant
            start <= pos <= tokens.len(),
            views == token_views(tokens@),
            goal == container_at(views, start as int, tag@, old(state)@),
            goal == container_from(
                views,
                pos as int,
                tag@,
                Pending {
                    nodes: node_views(nodes@),
                    segments: segment_views(segments@),
                    styles: styles@,
                },
                state@,
            ),
        decreases tokens.len() - pos,
    {
        let ghost pending = Pending {
            nodes: node_views(nodes@),
            segments: segment_views(segments@),
            styles: styles@,
        };
        let ghost before = state@;
        assert(views[pos as int] == (tokens@[pos as int].0@, tokens@[pos as int].1));
        let range = &tokens[pos].1;
        match &tokens[pos].0 {
            MdEvent::Start(inner) => {
                if Parser::is_container_tag(inner) {
                    let (node, next) = read_container(tokens, pos + 1, inner, state);
                    if let Some(node) = node {
                        proof {
                            crate::ast::lemma_node_views_push(nodes@, node);
                        }
                        nodes.push(node);
                    }
                    pos = next;
                } else {
                    if Parser::is_inline_tag(inner) {
                        if let Some(style) = Parser::tag_to_style(inner) {
                            styles.push(style);
                        }
                    }
                    pos += 1;
                }
            },
            MdEvent::TaskListMarker(checked) => {
                state.task_kind = Some(
                    if *checked {
                        TaskKind::Checked
                    } else {
                        TaskKind::Unchecked
                    },
                );
                pos += 1;
            },
            MdEvent::Code(text) => {
                let segment = TextSegment::styled(text.as_str(), Style::Code);
                proof {
                    crate::rich_text::lemma_segment_views_push(segments@, segment);
                }
                segments.push(segment);
                pos += 1;
            },
            MdEvent::Text(text) => {
                let style = if styles.len() > 0 {
                    Some(styles[styles.len() - 1])
                } else {
                    None
                };
                let mut segment = TextSegment::new(text.as_str(), style);
                if matches!(tag, MdTag::Item) && nodes.len() == 0 && segments.len() == 0
                    && state.task_kind.is_none() {
                    proof {
                        crate::ast::lemma_node_views(nodes@);
                    }
                    let chars = to_chars(text.as_str());
                    if starts_with_loose_task_marker(&chars) {
                        segment = TextSegment { content: from_chars(&chars, 4, chars.len()), style };
                        state.task_kind = Some(TaskKind::LooselyChecked);
                    }
                } else {
                    proof {
                        crate::ast::lemma_node_views(nodes@);
                    }
                }
                proof {
                    crate::rich_text::lemma_segment_views_push(segments@, segment);
                }
                segments.push(segment);
                pos += 1;
            },
            MdEvent::SoftBreak => {
                let segment = TextSegment::empty_line();
                proof {
                    crate::rich_text::lemma_segment_views_push(segments@, segment);
                }
                segments.push(segment);
                pos += 1;
            },
            MdEvent::End(end) => {
                if Parser::tags_match(tag, end) {
                    let node = finish_container(tag, nodes, segments, state, range);
                    return (node, pos + 1);
                }
                pos += 1;
            },
            MdEvent::Other => {
                pos += 1;
            },
        }
    }
    (None, pos)
}

/// Reads the top-level blocks from `tokens[start..]`.
fn read_blocks(tokens: &Vec<Token>, start: usize) -> (nodes: Vec<Node>)
    requires
        start <= tokens.len(),
    ensures
        node_views(nodes@) == nodes_from(
            token_views(tokens@),
            start as int,
            ParserStateView::initial(),
            Seq::empty(),
        ),
{
    let ghost views = token_views(tokens@);
    let mut nodes: Vec<Node> = Vec::new();
    let mut state = ParserState::new();
    let mut pos: usize = start;
    assert(node_views(nodes@) =~= Seq::<NodeView>::empty());
    while pos < tokens.len()
        invariant
            pos <= tokens.len(),
            views == token_views(tokens@),
            nodes_from(views, start as int, ParserStateView::initial(), Seq::empty())
                == nodes_from(views, pos as int, state@, node_views(nodes@)),
        decreases tokens.len() - pos,
    {
        assert(views[pos as int] == (tokens@[pos as int].0@, tokens@[pos as int].1));
        match &tokens[pos].0 {
            MdEvent::Start(tag) => {
                if Parser::is_container_tag(tag) {
                    let (node, next) = read_container(tokens, pos + 1, tag, &mut state);
                    if let Some(node) = node {
                        proof {
                            crate::ast::lemma_node_views_push(nodes@, node);
                        }
                        nodes.push(node);
                    }
                    pos = next;
                } else {
                    pos += 1;
                }
            },
            _ => {
                pos += 1;
            },
        }
    }
    nodes
}

/// Builds the document tree from a stream of tokens.
pub fn parse_events(tokens: &Vec<Token>) -> (nodes: Vec<Node>)
    ensures
        node_views(nodes@) == parsed_nodes(token_views(tokens@)),
{
    read_blocks(tokens, 0)
}

/// A parser over the tokens of one source text.
pub struct Parser {
    tokens: Vec<Token>,
    pos: usize,
}

impl Parser {
    /// The tokens that the parser reads, in order.
    pub closed spec fn tokens(&self) -> Seq<TokenView> {
        token_views(self.tokens@)
    }

    /// The index of the token that the parser reads next.
    pub closed spec fn position(&self) -> int {
        self.pos as int
    }

    #[verifier::type_invariant]
    spec fn well_formed(&self) -> bool {
        self.pos <= self.tokens.len()
    }

    /// Creates a parser over the tokens of a Markdown input string.
    pub fn new(text: &str) -> (parser: Self)
        ensures
            parser.tokens() == markdown_events(text@),
            parser.position() == 0,
    {
        Self { tokens: tokenize(text), pos: 0 }
    }

    /// Creates a parser over `tokens`.
    pub fn from_tokens(tokens: Vec<Token>) -> (parser: Self)
        ensures
            parser.tokens() == token_views(tokens@),
            parser.position() == 0,
    {
        Self { tokens, pos: 0 }
    }

    /// Reads the top-level blocks from the tokens that are left.
    pub fn parse(self) -> (nodes: Vec<Node>)
        ensures
            node_views(nodes@) == nodes_from(
                self.tokens(),
                self.position(),
                ParserStateView::initial(),
                Seq::empty(),
            ),
    {
        proof {
            use_type_invariant(&self);
        }
        read_blocks(&self.tokens, self.pos)
    }

    /// Reads the container that `tag` has just opened from the tokens that
    /// are left, and moves past it.
    pub fn parse_container(&mut self, tag: MdTag, state: &mut ParserState) -> (node: Option<Node>)
        ensures
            ({
                let spec = container_at(old(self).tokens(), old(self).position(), tag@, old(state)@);
                &&& crate::ast::option_node_view(node) == spec.node
                &&& final(self).position() == spec.next
                &&& final(self).tokens() == old(self).tokens()
                &&& final(state)@ == spec.state
            }),
    {
        proof {
            use_type_invariant(&*self);
        }
        let (node, next) = read_container(&self.tokens, self.pos, &tag, state);
        self.pos = next;
        node
    }

    fn is_container_tag(tag: &MdTag) -> (container: bool)
        ensures
            container == is_container_tag(tag@),
    {
        matches!(
            tag,
            MdTag::Paragraph
                | MdTag::Item
                | MdTag::List(..)
                | MdTag::BlockQuote(..)
                | MdTag::CodeBlock(..)
                | MdTag::Heading(..)
        )
    }

    fn is_inline_tag(tag: &MdTag) -> (inline: bool)
        ensures
            inline == is_inline_tag(tag@),
    {
        matches!(tag, MdTag::Emphasis | MdTag::Strong | MdTag::Strikethrough)
    }

    fn tags_match(start: &MdTag, end: &MdTagEnd) -> (matching: bool)
        ensures
            matching == tags_match(start@, *end),
    {
        match start {
            MdTag::Heading(_) => matches!(end, MdTagEnd::Heading),
            MdTag::List(_) => matches!(end, MdTagEnd::List),
            MdTag::Item => matches!(end, MdTagEnd::Item),
            MdTag::BlockQuote(_) => matches!(end, MdTagEnd::BlockQuote),
            MdTag::CodeBlock(_) => matches!(end, MdTagEnd::CodeBlock),
            MdTag::Paragraph => matches!(end, MdTagEnd::Paragraph),
            _ => false,
        }
    }

    fn tag_to_style(tag: &MdTag) -> (style: Option<Style>)
        ensures
            style == tag_style(tag@),
    {
        match tag {
            MdTag::Emphasis => Some(Style::Emphasis),
            MdTag::Strong => Some(Style::Strong),
            MdTag::Strikethrough => Some(Style::Strikethrough),
            _ => None,
        }
    }
}

/// Parses Markdown source text into the document tree.
pub fn from_str(text: &str) -> (nodes: Vec<Node>)
    ensures
        node_views(nodes@) == parsed_nodes(markdown_events(text@)),
{
    let tokens = tokenize(text);
    parse_events(&tokens)
}

} // verus!
