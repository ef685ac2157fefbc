//! The document tree: a closed set of block kinds, each carrying the
//! half-open byte range of the source text it was read from.

use vstd::prelude::*;

use crate::rich_text::{RichText, TextSegment, TextSegmentView};
use crate::text::{decimal, decimal_string, space_string, spaces};

verus! {

#[derive(Clone, Copy, Debug, PartialEq, PartialOrd, Eq, Structural)]
pub enum HeadingLevel {
    H1,
    H2,
    H3,
    H4,
    H5,
    H6,
}

#[derive(Clone, Copy, Debug, PartialEq, Eq, Structural)]
pub enum BlockQuoteKind {
    Note,
    Tip,
    Important,
    Warning,
    Caution,
}

/// Denotes whether a list is ordered or unordered.
#[derive(Clone, Copy, Debug, PartialEq, Eq, Structural)]
pub enum ItemKind {
    /// An ordered list item (e.g., `1. item`), storing the numeric index.
    Ordered(u64),
    /// An unordered list item (e.g., `- item`).
    Unordered,
}

/// Represents the variant of a task item (checked, unchecked, etc.).
#[derive(Clone, Copy, Debug, PartialEq, Eq, Structural)]
pub enum TaskKind {
    /// A checkbox item that is marked as done using `- [x]`.
    Checked,
    /// A checkbox item that is unchecked using `- [ ]`.
    Unchecked,
    /// A checkbox item that is checked, but not explicitly recognized as
    /// `Checked` (e.g., `- [?]`).
    LooselyChecked,
}

pub type SourceRange<Idx> = std::ops::Range<Idx>;

/// `Range::clone` duplicates both bounds through `Idx::clone`; of an
/// arbitrary `Idx` nothing more is known, so nothing is stated.
pub assume_specification<Idx: Clone>[ <std::ops::Range<Idx> as Clone>::clone ](
    range: &std::ops::Range<Idx>,
) -> std::ops::Range<Idx>
;

/// A copy of `range`.
pub fn copy_range(range: &SourceRange<usize>) -> (copy: SourceRange<usize>)
    ensures
        copy == *range,
{
    range.start..range.end
}

/// The Markdown AST node enumeration.
#[allow(inconsistent_fields)]
#[derive(Debug, PartialEq)]
pub enum Node {
    Heading { level: HeadingLevel, text: RichText, source_range: SourceRange<usize> },
    Paragraph { text: RichText, source_range: SourceRange<usize> },
    CodeBlock { lang: Option<String>, text: RichText, source_range: SourceRange<usize> },
    BlockQuote { kind: Option<BlockQuoteKind>, nodes: Vec<Node>, source_range: SourceRange<usize> },
    List { nodes: Vec<Node>, source_range: SourceRange<usize> },
    Item { kind: ItemKind, nodes: Vec<Node>, source_range: SourceRange<usize> },
    Task { kind: TaskKind, nodes: Vec<Node>, source_range: SourceRange<usize> },
}

/// What a [`Node`] holds, with texts as character sequences.
#[allow(inconsistent_fields)]
pub enum NodeView {
    Heading { level: HeadingLevel, text: Seq<TextSegmentView>, source_range: SourceRange<usize> },
    Paragraph { text: Seq<TextSegmentView>, source_range: SourceRange<usize> },
    CodeBlock {
        lang: Option<Seq<char>>,
        text: Seq<TextSegmentView>,
        source_range: SourceRange<usize>,
    },
    BlockQuote {
        kind: Option<BlockQuoteKind>,
        nodes: Seq<NodeView>,
        source_range: SourceRange<usize>,
    },
    List { nodes: Seq<NodeView>, source_range: SourceRange<usize> },
    Item { kind: ItemKind, nodes: Seq<NodeView>, source_range: SourceRange<usize> },
    Task { kind: TaskKind, nodes: Seq<NodeView>, source_range: SourceRange<usize> },
}

/// The view of an optional string.
pub open spec fn option_string_view(s: Option<String>) -> Option<Seq<char>> {
    match s {
        Some(s) => Some(s@),
        None => None,
    }
}

impl View for Node {
    type V = NodeView;

    open spec fn view(&self) -> NodeView
        decreases self,
    {
        match self {
            Node::Heading { level, text, source_range } => NodeView::Heading {
                level: *level,
                text: text@,
                source_range: *source_range,
            },
            Node::Paragraph { text, source_range } => NodeView::Paragraph {
                text: text@,
                source_range: *source_range,
            },
            Node::CodeBlock { lang, text, source_range } => NodeView::CodeBlock {
                lang: option_string_view(*lang),
                text: text@,
                source_range: *source_range,
            },
            Node::BlockQuote { kind, nodes, source_range } => NodeView::BlockQuote {
                kind: *kind,
                nodes: node_views(nodes@),
                source_range: *source_range,
            },
            Node::List { nodes, source_range } => NodeView::List {
                nodes: node_views(nodes@),
                source_range: *source_range,
            },
            Node::Item { kind, nodes, source_range } => NodeView::Item {
                kind: *kind,
                nodes: node_views(nodes@),
                source_range: *source_range,
            },
            Node::Task { kind, nodes, source_range } => NodeView::Task {
                kind: *kind,
                nodes: node_views(nodes@),
                source_range: *source_range,
            },
        }
    }
}

/// The views of a sequence of nodes, in order.
pub open spec fn node_views(nodes: Seq<Node>) -> Seq<NodeView>
    decreases nodes,
{
    if nodes.len() == 0 {
        Seq::empty()
    } else {
        node_views(nodes.drop_last()).push(nodes.last().view())
    }
}

/// `node_views` keeps the length and maps each node to its view.
pub proof fn lemma_node_views(nodes: Seq<Node>)
    ensures
        node_views(nodes).len() == nodes.len(),
        forall|i: int| 0 <= i < nodes.len() ==> (#[trigger] node_views(nodes)[i]) == nodes[i]@,
    decreases nodes.len(),
{
    if nodes.len() > 0 {
        lemma_node_views(nodes.drop_last());
        assert(node_views(nodes) == node_views(nodes.drop_last()).push(nodes.last()@));
    } else {
        assert(node_views(nodes) == Seq::<NodeView>::empty());
    }
}

/// The view of an optional node.
pub open spec fn option_node_view(node: Option<Node>) -> Option<NodeView> {
    match node {
        Some(node) => Some(node@),
        None => None,
    }
}

pub proof fn lemma_node_views_push(nodes: Seq<Node>, node: Node)
    ensures
        node_views(nodes.push(node)) == node_views(nodes).push(node@),
{
    assert(nodes.push(node).drop_last() =~= nodes);
}

pub proof fn lemma_node_views_insert(nodes: Seq<Node>, i: int, node: Node)
    requires
        0 <= i <= nodes.len(),
    ensures
        node_views(nodes.insert(i, node)) == node_views(nodes).insert(i, node@),
{
    lemma_node_views(nodes);
    lemma_node_views(nodes.insert(i, node));
    assert(node_views(nodes.insert(i, node)) =~= node_views(nodes).insert(i, node@));
}

impl NodeView {
    pub open spec fn source_range(self) -> SourceRange<usize> {
        match self {
            NodeView::Heading { source_range, .. } => source_range,
            NodeView::Paragraph { source_range, .. } => source_range,
            NodeView::CodeBlock { source_range, .. } => source_range,
            NodeView::BlockQuote { source_range, .. } => source_range,
            NodeView::List { source_range, .. } => source_range,
            NodeView::Item { source_range, .. } => source_range,
            NodeView::Task { source_range, .. } => source_range,
        }
    }

    /// The same node with its range replaced by `new_range`.
    pub open spec fn with_source_range(self, new_range: SourceRange<usize>) -> NodeView {
        match self {
            NodeView::Heading { level, text, .. } => NodeView::Heading {
                level,
                text,
                source_range: new_range,
            },
            NodeView::Paragraph { text, .. } => NodeView::Paragraph { text, source_range: new_range },
            NodeView::CodeBlock { lang, text, .. } => NodeView::CodeBlock {
                lang,
                text,
                source_range: new_range,
            },
            NodeView::BlockQuote { kind, nodes, .. } => NodeView::BlockQuote {
                kind,
                nodes,
                source_range: new_range,
            },
            NodeView::List { nodes, .. } => NodeView::List { nodes, source_range: new_range },
            NodeView::Item { kind, nodes, .. } => NodeView::Item {
                kind,
                nodes,
                source_range: new_range,
            },
            NodeView::Task { kind, nodes, .. } => NodeView::Task {
                kind,
                nodes,
                source_range: new_range,
            },
        }
    }

    /// The text of a text-bearing node.
    pub open spec fn rich_text(self) -> Option<Seq<TextSegmentView>> {
        match self {
            NodeView::Heading { text, .. } => Some(text),
            NodeView::Paragraph { text, .. } => Some(text),
            NodeView::CodeBlock { text, .. } => Some(text),
            _ => None,
        }
    }
}

impl Node {
    pub fn source_range(&self) -> (range: &SourceRange<usize>)
        ensures
            *range == self@.source_range(),
    {
        match self {
            Self::Heading { source_range, .. }
            | Self::CodeBlock { source_range, .. }
            | Self::Paragraph { source_range, .. }
            | Self::List { source_range, .. }
            | Self::BlockQuote { source_range, .. }
            | Self::Item { source_range, .. }
            | Self::Task { source_range, .. } => source_range,
        }
    }

    pub fn set_source_range(&mut self, new_range: SourceRange<usize>)
        ensures
            final(self)@ == old(self)@.with_source_range(new_range),
    {
        match self {
            Self::Heading { source_range, .. } => *source_range = new_range,
            Self::CodeBlock { source_range, .. } => *source_range = new_range,
            Self::Paragraph { source_range, .. } => *source_range = new_range,
            Self::List { source_range, .. } => *source_range = new_range,
            Self::BlockQuote { source_range, .. } => *source_range = new_range,
            Self::Item { source_range, .. } => *source_range = new_range,
            Self::Task { source_range, .. } => *source_range = new_range,
        }
    }

    pub fn rich_text(&self) -> (text: Option<&RichText>)
        ensures
            match text {
                Some(t) => self@.rich_text() == Some(t@),
                None => self@.rich_text().is_none(),
            },
    {
        match self {
            Self::Heading { text, .. }
            | Self::Paragraph { text, .. }
            | Self::CodeBlock { text, .. } => Some(text),
            _ => None,
        }
    }
}


impl HeadingLevel {
    /// The level's name, as it is written out.
    pub open spec fn name(self) -> Seq<char> {
        match self {
            HeadingLevel::H1 => "H1"@,
            HeadingLevel::H2 => "H2"@,
            HeadingLevel::H3 => "H3"@,
            HeadingLevel::H4 => "H4"@,
            HeadingLevel::H5 => "H5"@,
            HeadingLevel::H6 => "H6"@,
        }
    }

    pub fn as_str(&self) -> (s: &'static str)
        ensures
            s@ == self.name(),
    {
        match self {
            HeadingLevel::H1 => "H1",
            HeadingLevel::H2 => "H2",
            HeadingLevel::H3 => "H3",
            HeadingLevel::H4 => "H4",
            HeadingLevel::H5 => "H5",
            HeadingLevel::H6 => "H6",
        }
    }
}

impl BlockQuoteKind {
    /// The kind's name, as it is written out.
    pub open spec fn name(self) -> Seq<char> {
        match self {
            BlockQuoteKind::Note => "Note"@,
            BlockQuoteKind::Tip => "Tip"@,
            BlockQuoteKind::Important => "Important"@,
            BlockQuoteKind::Warning => "Warning"@,
            BlockQuoteKind::Caution => "Caution"@,
        }
    }

    pub fn as_str(&self) -> (s: &'static str)
        ensures
            s@ == self.name(),
    {
        match self {
            BlockQuoteKind::Note => "Note",
            BlockQuoteKind::Tip => "Tip",
            BlockQuoteKind::Important => "Important",
            BlockQuoteKind::Warning => "Warning",
            BlockQuoteKind::Caution => "Caution",
        }
    }
}

impl TaskKind {
    /// The kind's name, as it is written out.
    pub open spec fn name(self) -> Seq<char> {
        match self {
            TaskKind::Checked => "Checked"@,
            TaskKind::Unchecked => "Unchecked"@,
            TaskKind::LooselyChecked => "LooselyChecked"@,
        }
    }

    pub fn as_str(&self) -> (s: &'static str)
        ensures
            s@ == self.name(),
    {
        match self {
            TaskKind::Checked => "Checked",
            TaskKind::Unchecked => "Unchecked",
            TaskKind::LooselyChecked => "LooselyChecked",
        }
    }
}

/// A range written out as its two bounds with two dots between them.
pub open spec fn range_text(range: SourceRange<usize>) -> Seq<char> {
    decimal(range.start as nat) + ".."@ + decimal(range.end as nat)
}

/// An optional block quote kind written out: `None`, or the kind's name in
/// `Some(..)`.
pub open spec fn quote_kind_text(kind: Option<BlockQuoteKind>) -> Seq<char> {
    match kind {
        Some(kind) => "Some("@ + kind.name() + ")"@,
        None => "None"@,
    }
}

/// An item kind written out: `Unordered`, or the number in `Ordered(..)`.
pub open spec fn item_kind_text(kind: ItemKind) -> Seq<char> {
    match kind {
        ItemKind::Ordered(n) => "Ordered("@ + decimal(n as nat) + ")"@,
        ItemKind::Unordered => "Unordered"@,
    }
}

/// The indentation of what is nested in something indented by `indent`.
pub open spec fn nested_indent(indent: nat) -> nat {
    if indent + 2 <= usize::MAX {
        indent + 2
    } else {
        usize::MAX as nat
    }
}

/// One segment as an s-expression: its text in quotes, wrapped in a form
/// named after its style if it has one.
pub open spec fn segment_sexp(segment: TextSegmentView, indent: nat) -> Seq<char> {
    match segment.style {
        Some(style) => spaces(indent) + "("@ + style.name() + " \""@ + segment.content + "\")"@,
        None => spaces(indent) + "\""@ + segment.content + "\""@,
    }
}

/// The segments of a rich text as s-expressions, one per line.
pub open spec fn rich_text_sexp(text: Seq<TextSegmentView>, indent: nat) -> Seq<char>
    decreases text.len(),
{
    if text.len() == 0 {
        Seq::empty()
    } else if text.len() == 1 {
        segment_sexp(text[0], indent)
    } else {
        rich_text_sexp(text.drop_last(), indent) + "\n"@ + segment_sexp(text.last(), indent)
    }
}

/// The head of a node's s-expression: the indentation, the opening bracket,
/// the node's kind with its attribute, and the range after an `@`.
pub open spec fn node_sexp_head(node: NodeView, indent: nat) -> Seq<char> {
    match node {
        NodeView::Heading { level, source_range, .. } => spaces(indent) + "(heading "@
            + level.name() + " @"@ + range_text(source_range),
        NodeView::Paragraph { source_range, .. } => spaces(indent) + "(paragraph @"@ + range_text(
            source_range,
        ),
        NodeView::CodeBlock { lang, source_range, .. } => spaces(indent) + "(codeblock "@ + (match lang {
            Some(lang) => lang,
            None => Seq::empty(),
        }) + " @"@ + range_text(source_range),
        NodeView::BlockQuote { kind, source_range, .. } => spaces(indent) + "(blockquote "@
            + quote_kind_text(kind) + " @"@ + range_text(source_range),
        NodeView::List { source_range, .. } => spaces(indent) + "(list @"@ + range_text(
            source_range,
        ),
        NodeView::Item { kind, source_range, .. } => spaces(indent) + "(item "@ + item_kind_text(
            kind,
        ) + " @"@ + range_text(source_range),
        NodeView::Task { kind, source_range, .. } => spaces(indent) + "(task "@ + kind.name()
            + " @"@ + range_text(source_range),
    }
}

/// A node as an s-expression: its head, then on the following lines its text
/// or its children, indented by two more columns, then the closing bracket.
pub open spec fn node_sexp(node: NodeView, indent: nat) -> Seq<char>
    decreases node,
{
    node_sexp_head(node, indent) + "\n"@ + (match node {
        NodeView::Heading { text, .. } => rich_text_sexp(text, nested_indent(indent)),
        NodeView::Paragraph { text, .. } => rich_text_sexp(text, nested_indent(indent)),
        NodeView::CodeBlock { text, .. } => rich_text_sexp(text, nested_indent(indent)),
        NodeView::BlockQuote { nodes, .. } => nodes_sexp(nodes, nested_indent(indent)),
        NodeView::List { nodes, .. } => nodes_sexp(nodes, nested_indent(indent)),
        NodeView::Item { nodes, .. } => nodes_sexp(nodes, nested_indent(indent)),
        NodeView::Task { nodes, .. } => nodes_sexp(nodes, nested_indent(indent)),
    }) + ")"@
}

/// Nodes as s-expressions, one after the other on lines of their own.
pub open spec fn nodes_sexp(nodes: Seq<NodeView>, indent: nat) -> Seq<char>
    decreases nodes,
{
    if nodes.len() == 0 {
        Seq::empty()
    } else if nodes.len() == 1 {
        node_sexp(nodes[0], indent)
    } else {
        nodes_sexp(nodes.drop_last(), indent) + "\n"@ + node_sexp(nodes.last(), indent)
    }
}

fn range_to_string(range: &SourceRange<usize>) -> (s: String)
    ensures
        s@ == range_text(*range),
{
    let mut s = decimal_string(range.start as u64);
    s.push_str("..");
    s.push_str(decimal_string(range.end as u64).as_str());
    s
}

fn segment_to_sexp(segment: &TextSegment, indent_level: usize) -> (s: String)
    ensures
        s@ == segment_sexp(segment@, indent_level as nat),
{
    let mut s = space_string(indent_level);
    match &segment.style {
        Some(style) => {
            s.push_str("(");
            s.push_str(style.to_string().as_str());
            s.push_str(" \"");
            s.push_str(segment.content.as_str());
            s.push_str("\")");
        },
        None => {
            s.push_str("\"");
            s.push_str(segment.content.as_str());
            s.push_str("\"");
        },
    }
    s
}

pub fn rich_text_to_sexp(rich_text: &RichText, indent_level: usize) -> (s: String)
    ensures
        s@ == rich_text_sexp(rich_text@, indent_level as nat),
{
    let segments = rich_text.segments();
    let mut s = String::new();
    let mut i: usize = 0;
    while i < segments.len()
        invariant
            i <= segments.len(),
            segments@ == rich_text.items(),
            s@ == rich_text_sexp(rich_text@.take(i as int), indent_level as nat),
        decreases segments.len() - i,
    {
        proof {
            assert(rich_text@.take(i + 1).drop_last() =~= rich_text@.take(i as int));
            assert(rich_text@.take(i + 1).last() == segments@[i as int]@);
        }
        if i > 0 {
            s.push_str("\n");
        }
        s.push_str(segment_to_sexp(&segments[i], indent_level).as_str());
        i += 1;
    }
    proof {
        assert(rich_text@.take(i as int) =~= rich_text@);
    }
    s
}

pub fn nodes_to_sexp(nodes: &[Node], indent_level: usize) -> (s: String)
    ensures
        s@ == nodes_sexp(node_views(nodes@), indent_level as nat),
    decreases nodes@,
{
    let ghost views = node_views(nodes@);
    proof {
        lemma_node_views(nodes@);
    }
    let mut s = String::new();
    let mut i: usize = 0;
    while i < nodes.len()
        invariant
            i <= nodes.len(),
            views == node_views(nodes@),
            views.len() == nodes@.len(),
            forall|j: int| 0 <= j < nodes@.len() ==> (#[trigger] views[j]) == nodes@[j]@,
            s@ == nodes_sexp(views.take(i as int), indent_level as nat),
        decreases nodes.len() - i,
    {
        proof {
            assert(views.take(i + 1).drop_last() =~= views.take(i as int));
            assert(views.take(i + 1).last() == views[i as int]);
        }
        if i > 0 {
            s.push_str("\n");
        }
        s.push_str(node_to_sexp(&nodes[i], indent_level).as_str());
        i += 1;
    }
    proof {
        assert(views.take(i as int) =~= views);
    }
    s
}

pub fn node_to_sexp(node: &Node, indent_level: usize) -> (s: String)
    ensures
        s@ == node_sexp(node@, indent_level as nat),
    decreases node,
{
    let nested = if indent_level <= usize::MAX - 2 {
        indent_level + 2
    } else {
        usize::MAX
    };
    let mut s = space_string(indent_level);
    match node {
        Node::Heading { level, text, source_range } => {
            s.push_str("(heading ");
            s.push_str(level.as_str());
            s.push_str(" @");
            s.push_str(range_to_string(source_range).as_str());
            s.push_str("\n");
            s.push_str(rich_text_to_sexp(text, nested).as_str());
        },
        Node::Paragraph { text, source_range } => {
            s.push_str("(paragraph @");
            s.push_str(range_to_string(source_range).as_str());
            s.push_str("\n");
            s.push_str(rich_text_to_sexp(text, nested).as_str());
        },
        Node::BlockQuote { kind, nodes, source_range } => {
            s.push_str("(blockquote ");
            match kind {
                Some(kind) => {
                    s.push_str("Some(");
                    s.push_str(kind.as_str());
                    s.push_str(")");
                },
                None => {
                    s.push_str("None");
                },
            }
            s.push_str(" @");
            s.push_str(range_to_string(source_range).as_str());
            s.push_str("\n");
            s.push_str(nodes_to_sexp(nodes.as_slice(), nested).as_str());
        },
        Node::CodeBlock { lang, text, source_range } => {
            s.push_str("(codeblock ");
            match lang {
                Some(lang) => {
                    s.push_str(lang.as_str());
                },
                None => {},
            }
            s.push_str(" @");
            s.push_str(range_to_string(source_range).as_str());
            s.push_str("\n");
            s.push_str(rich_text_to_sexp(text, nested).as_str());
        },
        Node::List { nodes, source_range } => {
            s.push_str("(list @");
            s.push_str(range_to_string(source_range).as_str());
            s.push_str("\n");
            s.push_str(nodes_to_sexp(nodes.as_slice(), nested).as_str());
        },
        Node::Item { kind, nodes, source_range } => {
            s.push_str("(item ");
            match kind {
                ItemKind::Ordered(n) => {
                    s.push_str("Ordered(");
                    s.push_str(decimal_string(*n).as_str());
                    s.push_str(")");
                },
                ItemKind::Unordered => {
                    s.push_str("Unordered");
                },
            }
            s.push_str(" @");
            s.push_str(range_to_string(source_range).as_str());
            s.push_str("\n");
            s.push_str(nodes_to_sexp(nodes.as_slice(), nested).as_str());
        },
        Node::Task { kind, nodes, source_range } => {
            s.push_str("(task ");
            s.push_str(kind.as_str());
            s.push_str(" @");
            s.push_str(range_to_string(source_range).as_str());
            s.push_str("\n");
            s.push_str(nodes_to_sexp(nodes.as_slice(), nested).as_str());
        },
    }
    s.push_str(")");
    proof {
        assert(s@ =~= node_sexp(node@, indent_level as nat));
    }
    s
}


/// `value` moved by `shift`, as far as a `usize` reaches.
pub open spec fn shift_value(value: usize, shift: isize) -> usize {
    if value + shift < 0 {
        0
    } else if value + shift > usize::MAX {
        usize::MAX
    } else {
        (value + shift) as usize
    }
}

/// The range of a node after an edit of `shift` bytes at byte offset
/// `offset`: a range that ends after the offset has its end moved, and its
/// start too if it starts after the offset; any other range stays.
pub open spec fn shifted_range(
    range: SourceRange<usize>,
    offset: usize,
    shift: isize,
) -> SourceRange<usize> {
    if range.end > offset {
        SourceRange {
            start: if range.start > offset {
                shift_value(range.start, shift)
            } else {
                range.start
            },
            end: shift_value(range.end, shift),
        }
    } else {
        range
    }
}

impl NodeView {
    /// The nodes nested in the node; a node of text has none.
    pub open spec fn children(self) -> Seq<NodeView> {
        match self {
            NodeView::BlockQuote { nodes, .. } => nodes,
            NodeView::List { nodes, .. } => nodes,
            NodeView::Item { nodes, .. } => nodes,
            NodeView::Task { nodes, .. } => nodes,
            _ => Seq::empty(),
        }
    }

    /// The node after an edit of `shift` bytes at byte offset `offset`: its
    /// range is shifted, and so is the range of every node nested in it, at
    /// any depth. Nothing else changes.
    pub open spec fn shifted(self, offset: usize, shift: isize) -> NodeView
        decreases self,
    {
        let range = shifted_range(self.source_range(), offset, shift);
        match self {
            NodeView::Heading { level, text, .. } => NodeView::Heading {
                level,
                text,
                source_range: range,
            },
            NodeView::Paragraph { text, .. } => NodeView::Paragraph { text, source_range: range },
            NodeView::CodeBlock { lang, text, .. } => NodeView::CodeBlock {
                lang,
                text,
                source_range: range,
            },
            NodeView::BlockQuote { kind, nodes, .. } => NodeView::BlockQuote {
                kind,
                nodes: shifted_nodes(nodes, offset, shift),
                source_range: range,
            },
            NodeView::List { nodes, .. } => NodeView::List {
                nodes: shifted_nodes(nodes, offset, shift),
                source_range: range,
            },
            NodeView::Item { kind, nodes, .. } => NodeView::Item {
                kind,
                nodes: shifted_nodes(nodes, offset, shift),
                source_range: range,
            },
            NodeView::Task { kind, nodes, .. } => NodeView::Task {
                kind,
                nodes: shifted_nodes(nodes, offset, shift),
                source_range: range,
            },
        }
    }

    /// The node that is reached from this one by going, for each index of
    /// `path` in turn, to the nested node with that index.
    pub open spec fn descendant(self, path: Seq<int>) -> Option<NodeView>
        decreases path.len(),
    {
        if path.len() == 0 {
            Some(self)
        } else if 0 <= path[0] < self.children().len() {
            self.children()[path[0]].descendant(path.drop_first())
        } else {
            None
        }
    }
}

/// Every node of `nodes` after an edit of `shift` bytes at byte offset
/// `offset`.
pub open spec fn shifted_nodes(nodes: Seq<NodeView>, offset: usize, shift: isize) -> Seq<NodeView>
    decreases nodes,
{
    if nodes.len() == 0 {
        Seq::empty()
    } else {
        shifted_nodes(nodes.drop_last(), offset, shift).push(nodes.last().shifted(offset, shift))
    }
}

/// `shifted_nodes` keeps the number of nodes and shifts each of them.
pub proof fn lemma_shifted_nodes(nodes: Seq<NodeView>, offset: usize, shift: isize)
    ensures
        shifted_nodes(nodes, offset, shift).len() == nodes.len(),
        forall|i: int|
            0 <= i < nodes.len() ==> (#[trigger] shifted_nodes(nodes, offset, shift)[i])
                == nodes[i].shifted(offset, shift),
    decreases nodes.len(),
{
    if nodes.len() > 0 {
        lemma_shifted_nodes(nodes.drop_last(), offset, shift);
    }
}

/// A shifted node has the shifted range, and the nodes nested in it are
/// those of the node, shifted.
pub proof fn lemma_shifted_node(node: NodeView, offset: usize, shift: isize)
    ensures
        node.shifted(offset, shift).source_range() == shifted_range(
            node.source_range(),
            offset,
            shift,
        ),
        node.shifted(offset, shift).children() == shifted_nodes(node.children(), offset, shift),
        node.shifted(offset, shift).rich_text() == node.rich_text(),
{
    assert(shifted_nodes(Seq::<NodeView>::empty(), offset, shift) =~= Seq::<NodeView>::empty());
}

/// The shift reaches every node of the tree: the node at the end of any path
/// into a shifted node is the node at the end of that path, shifted.
pub proof fn lemma_shift_reaches_every_node(
    node: NodeView,
    path: Seq<int>,
    offset: usize,
    shift: isize,
)
    ensures
        node.shifted(offset, shift).descendant(path) == match node.descendant(path) {
            Some(nested) => Some(nested.shifted(offset, shift)),
            None => None,
        },
    decreases path.len(),
{
    lemma_shifted_node(node, offset, shift);
    lemma_shifted_nodes(node.children(), offset, shift);
    if path.len() > 0 && 0 <= path[0] < node.children().len() {
        lemma_shift_reaches_every_node(
            node.children()[path[0]],
            path.drop_first(),
            offset,
            shift,
        );
    }
}

/// After an insertion of one byte at byte offset `offset`, a range that ends
/// after the offset ends one byte later, and starts one byte later if it
/// starts after the offset. A range that ends at or before the offset stays.
/// A bound at the greatest `usize` stays there.
pub proof fn lemma_insert_shifts_range(range: SourceRange<usize>, offset: usize)
    ensures
        range.end <= offset ==> shifted_range(range, offset, 1) == range,
        range.end > offset ==> shifted_range(range, offset, 1).end == if range.end < usize::MAX {
            range.end + 1
        } else {
            usize::MAX as int
        },
        range.end > offset ==> shifted_range(range, offset, 1).start == if range.start <= offset {
            range.start as int
        } else if range.start < usize::MAX {
            range.start + 1
        } else {
            usize::MAX as int
        },
        range.start <= range.end ==> shifted_range(range, offset, 1).start <= shifted_range(
            range,
            offset,
            1,
        ).end,
{
}

/// After a deletion of one byte before byte offset `offset`, a range that
/// ends after the offset ends one byte earlier, and starts one byte earlier
/// if it starts after the offset; a range that holds the offset keeps its
/// start. A range that ends at or before the offset stays. No bound goes
/// below zero, and a range that is in order stays in order.
pub proof fn lemma_delete_shifts_range(range: SourceRange<usize>, offset: usize)
    ensures
        range.end <= offset ==> shifted_range(range, offset, -1isize) == range,
        range.end > offset ==> shifted_range(range, offset, -1isize).end == range.end - 1,
        range.end > offset ==> shifted_range(range, offset, -1isize).start == if range.start
            <= offset {
            range.start as int
        } else {
            range.start - 1
        },
        range.start <= range.end ==> shifted_range(range, offset, -1isize).start <= shifted_range(
            range,
            offset,
            -1isize,
        ).end,
{
}

fn shift_by(value: usize, shift: isize) -> (shifted: usize)
    ensures
        shifted == shift_value(value, shift),
{
    if shift >= 0 {
        value.saturating_add(shift as usize)
    } else {
        let amount = (-(shift + 1)) as usize;
        if value > amount {
            value - amount - 1
        } else {
            0
        }
    }
}

fn shift_range(range: &SourceRange<usize>, offset: usize, shift: isize) -> (shifted: SourceRange<
    usize,
>)
    ensures
        shifted == shifted_range(*range, offset, shift),
{
    if range.end > offset {
        (if range.start > offset {
            shift_by(range.start, shift)
        } else {
            range.start
        })..shift_by(range.end, shift)
    } else {
        range.start..range.end
    }
}

/// Shifts the range of a node, and of every node nested in it, after an edit
/// of `shift` bytes at byte offset `offset`.
pub fn shift_node(node: Node, offset: usize, shift: isize) -> (shifted: Node)
    ensures
        shifted@ == node@.shifted(offset, shift),
    decreases node,
{
    match node {
        Node::Heading { level, text, source_range } => Node::Heading {
            level,
            text,
            source_range: shift_range(&source_range, offset, shift),
        },
        Node::Paragraph { text, source_range } => Node::Paragraph {
            text,
            source_range: shift_range(&source_range, offset, shift),
        },
        Node::CodeBlock { lang, text, source_range } => Node::CodeBlock {
            lang,
            text,
            source_range: shift_range(&source_range, offset, shift),
        },
        Node::BlockQuote { kind, nodes, source_range } => Node::BlockQuote {
            kind,
            nodes: shift_nodes(nodes, offset, shift),
            source_range: shift_range(&source_range, offset, shift),
        },
        Node::List { nodes, source_range } => Node::List {
            nodes: shift_nodes(nodes, offset, shift),
            source_range: shift_range(&source_range, offset, shift),
        },
        Node::Item { kind, nodes, source_range } => Node::Item {
            kind,
            nodes: shift_nodes(nodes, offset, shift),
            source_range: shift_range(&source_range, offset, shift),
        },
        Node::Task { kind, nodes, source_range } => Node::Task {
            kind,
            nodes: shift_nodes(nodes, offset, shift),
            source_range: shift_range(&source_range, offset, shift),
        },
    }
}

/// Shifts the ranges of `nodes`, and of every node nested in them, after an
/// edit of `shift` bytes at byte offset `offset`.
pub fn shift_nodes(nodes: Vec<Node>, offset: usize, shift: isize) -> (shifted: Vec<Node>)
    ensures
        node_views(shifted@) == shifted_nodes(node_views(nodes@), offset, shift),
    decreases nodes@,
{
    let ghost original = nodes@;
    let ghost count = nodes@.len();
    let mut rest = nodes;
    // The nodes are taken from the end, so they come out in reverse order.
    let mut reversed: Vec<Node> = Vec::new();
    while rest.len() > 0
        invariant
            rest@.len() + reversed@.len() == count,
            count == original.len(),
            original == nodes@,
            rest@ == original.take(rest@.len() as int),
            forall|j: int|
                0 <= j < reversed@.len() ==> (#[trigger] reversed@[j])@ == original[count - 1
                    - j]@.shifted(offset, shift),
        decreases rest.len(),
    {
        let ghost index = rest@.len() - 1;
        assert(rest@[index] == original[index]);
        let node = rest.pop().unwrap();
        assert(node == nodes@[index]);
        reversed.push(shift_node(node, offset, shift));
        assert(rest@ =~= original.take(index));
    }
    let mut shifted: Vec<Node> = Vec::new();
    while reversed.len() > 0
        invariant
            shifted@.len() + reversed@.len() == count,
            count == original.len(),
            forall|j: int|
                0 <= j < reversed@.len() ==> (#[trigger] reversed@[j])@ == original[count - 1
                    - j]@.shifted(offset, shift),
            forall|j: int|
                0 <= j < shifted@.len() ==> (#[trigger] shifted@[j])@ == original[j]@.shifted(
                    offset,
                    shift,
                ),
        decreases reversed.len(),
    {
        let node = reversed.pop().unwrap();
        shifted.push(node);
    }
    proof {
        lemma_node_views(original);
        lemma_node_views(shifted@);
        lemma_shifted_nodes(node_views(original), offset, shift);
        assert(node_views(shifted@) =~= shifted_nodes(node_views(original), offset, shift));
    }
    shifted
}

} // verus!
