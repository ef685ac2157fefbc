//! Rich text: an ordered sequence of styled text fragments, the leaf content
//! of the text-bearing nodes of the document tree.

use vstd::prelude::*;
use vstd::std_specs::iter::IteratorSpec;

use crate::text::to_chars;

verus! {

/// A style that can be applied to a [`TextSegment`].
#[derive(Clone, Copy, Debug, PartialEq, Eq, Structural)]
pub enum Style {
    Code,
    Emphasis,
    Strong,
    Strikethrough,
}

impl Style {
    /// The name under which the style is written out.
    pub open spec fn name(self) -> Seq<char> {
        match self {
            Style::Code => "Code"@,
            Style::Emphasis => "Emphasis"@,
            Style::Strong => "Strong"@,
            Style::Strikethrough => "Strikethrough"@,
        }
    }

    pub fn to_string(&self) -> (s: String)
        ensures
            s@ == self.name(),
    {
        match self {
            Style::Code => "Code".to_owned(),
            Style::Emphasis => "Emphasis".to_owned(),
            Style::Strong => "Strong".to_owned(),
            Style::Strikethrough => "Strikethrough".to_owned(),
        }
    }
}

/// A run of text with at most one style.
#[derive(Clone, Debug, Default, PartialEq)]
pub struct TextSegment {
    pub content: String,
    pub style: Option<Style>,
}

/// What a [`TextSegment`] holds: its characters and its style.
pub struct TextSegmentView {
    pub content: Seq<char>,
    pub style: Option<Style>,
}

impl View for TextSegment {
    type V = TextSegmentView;

    open spec fn view(&self) -> TextSegmentView {
        TextSegmentView { content: self.content@, style: self.style }
    }
}

/// The text with every tab replaced by two spaces.
pub open spec fn without_tabs(text: Seq<char>) -> Seq<char>
    decreases text.len(),
{
    if text.len() == 0 {
        Seq::empty()
    } else if text.last() == '\t' {
        without_tabs(text.drop_last()) + seq![' ', ' ']
    } else {
        without_tabs(text.drop_last()).push(text.last())
    }
}

impl TextSegment {
    /// The plain segment of `content`, with tabs replaced by spaces: a tab
    /// would break the rows that the text is laid out in.
    pub fn from_text(content: &str) -> (segment: Self)
        ensures
            segment@ == (TextSegmentView { content: without_tabs(content@), style: None }),
    {
        let chars = to_chars(content);
        let mut replaced = String::new();
        let mut i: usize = 0;
        assert(chars@.take(0) =~= Seq::<char>::empty());
        while i < chars.len()
            invariant
                i <= chars.len(),
                replaced@ == without_tabs(chars@.take(i as int)),
            decreases chars.len() - i,
        {
            proof {
                assert(chars@.take(i + 1).drop_last() =~= chars@.take(i as int));
            }
            if chars[i] == '\t' {
                replaced.push(' ');
                replaced.push(' ');
                assert(replaced@ =~= without_tabs(chars@.take(i as int)) + seq![' ', ' ']);
            } else {
                replaced.push(chars[i]);
            }
            i += 1;
        }
        proof {
            assert(chars@.take(i as int) =~= chars@);
        }
        Self { content: replaced, style: None }
    }

    pub fn new(content: &str, style: Option<Style>) -> (segment: Self)
        ensures
            segment@ == (TextSegmentView { content: content@, style }),
    {
        Self { content: content.to_owned(), style }
    }

    pub fn add_style(&mut self, style: &Style)
        ensures
            final(self)@ == (TextSegmentView { content: old(self)@.content, style: Some(*style) }),
    {
        self.style = Some(*style);
    }

    pub fn plain(content: &str) -> (segment: Self)
        ensures
            segment@ == (TextSegmentView { content: content@, style: None }),
    {
        Self { content: content.to_owned(), style: None }
    }

    pub fn styled(content: &str, style: Style) -> (segment: Self)
        ensures
            segment@ == (TextSegmentView { content: content@, style: Some(style) }),
    {
        Self { content: content.to_owned(), style: Some(style) }
    }

    /// The segment that stands for a line break inside a block.
    pub fn empty_line() -> (segment: Self)
        ensures
            segment@ == (TextSegmentView { content: seq!['\n'], style: None }),
    {
        let mut content = String::new();
        content.push('\n');
        Self { content, style: None }
    }

    /// The segment's text, without its style.
    pub fn to_string(&self) -> (s: String)
        ensures
            s@ == self@.content,
    {
        self.content.clone()
    }

    /// A copy of the segment.
    pub fn duplicate(&self) -> (segment: Self)
        ensures
            segment@ == self@,
    {
        Self { content: self.content.clone(), style: self.style }
    }
}

/// The views of a sequence of segments, in order.
pub open spec fn segment_views(segments: Seq<TextSegment>) -> Seq<TextSegmentView> {
    Seq::new(segments.len(), |i: int| segments[i]@)
}

pub proof fn lemma_segment_views_push(segments: Seq<TextSegment>, segment: TextSegment)
    ensures
        segment_views(segments.push(segment)) == segment_views(segments).push(segment@),
{
    assert(segment_views(segments.push(segment)) =~= segment_views(segments).push(segment@));
}

/// The characters of all segments, concatenated in order.
pub open spec fn plain_text(segments: Seq<TextSegmentView>) -> Seq<char>
    decreases segments.len(),
{
    if segments.len() == 0 {
        Seq::empty()
    } else {
        plain_text(segments.drop_last()) + segments.last().content
    }
}

/// An ordered sequence of text segments.
#[derive(Clone, Debug, Default, PartialEq)]
pub struct RichText {
    segments: Vec<TextSegment>,
}

impl View for RichText {
    type V = Seq<TextSegmentView>;

    open spec fn view(&self) -> Seq<TextSegmentView> {
        segment_views(self.items())
    }
}

impl RichText {
    /// The segments themselves, in order.
    pub closed spec fn items(&self) -> Seq<TextSegment> {
        self.segments@
    }

    pub fn empty() -> (text: Self)
        ensures
            text@ == Seq::<TextSegmentView>::empty(),
    {
        Self { segments: Vec::new() }
    }

    pub fn iter(&self) -> (it: std::slice::Iter<'_, TextSegment>)
        ensures
            it.remaining() == self.items().as_ref(),
    {
        self.segments.iter()
    }

    pub fn is_empty(&self) -> (empty: bool)
        ensures
            empty == (self@.len() == 0),
    {
        self.segments.is_empty()
    }

    pub fn push_text_segment(&mut self, text_segment: TextSegment)
        ensures
            final(self)@ == old(self)@.push(text_segment@),
    {
        self.segments.push(text_segment);
    }

    pub fn segments(&self) -> (segments: &[TextSegment])
        ensures
            segments@ == self.items(),
    {
        self.segments.as_slice()
    }

    /// The rich text made of `segments`.
    pub fn from_segments(segments: Vec<TextSegment>) -> (text: Self)
        ensures
            text@ == segment_views(segments@),
    {
        Self { segments }
    }

    /// The text of all segments, concatenated, without the styles.
    pub fn to_string(&self) -> (s: String)
        ensures
            s@ == plain_text(self@),
    {
        let mut s = String::new();
        let mut i: usize = 0;
        while i < self.segments.len()
            invariant
                i <= self.segments.len(),
                s@ == plain_text(self@.take(i as int)),
            decreases self.segments.len() - i,
        {
            proof {
                assert(self@.take(i + 1).drop_last() == self@.take(i as int));
            }
            s.push_str(self.segments[i].content.as_str());
            i += 1;
        }
        proof {
            assert(self@.take(i as int) == self@);
        }
        s
    }

    /// A copy of the rich text.
    pub fn duplicate(&self) -> (text: Self)
        ensures
            text@ == self@,
    {
        let mut segments: Vec<TextSegment> = Vec::new();
        let mut i: usize = 0;
        while i < self.segments.len()
            invariant
                i <= self.segments.len(),
                segments@.len() == i,
                forall|j: int| 0 <= j < i ==> (#[trigger] segments@[j])@ == self.segments@[j]@,
            decreases self.segments.len() - i,
        {
            segments.push(self.segments[i].duplicate());
            i += 1;
        }
        assert(segment_views(segments@) =~= self@);
        Self { segments }
    }
}

} // verus!
