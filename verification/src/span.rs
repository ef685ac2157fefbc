//! Styled text for the terminal: a piece of text with the colours and
//! modifiers it is painted with.

use vstd::prelude::*;

verus! {

/// The colours of the terminal's palette.
#[derive(Clone, Copy, Debug, PartialEq, Eq, Structural)]
pub enum Color {
    Reset,
    Black,
    Red,
    Green,
    Yellow,
    Blue,
    Magenta,
    Cyan,
    Gray,
    DarkGray,
    LightRed,
    LightGreen,
    LightYellow,
    LightBlue,
    LightMagenta,
    LightCyan,
    White,
}

/// How a piece of text is painted: its colours, where they are set, and
/// the modifiers that are switched on.
#[derive(Clone, Copy, Debug, PartialEq, Eq, Structural)]
pub struct SpanStyle {
    pub fg: Option<Color>,
    pub bg: Option<Color>,
    pub bold: bool,
    pub crossed_out: bool,
}

impl SpanStyle {
    /// The style that sets nothing.
    pub open spec fn plain() -> SpanStyle {
        SpanStyle { fg: None, bg: None, bold: false, crossed_out: false }
    }

    /// This style with what `other` sets laid over it: a colour of `other`
    /// replaces the colour here, and a modifier is on if it is on in either.
    pub open spec fn patched(self, other: SpanStyle) -> SpanStyle {
        SpanStyle {
            fg: if other.fg.is_some() {
                other.fg
            } else {
                self.fg
            },
            bg: if other.bg.is_some() {
                other.bg
            } else {
                self.bg
            },
            bold: self.bold || other.bold,
            crossed_out: self.crossed_out || other.crossed_out,
        }
    }

    pub fn new() -> (style: Self)
        ensures
            style == Self::plain(),
    {
        SpanStyle { fg: None, bg: None, bold: false, crossed_out: false }
    }

    pub fn fg(self, color: Color) -> (style: Self)
        ensures
            style == (SpanStyle { fg: Some(color), ..self }),
    {
        SpanStyle { fg: Some(color), bg: self.bg, bold: self.bold, crossed_out: self.crossed_out }
    }

    pub fn bg(self, color: Color) -> (style: Self)
        ensures
            style == (SpanStyle { bg: Some(color), ..self }),
    {
        SpanStyle { fg: self.fg, bg: Some(color), bold: self.bold, crossed_out: self.crossed_out }
    }

    pub fn bold(self) -> (style: Self)
        ensures
            style == (SpanStyle { bold: true, ..self }),
    {
        SpanStyle { fg: self.fg, bg: self.bg, bold: true, crossed_out: self.crossed_out }
    }

    pub fn crossed_out(self) -> (style: Self)
        ensures
            style == (SpanStyle { crossed_out: true, ..self }),
    {
        SpanStyle { fg: self.fg, bg: self.bg, bold: self.bold, crossed_out: true }
    }

    pub fn patch(self, other: SpanStyle) -> (style: Self)
        ensures
            style == self.patched(other),
    {
        SpanStyle {
            fg: if other.fg.is_some() {
                other.fg
            } else {
                self.fg
            },
            bg: if other.bg.is_some() {
                other.bg
            } else {
                self.bg
            },
            bold: self.bold || other.bold,
            crossed_out: self.crossed_out || other.crossed_out,
        }
    }
}

impl Default for SpanStyle {
    fn default() -> (style: Self)
        ensures
            style == Self::plain(),
    {
        Self::new()
    }
}

/// A piece of text with one style.
#[derive(Clone, Debug, PartialEq)]
pub struct Span {
    pub content: String,
    pub style: SpanStyle,
}

pub struct SpanView {
    pub content: Seq<char>,
    pub style: SpanStyle,
}

impl View for Span {
    type V = SpanView;

    open spec fn view(&self) -> SpanView {
        SpanView { content: self.content@, style: self.style }
    }
}

impl SpanView {
    /// A span without a style.
    pub open spec fn raw(content: Seq<char>) -> SpanView {
        SpanView { content, style: SpanStyle::plain() }
    }

    /// The empty span without a style.
    pub open spec fn empty() -> SpanView {
        SpanView::raw(Seq::empty())
    }

    /// The columns that the span takes on a terminal.
    pub open spec fn width(self) -> nat {
        span_columns(self.content)
    }

    /// The span followed by `other`, as one span, in this span's style with
    /// the style of `other` laid over it.
    pub open spec fn merged(self, other: SpanView) -> SpanView {
        SpanView { content: self.content + other.content, style: self.style.patched(other.style) }
    }
}

/// The number of terminal columns that `ratatui` measures for a span with
/// the given content.
pub uninterp spec fn span_columns(content: Seq<char>) -> nat;

/// `ratatui::text::Span::width` gives the unicode width of the span's
/// content, whatever its style. The width depends on the content alone.
#[verifier::external_body]
fn span_width(content: &str) -> (width: usize)
    ensures
        width == span_columns(content@),
{
    ratatui::text::Span::raw(content).width()
}

impl Span {
    pub fn raw(content: &str) -> (span: Self)
        ensures
            span@ == SpanView::raw(content@),
    {
        Span { content: content.to_owned(), style: SpanStyle::new() }
    }

    pub fn styled(content: &str, style: SpanStyle) -> (span: Self)
        ensures
            span@ == (SpanView { content: content@, style }),
    {
        Span { content: content.to_owned(), style }
    }

    /// The span that takes `content` over as it is.
    pub fn from_string(content: String, style: SpanStyle) -> (span: Self)
        ensures
            span@ == (SpanView { content: content@, style }),
    {
        Span { content, style }
    }

    /// The empty span without a style.
    pub fn empty() -> (span: Self)
        ensures
            span@ == SpanView::empty(),
    {
        Span { content: String::new(), style: SpanStyle::new() }
    }

    /// The columns that the span takes on a terminal.
    pub fn width(&self) -> (width: usize)
        ensures
            width == self@.width(),
    {
        span_width(self.content.as_str())
    }

    /// The span followed by `other`, as one span.
    pub fn merge(&self, other: &Span) -> (span: Self)
        ensures
            span@ == self@.merged(other@),
    {
        let mut content = self.content.clone();
        content.push_str(other.content.as_str());
        Span { content, style: self.style.patch(other.style) }
    }

    /// A copy of the span.
    pub fn duplicate(&self) -> (span: Self)
        ensures
            span@ == self@,
    {
        Span { content: self.content.clone(), style: self.style }
    }
}

} // verus!
