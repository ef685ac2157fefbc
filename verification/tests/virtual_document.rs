use basalt::span::{Color, Span, SpanStyle};
use basalt::virtual_document::{VirtualBlock, VirtualDocument, VirtualLine, VirtualSpan};
use basalt::rich_text::{RichText, Style, TextSegment};

fn text(content: &str, range: std::ops::Range<usize>) -> VirtualSpan {
    VirtualSpan::content(Span::raw(content), &range)
}

fn ornament(content: &str) -> VirtualSpan {
    VirtualSpan::synthetic(Span::raw(content))
}

#[test]
fn spans_of_text_and_of_decoration() {
    let span = text("日本", 4..10);
    assert!(!span.is_synthetic());
    assert_eq!(span.source_range(), Some(&(4..10)));
    assert_eq!(span.width(), 4);
    assert!(span.contains_offset(4));
    assert!(span.contains_offset(9));
    assert!(!span.contains_offset(10));
    assert!(!span.contains_offset(3));
    let span = ornament("----");
    assert!(span.is_synthetic());
    assert_eq!(span.source_range(), None);
    // Decoration counts no columns.
    assert_eq!(span.width(), 0);
    assert!(!span.contains_offset(0));
    assert_eq!(span.into_span(), Span::raw("----"));
}

#[test]
fn the_range_of_a_row_spans_the_ranges_of_its_text() {
    let line = VirtualLine::new(&[
        ornament("> "),
        text("ab", 12..14),
        ornament(" "),
        text("cde", 3..6),
        text("f", 20..21),
    ]);
    assert_eq!(line.source_range(), Some(3..21));
    assert!(line.has_content());
    assert_eq!(line.width(), 6);
    assert!(line.contains_offset(13));
    assert!(line.contains_offset(20));
    // Offset 8 lies in the range of the row but in no span of it.
    assert!(!line.contains_offset(8));
    assert_eq!(
        line.clone().spans(),
        vec![Span::raw("> "), Span::raw("ab"), Span::raw(" "), Span::raw("cde"), Span::raw("f")]
    );
    assert_eq!(line.clone().virtual_spans(), line.spans);
}

#[test]
fn a_row_of_decoration_has_no_range() {
    let line = VirtualLine::new(&[ornament("═══")]);
    assert_eq!(line.source_range(), None);
    assert!(!line.has_content());
    assert_eq!(line.width(), 0);
    assert_eq!(VirtualLine::empty().spans, vec![ornament("")]);
    assert_eq!(VirtualLine::new(&[]).source_range(), None);
    // A span of text without text still is one.
    let line = VirtualLine::new(&[text("", 7..8)]);
    assert_eq!(line.source_range(), Some(7..8));
    assert!(line.has_content());
}

#[test]
fn blocks_and_the_empty_document() {
    let lines = [VirtualLine::new(&[text("a", 0..1)]), VirtualLine::empty()];
    let block = VirtualBlock::new(&lines, &(0..2));
    assert_eq!(block.lines(), lines);
    assert_eq!(*block.source_range(), 0..2);
    let document = VirtualDocument::new();
    assert!(document.lines().is_empty());
    assert!(document.blocks().is_empty());
    assert!(document.meta().is_empty());
    assert!(document.line_to_block().is_empty());
    assert!(document.get_block(0).is_none());
}

#[test]
fn styles_are_laid_over_each_other() {
    let base = SpanStyle::new().fg(Color::Red).bold();
    let over = SpanStyle::new().fg(Color::Blue).bg(Color::Black).crossed_out();
    assert_eq!(
        base.patch(over),
        SpanStyle { fg: Some(Color::Blue), bg: Some(Color::Black), bold: true, crossed_out: true }
    );
    assert_eq!(base.patch(SpanStyle::default()), base);
    assert_eq!(SpanStyle::default().patch(base), base);
    let merged = Span::styled("┃ ", base).merge(&Span::styled("  ", SpanStyle::new().bg(Color::Gray)));
    assert_eq!(merged, Span::styled("┃   ", base.bg(Color::Gray)));
    assert_eq!(merged.width(), 4);
    assert_eq!(Span::raw("😀é").width(), 3);
    assert_eq!(Span::empty(), Span::raw(""));
}

#[test]
fn rich_text_is_a_sequence_of_segments() {
    let mut text = RichText::empty();
    assert!(text.is_empty());
    assert_eq!(text.to_string(), "");
    text.push_text_segment(TextSegment::plain("a "));
    text.push_text_segment(TextSegment::new("b", Some(Style::Strong)));
    let mut segment = TextSegment::plain(" c");
    segment.add_style(&Style::Emphasis);
    text.push_text_segment(segment);
    text.push_text_segment(TextSegment::empty_line());
    assert!(!text.is_empty());
    assert_eq!(text.to_string(), "a b c\n");
    assert_eq!(
        text.segments(),
        [
            TextSegment::plain("a "),
            TextSegment::styled("b", Style::Strong),
            TextSegment::styled(" c", Style::Emphasis),
            TextSegment::plain("\n"),
        ]
    );
    assert_eq!(text.iter().count(), 4);
    assert_eq!(text.duplicate(), text);
    assert_eq!(Style::Strikethrough.to_string(), "Strikethrough");
    assert_eq!(TextSegment::styled("x", Style::Code).to_string(), "x");
    assert_eq!(TextSegment::from_text("\ta\tb"), TextSegment::plain("  a  b"));
}
