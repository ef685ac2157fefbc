use basalt::ast::{HeadingLevel, ItemKind, Node, TaskKind};
use basalt::parser::from_str;
use basalt::render::{
    block_quote, code_block, heading, item, line_range, list, paragraph, render_node, render_raw,
    task, text_wrap, RenderStyle,
};
use basalt::rich_text::{RichText, TextSegment};
use basalt::span::{Color, Span, SpanStyle};
use basalt::virtual_document::{VirtualBlock, VirtualLine, VirtualSpan};

/// The rows as text: decoration in square brackets, text of the document in
/// round brackets with its range.
fn dump(lines: &[VirtualLine]) -> Vec<String> {
    lines
        .iter()
        .map(|line| {
            line.spans
                .iter()
                .map(|span| match span {
                    VirtualSpan::Synthetic(span) => format!("[{}]", span.content),
                    VirtualSpan::Content(span, range) => {
                        format!("({}@{}..{})", span.content, range.start, range.end)
                    }
                })
                .collect::<String>()
        })
        .collect()
}

fn dump_block(block: &VirtualBlock) -> Vec<String> {
    dump(block.lines())
}

fn plain(text: &str) -> RichText {
    RichText::from_segments(vec![TextSegment::plain(text)])
}

#[test]
fn line_ranges() {
    assert_eq!(line_range(3, 5, true), 3..9);
    assert_eq!(line_range(3, 5, false), 3..8);
    assert_eq!(line_range(usize::MAX - 2, 5, true), usize::MAX - 2..usize::MAX);
}

#[test]
fn a_short_text_is_one_row() {
    let rows = text_wrap(&Span::raw("Hello world"), Span::raw("> "), &(4..20), 40, None, &RenderStyle::Visual);
    assert_eq!(dump(&rows), ["[> ](Hello world@4..15)"]);
}

#[test]
fn the_marker_stands_in_the_first_row_of_styled_text_only() {
    let marker = Some(Span::raw("- "));
    let rows = text_wrap(&Span::raw("aaa bbb ccc"), Span::raw(""), &(0..11), 7, marker.clone(), &RenderStyle::Visual);
    assert_eq!(
        dump(&rows),
        ["[][- ](aaa @0..4)", "[][ ][⤷ ](bbb @4..8)", "[][ ][⤷ ](ccc@8..11)"]
    );
    let rows = text_wrap(&Span::raw("aaa bbb ccc"), Span::raw(""), &(0..11), 7, marker, &RenderStyle::Raw);
    assert_eq!(
        dump(&rows),
        ["[](aaa @0..4)", "[][ ][⤷ ](bbb @4..8)", "[][ ][⤷ ](ccc@8..11)"]
    );
}

#[test]
fn rows_keep_the_style_of_the_text_and_the_wrap_marker_is_black() {
    let style = SpanStyle::new().bold().fg(Color::Cyan);
    let prefix = Span::styled("┃ ┃ ", SpanStyle::new().fg(Color::Magenta));
    let rows = text_wrap(&Span::styled("aaa bbb", style), prefix.clone(), &(0..7), 3, None, &RenderStyle::Visual);
    assert_eq!(rows.len(), 2);
    assert_eq!(
        rows[1].spans,
        vec![
            VirtualSpan::Synthetic(prefix.clone()),
            // The prefix is four columns wide: three blanks in its style.
            VirtualSpan::Synthetic(Span::styled("   ", prefix.style)),
            VirtualSpan::Synthetic(Span::styled("⤷ ", SpanStyle::new().fg(Color::Black))),
            VirtualSpan::Content(Span::styled("bbb", style), 4..7),
        ]
    );
}

#[test]
fn ranges_are_cut_off_at_the_end_of_the_block() {
    let rows = text_wrap(&Span::raw("aaa bbb ccc"), Span::raw(""), &(0..6), 7, None, &RenderStyle::Visual);
    assert_eq!(
        dump(&rows),
        ["[](aaa @0..4)", "[][ ][⤷ ](bbb @4..6)", "[][ ][⤷ ](ccc@8..6)"]
    );
}

#[test]
fn a_paragraph_at_the_top_level_is_followed_by_an_empty_row() {
    let block = paragraph("ignored", Span::raw(""), &plain("one\ntwo"), &(10..18), 40, &RenderStyle::Visual);
    assert_eq!(dump_block(&block), ["[](one@10..13)", "[](two@14..17)", "[]"]);
    assert_eq!(*block.source_range(), 10..18);
    let block = paragraph("ignored", Span::raw("  "), &plain("one\ntwo"), &(10..18), 40, &RenderStyle::Visual);
    assert_eq!(dump_block(&block), ["[  ](one@10..13)", "[  ](two@14..17)"]);
}

#[test]
fn raw_text_is_shown_line_by_line() {
    let rows = render_raw("# Title\n\nsome **text**\n", &(5..28), 40, Span::raw(""));
    assert_eq!(
        dump(&rows),
        ["[](# Title@5..12)", "[](@13..14)", "[](some **text**@14..27)", "[]"]
    );
    let block = paragraph("a b\r\nc", Span::raw(""), &plain("ignored"), &(0..6), 2, &RenderStyle::Raw);
    assert_eq!(dump_block(&block), ["[](a @0..2)", "[][ ][⤷ ](b@2..3)", "[](c@4..5)", "[]"]);
}

#[test]
fn headings_by_level() {
    let text = plain("Title");
    let range = 0..8;
    let h = |level| dump_block(&heading(level, "# Title", Span::raw(""), &text, &range, 6, &RenderStyle::Visual));
    assert_eq!(h(HeadingLevel::H1), ["[](TITLE@0..5)", "[══════]"]);
    assert_eq!(h(HeadingLevel::H2), ["[](Title@0..5)", "[──────]"]);
    assert_eq!(h(HeadingLevel::H3), ["[][⬤  ](Title@0..5)", "[]"]);
    assert_eq!(h(HeadingLevel::H4), ["[][● ](Title@0..5)", "[]"]);
    // The script letters take four bytes each: the range is cut off at the end of the block.
    assert_eq!(h(HeadingLevel::H5), ["[][◆ ](𝓣𝓲𝓽𝓵𝓮@0..8)", "[]"]);
    assert_eq!(h(HeadingLevel::H6), ["[][✺ ](𝓣𝓲𝓽𝓵𝓮@0..8)", "[]"]);
    let raw = heading(HeadingLevel::H1, "# Title", Span::raw(""), &text, &range, 10, &RenderStyle::Raw);
    assert_eq!(dump_block(&raw), ["[](# Title@0..7)", "[══════════]"]);
    let raw = heading(HeadingLevel::H3, "### Title", Span::raw(""), &text, &range, 8, &RenderStyle::Raw);
    assert_eq!(dump_block(&raw), ["[](### @0..4)", "[][ ][⤷ ](Title@4..8)", "[]"]);
    let styled = heading(HeadingLevel::H2, "", Span::raw("> "), &text, &range, 6, &RenderStyle::Visual);
    assert_eq!(
        styled.lines[0].spans[1],
        VirtualSpan::Content(Span::styled("Title", SpanStyle::new().bold().fg(Color::Yellow)), 0..5)
    );
    assert_eq!(
        styled.lines[1].spans,
        vec![VirtualSpan::Synthetic(Span::styled("────", SpanStyle::new().fg(Color::Yellow)))]
    );
}

#[test]
fn code_blocks_are_not_wrapped() {
    let text = plain("let a = 1;\n\nb\n");
    let block = code_block("", Span::raw(""), &None, &text, &(0..30), 8, &RenderStyle::Visual);
    assert_eq!(
        dump_block(&block),
        [
            "[][        ]",
            "[][ ](let a = 1;@0..10)[]",
            "[][ ](@10..10)[       ]",
            "[][ ](b@10..11)[      ]",
            "[][        ]",
            "[]",
        ]
    );
    let background = SpanStyle::new().bg(Color::Black);
    assert_eq!(
        block.lines[3].spans,
        vec![
            VirtualSpan::Synthetic(Span::raw("")),
            VirtualSpan::Synthetic(Span::styled(" ", background)),
            VirtualSpan::Content(Span::styled("b", background), 10..11),
            VirtualSpan::Synthetic(Span::styled("      ", background)),
        ]
    );
    let block = code_block("```\nab\n```", Span::raw("  "), &None, &text, &(4..14), 8, &RenderStyle::Raw);
    assert_eq!(
        dump_block(&block),
        ["[  ][ ](```@4..8)[  ]", "[  ][ ](ab@8..11)[   ]", "[  ][ ](```@11..15)[  ]", "[]"]
    );
}

fn first_list() -> (String, Node) {
    let source = "- one\n- two\n  1. three\n".to_string();
    let mut nodes = from_str(&source);
    (source, nodes.remove(0))
}

#[test]
fn lists_show_their_items_with_markers() {
    let (source, node) = first_list();
    let block = render_node(source.clone(), &node, 40, Span::raw(""), &RenderStyle::Visual);
    assert_eq!(
        dump_block(&block),
        ["[][- ](one@0..3)", "[][- ](two@6..9)", "[  ][1. ](three@14..19)", "[]"]
    );
    let raw = render_node(source, &node, 40, Span::raw(""), &RenderStyle::Raw);
    assert_eq!(
        dump_block(&raw),
        ["[](- one@0..5)", "[](- two@6..11)", "[](  1. three@12..22)", "[]"]
    );
}

#[test]
fn items_and_tasks() {
    let children = vec![
        Node::Paragraph { text: plain("text"), source_range: 2..6 },
        Node::Paragraph { text: plain("more"), source_range: 8..12 },
    ];
    let marker_of = |block: &VirtualBlock| match &block.lines[0].spans[1] {
        VirtualSpan::Synthetic(span) => span.clone(),
        _ => unreachable!(),
    };
    let grey = SpanStyle::new().fg(Color::DarkGray);
    let block = item("", Span::raw(""), &ItemKind::Ordered(12), &children, &(0..12), 40, &RenderStyle::Visual);
    assert_eq!(dump_block(&block), ["[][12. ](text@0..4)", "[  ](more@8..12)"]);
    assert_eq!(marker_of(&block), Span::styled("12. ", grey));
    let block = item("", Span::raw(""), &ItemKind::Unordered, &children, &(0..12), 40, &RenderStyle::Visual);
    assert_eq!(marker_of(&block), Span::styled("- ", grey));

    let text_of = |kind| {
        let block = task("", Span::raw(""), &kind, &children, &(0..12), 40, &RenderStyle::Visual);
        (marker_of(&block), block.lines[0].spans[2].clone())
    };
    assert_eq!(
        text_of(TaskKind::Unchecked),
        (Span::styled("□ ", grey), VirtualSpan::Content(Span::raw("text"), 0..4))
    );
    assert_eq!(
        text_of(TaskKind::LooselyChecked),
        (
            Span::styled("■ ", SpanStyle::new().fg(Color::Magenta)),
            VirtualSpan::Content(Span::styled("text", grey), 0..4)
        )
    );
    assert_eq!(
        text_of(TaskKind::Checked),
        (
            Span::styled("■ ", SpanStyle::new().fg(Color::Magenta)),
            VirtualSpan::Content(Span::styled("text", grey.crossed_out()), 0..4)
        )
    );
    // Without a text to start with there is nothing to show.
    let empty = task("", Span::raw(""), &TaskKind::Checked, &[], &(0..12), 40, &RenderStyle::Visual);
    assert_eq!(dump_block(&empty), Vec::<String>::new());
    let list_first = vec![Node::List { nodes: vec![], source_range: 0..1 }];
    let empty = item("", Span::raw(""), &ItemKind::Unordered, &list_first, &(0..12), 40, &RenderStyle::Visual);
    assert_eq!(dump_block(&empty), Vec::<String>::new());
}

#[test]
fn lists_give_each_child_its_part_of_the_source() {
    let children = vec![
        Node::Paragraph { text: plain("a"), source_range: 0..2 },
        Node::Paragraph { text: plain("b"), source_range: 2..4 },
    ];
    let block = list("a\nb\n", Span::raw("  "), &children, &(0..4), 40, &RenderStyle::Visual);
    assert_eq!(dump_block(&block), ["[  ](a@0..1)", "[  ](b@2..3)"]);
}

#[test]
fn block_quotes_put_a_bar_before_their_children() {
    let children = vec![
        Node::Paragraph { text: plain("a"), source_range: 2..4 },
        Node::BlockQuote {
            kind: None,
            nodes: vec![Node::Paragraph { text: plain("b"), source_range: 8..10 }],
            source_range: 6..10,
        },
        Node::Paragraph { text: plain("c"), source_range: 12..14 },
    ];
    let block = block_quote("", Span::raw(""), &None, &children, &(0..14), 40, &RenderStyle::Visual);
    assert_eq!(
        dump_block(&block),
        ["[┃ ](a@2..3)", "[┃ ]", "[┃ ┃ ](b@8..9)", "[┃ ]", "[┃ ](c@12..13)", "[]"]
    );
    match &block.lines[2].spans[0] {
        VirtualSpan::Synthetic(span) => {
            assert_eq!(span.style, SpanStyle::new().fg(Color::Magenta))
        }
        _ => unreachable!(),
    }
}

#[test]
fn rows_stand_for_the_bytes_of_their_text() {
    // "é" and "日本" are one and two columns wide but take two and six bytes.
    let rows = render_raw("é 日本 x\nüü\n", &(10..25), 5, Span::raw(""));
    assert_eq!(
        dump(&rows),
        ["[](é @10..13)", "[][ ][⤷ ](日本 @13..20)", "[][ ][⤷ ](x@20..21)", "[](üü@22..26)", "[]"]
    );
    let block = paragraph("", Span::raw(""), &plain("日本語 です"), &(0..17), 6, &RenderStyle::Visual);
    assert_eq!(dump_block(&block), ["[](日本語 @0..10)", "[][ ][⤷ ](です@10..16)", "[]"]);
}
