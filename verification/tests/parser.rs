use basalt::ast::{
    node_to_sexp, nodes_to_sexp, rich_text_to_sexp, BlockQuoteKind, HeadingLevel, ItemKind, Node,
    TaskKind,
};
use basalt::parser::{
    from_str, parse_events, EventShape, MdEvent, MdTag, MdTagEnd, Parser, ParserState, TagShape,
    Token,
};
use basalt::rich_text::{RichText, Style, TextSegment};

/// The kinds of the nodes, with those of their children in brackets.
fn outline(nodes: &[Node]) -> String {
    nodes
        .iter()
        .map(|node| match node {
            Node::Heading { level, .. } => format!("{:?}", level).to_lowercase(),
            Node::Paragraph { .. } => "p".to_string(),
            Node::CodeBlock { lang, .. } => format!("code({})", lang.clone().unwrap_or_default()),
            Node::BlockQuote { nodes, .. } => format!("quote[{}]", outline(nodes)),
            Node::List { nodes, .. } => format!("list[{}]", outline(nodes)),
            Node::Item { kind, nodes, .. } => match kind {
                ItemKind::Ordered(n) => format!("{}.[{}]", n, outline(nodes)),
                ItemKind::Unordered => format!("-[{}]", outline(nodes)),
            },
            Node::Task { kind, nodes, .. } => format!("{:?}[{}]", kind, outline(nodes)),
        })
        .collect::<Vec<_>>()
        .join(" ")
}

#[test]
fn test_parser() {
    let tests = [
        (
            "paragraphs",
            "## Paragraphs\nTo create paragraphs in Markdown, use a **blank line** to separate blocks of text. Each block of text separated by a blank line is treated as a distinct paragraph.\n\nThis is a paragraph.\n\nThis is another paragraph.\n\nA blank line between lines of text creates separate paragraphs. This is the default behavior in Markdown.\n",
            "h2 p p p p",
            "(heading H2 @0..14\n  \"Paragraphs\")\n(paragraph @14..178\n  \"To create paragraphs in Markdown, use a \"\n  (Strong \"blank line\")\n  (Strong \" to separate blocks of text. Each block of text separated by a blank line is treated as a distinct paragraph.\"))\n(paragraph @179..200\n  \"This is a paragraph.\")\n(paragraph @201..228\n  \"This is another paragraph.\")\n(paragraph @229..335\n  \"A blank line between lines of text creates separate paragraphs. This is the default behavior in Markdown.\")",
        ),
        (
            "headings",
            "## Headings\nTo create a heading, add up to six `#` symbols before your heading text. The number of `#` symbols determines the size of the heading.\n\n# This is a heading 1\n## This is a heading 2\n### This is a heading 3\n#### This is a heading 4\n##### This is a heading 5\n###### This is a heading 6\n",
            "h2 p h1 h2 h3 h4 h5 h6",
            "(heading H2 @0..12\n  \"Headings\")\n(paragraph @12..147\n  \"To create a heading, add up to six \"\n  (Code \"#\")\n  \" symbols before your heading text. The number of \"\n  (Code \"#\")\n  \" symbols determines the size of the heading.\")\n(heading H1 @148..170\n  \"This is a heading 1\")\n(heading H2 @170..193\n  \"This is a heading 2\")\n(heading H3 @193..217\n  \"This is a heading 3\")\n(heading H4 @217..242\n  \"This is a heading 4\")\n(heading H5 @242..268\n  \"This is a heading 5\")\n(heading H6 @268..295\n  \"This is a heading 6\")",
        ),
        (
            "lists",
            "## Lists\nYou can create an unordered list by adding a `-`, `*`, or `+` before the text.\n\n- First list item\n- Second list item\n- Third list item\n\nTo create an ordered list, start each line with a number followed by a `.` or `)` symbol.\n\n1. First list item\n2. Second list item\n3. Third list item\n\n1) First list item\n2) Second list item\n3) Third list item\n",
            "h2 p list[-[p] -[p] -[p]] p list[1.[p] 2.[p] 3.[p]] list[1.[p] 2.[p] 3.[p]]",
            "(heading H2 @0..9\n  \"Lists\")\n(paragraph @9..88\n  \"You can create an unordered list by adding a \"\n  (Code \"-\")\n  \", \"\n  (Code \"*\")\n  \", or \"\n  (Code \"+\")\n  \" before the text.\")\n(list @89..145\n  (item Unordered @89..107\n    (paragraph @89..107\n      \"First list item\"))\n  (item Unordered @107..126\n    (paragraph @107..126\n      \"Second list item\"))\n  (item Unordered @126..145\n    (paragraph @126..145\n      \"Third list item\")))\n(paragraph @145..235\n  \"To create an ordered list, start each line with a number followed by a \"\n  (Code \".\")\n  \" or \"\n  (Code \")\")\n  \" symbol.\")\n(list @236..295\n  (item Ordered(1) @236..255\n    (paragraph @236..255\n      \"First list item\"))\n  (item Ordered(2) @255..275\n    (paragraph @255..275\n      \"Second list item\"))\n  (item Ordered(3) @275..295\n    (paragraph @275..295\n      \"Third list item\")))\n(list @295..353\n  (item Ordered(1) @295..314\n    (paragraph @295..314\n      \"First list item\"))\n  (item Ordered(2) @314..334\n    (paragraph @314..334\n      \"Second list item\"))\n  (item Ordered(3) @334..353\n    (paragraph @334..353\n      \"Third list item\")))",
        ),
        (
            "lists_line_breaks",
            "## Lists with line breaks\nYou can use line breaks within an ordered list without altering the numbering.\n\n1. First list item\n\n2. Second list item\n3. Third list item\n\n4. Fourth list item\n5. Fifth list item\n6. Sixth list item\n",
            "h2 p list[1.[p] 2.[p] 3.[p] 4.[p] 5.[p] 6.[p]]",
            "(heading H2 @0..26\n  \"Lists with line breaks\")\n(paragraph @26..105\n  \"You can use line breaks within an ordered list without altering the numbering.\")\n(list @106..224\n  (item Ordered(1) @106..126\n    (paragraph @109..125\n      \"First list item\"))\n  (item Ordered(2) @126..146\n    (paragraph @129..146\n      \"Second list item\"))\n  (item Ordered(3) @146..166\n    (paragraph @149..165\n      \"Third list item\"))\n  (item Ordered(4) @166..186\n    (paragraph @169..186\n      \"Fourth list item\"))\n  (item Ordered(5) @186..205\n    (paragraph @189..205\n      \"Fifth list item\"))\n  (item Ordered(6) @205..224\n    (paragraph @208..224\n      \"Sixth list item\")))",
        ),
        (
            "task_lists",
            "## Task lists\nTo create a task list, start each list item with a hyphen and space followed by `[ ]`.\n\n- [x] This is a completed task.\n- [ ] This is an incomplete task.\n\nYou can toggle a task in Reading view by selecting the checkbox.\n\n> [!tip]\n> You can use any character inside the brackets to mark it as complete.\n>\n> - [x] Milk\n> - [?] Eggs\n> - [-] Eggs\n",
            "h2 p list[Checked[p] Unchecked[p]] p quote[p list[Checked[p] LooselyChecked[p] LooselyChecked[p]]]",
            "(heading H2 @0..14\n  \"Task lists\")\n(paragraph @14..101\n  \"To create a task list, start each list item with a hyphen and space followed by \"\n  (Code \"[ ]\")\n  \".\")\n(list @102..169\n  (task Checked @102..134\n    (paragraph @102..134\n      \"This is a completed task.\"))\n  (task Unchecked @134..169\n    (paragraph @134..169\n      \"This is an incomplete task.\")))\n(paragraph @169..234\n  \"You can toggle a task in Reading view by selecting the checkbox.\")\n(blockquote Some(Tip) @235..357\n  (paragraph @246..316\n    \"You can use any character inside the brackets to mark it as complete.\")\n  (list @320..357\n    (task Checked @320..331\n      (paragraph @320..331\n        \"Milk\"))\n    (task LooselyChecked @333..344\n      (paragraph @333..344\n        \"Eggs\"))\n    (task LooselyChecked @346..357\n      (paragraph @346..357\n        \"Eggs\"))))",
        ),
        (
            "nesting_lists",
            "## Nesting lists\nYou can nest any type of list—ordered, unordered, or task lists—under any other type of list.\n\nTo create a nested list, indent one or more list items. You can mix list types within a nested structure:\n\n1. First list item\n   1. Ordered nested list item\n2. Second list item\n   - Unordered nested list item\n",
            "h2 p p list[1.[p list[1.[p]]] 2.[p list[-[p]]]]",
            "(heading H2 @0..17\n  \"Nesting lists\")\n(paragraph @17..115\n  \"You can nest any type of list—ordered, unordered, or task lists—under any other type of list.\")\n(paragraph @116..222\n  \"To create a nested list, indent one or more list items. You can mix list types within a nested structure:\")\n(list @223..325\n  (item Ordered(1) @223..273\n    (paragraph @223..273\n      \"First list item\")\n    (list @245..273\n      (item Ordered(1) @245..273\n        (paragraph @245..273\n          \"Ordered nested list item\"))))\n  (item Ordered(2) @273..325\n    (paragraph @273..325\n      \"Second list item\")\n    (list @296..325\n      (item Unordered @296..325\n        (paragraph @296..325\n          \"Unordered nested list item\")))))",
        ),
        (
            "nesting_task_lists",
            "## Nesting task lists\nSimilarly, you can create a nested task list by indenting one or more list items:\n\n- [ ] Task item 1\n - [ ] Subtask 1\n- [ ] Task item 2\n - [ ] Subtask 2\n",
            "h2 p list[Unchecked[p] Unchecked[p] Unchecked[p] Unchecked[p]]",
            "(heading H2 @0..22\n  \"Nesting task lists\")\n(paragraph @22..104\n  \"Similarly, you can create a nested task list by indenting one or more list items:\")\n(list @105..175\n  (task Unchecked @105..123\n    (paragraph @105..123\n      \"Task item 1\"))\n  (task Unchecked @123..140\n    (paragraph @123..140\n      \"Subtask 1\"))\n  (task Unchecked @140..158\n    (paragraph @140..158\n      \"Task item 2\"))\n  (task Unchecked @158..175\n    (paragraph @158..175\n      \"Subtask 2\")))",
        ),
        (
            "code_blocks",
            "## Code blocks\nTo format code as a block, enclose it with three backticks or three tildes.\n\n```md\ncd ~/Desktop\n```\n\nYou can also create a code block by indenting the text using `Tab` or 4 blank spaces.\n\n    cd ~/Desktop\n\n",
            "h2 p code(md) p code()",
            "(heading H2 @0..15\n  \"Code blocks\")\n(paragraph @15..91\n  \"To format code as a block, enclose it with three backticks or three tildes.\")\n(codeblock md @92..114\n  \"cd ~/Desktop\n\")\n(paragraph @116..202\n  \"You can also create a code block by indenting the text using \"\n  (Code \"Tab\")\n  \" or 4 blank spaces.\")\n(codeblock  @207..220\n  \"cd ~/Desktop\n\")",
        ),
        (
            "code_syntax_highlighting_in_blocks",
            "## Code syntax highlighting in blocks\nYou can add syntax highlighting to a code block, by adding a language code after the first set of backticks.\n\n```js\nfunction fancyAlert(arg) {\n  if(arg) {\n    $.facebox({div:'#foo'})\n  }\n}\n```\n",
            "h2 p code(js)",
            "(heading H2 @0..38\n  \"Code syntax highlighting in blocks\")\n(paragraph @38..147\n  \"You can add syntax highlighting to a code block, by adding a language code after the first set of backticks.\")\n(codeblock js @148..230\n  \"function fancyAlert(arg) {\n  if(arg) {\n    $.facebox({div:'#foo'})\n  }\n}\n\")",
        ),
    ];

    tests.into_iter().for_each(|(name, text, expected, expected_sexp)| {
        let nodes = from_str(text);
        assert_eq!(outline(&nodes), expected, "{}", name);
        let sexp = nodes_to_sexp(&nodes, 0);
        assert_eq!(sexp, expected_sexp, "{}", name);
        assert_eq!(sexp.matches("\n(").count() + 1, nodes.len(), "{}", name);
        // The blocks follow each other in the source.
        for pair in nodes.windows(2) {
            assert!(pair[0].source_range().end <= pair[1].source_range().start, "{}", name);
        }
        assert!(nodes.iter().all(|node| node.source_range().end <= text.len()), "{}", name);
    });
}

#[test]
fn heading_and_paragraph_with_their_ranges() {
    let nodes = from_str("# Title\n\nHello *world*\n");
    assert_eq!(
        nodes_to_sexp(&nodes, 0),
        "(heading H1 @0..8\n  \"Title\")\n(paragraph @9..23\n  \"Hello \"\n  (Emphasis \"world\"))"
    );
}

#[test]
fn inline_code_and_soft_breaks() {
    let nodes = from_str("one `two`\nthree\n");
    assert_eq!(
        nodes,
        vec![Node::Paragraph {
            text: RichText::from_segments(vec![
                TextSegment::plain("one "),
                TextSegment::styled("two", Style::Code),
                TextSegment::plain("\n"),
                TextSegment::plain("three"),
            ]),
            source_range: 0..16,
        }]
    );
}

#[test]
fn ordered_items_count_up_from_the_start_of_the_list() {
    let nodes = from_str("7. a\n8. b\n9. c\n");
    assert_eq!(outline(&nodes), "list[7.[p] 8.[p] 9.[p]]");
    assert_eq!(
        nodes_to_sexp(&nodes, 0),
        "(list @0..15\n  (item Ordered(7) @0..5\n    (paragraph @0..5\n      \"a\"))\n  (item Ordered(8) @5..10\n    (paragraph @5..10\n      \"b\"))\n  (item Ordered(9) @10..15\n    (paragraph @10..15\n      \"c\")))"
    );
}

#[test]
fn task_markers_make_tasks() {
    let nodes = from_str("- [x] done\n- [ ] open\n- [?] maybe\n- plain\n");
    match &nodes[..] {
        [Node::List { nodes, .. }] => {
            let kinds: Vec<Option<TaskKind>> = nodes
                .iter()
                .map(|node| match node {
                    Node::Task { kind, .. } => Some(*kind),
                    _ => None,
                })
                .collect();
            assert_eq!(
                kinds,
                vec![
                    Some(TaskKind::Checked),
                    Some(TaskKind::Unchecked),
                    Some(TaskKind::LooselyChecked),
                    None
                ]
            );
            // The loose marker is no part of the text of the task.
            match &nodes[2] {
                Node::Task { nodes, .. } => {
                    assert_eq!(nodes[0].rich_text().unwrap().to_string(), "maybe")
                }
                _ => unreachable!(),
            }
        }
        _ => panic!("one list expected"),
    }
}

#[test]
fn block_quote_kinds() {
    let nodes = from_str("> [!WARNING]\n> careful\n\n> plain\n");
    match &nodes[..] {
        [Node::BlockQuote { kind: first, .. }, Node::BlockQuote { kind: second, .. }] => {
            assert_eq!(*first, Some(BlockQuoteKind::Warning));
            assert_eq!(*second, None);
        }
        _ => panic!("two block quotes expected"),
    }
}

#[test]
fn malformed_markdown_is_text() {
    let nodes = from_str("**not closed\n");
    assert_eq!(outline(&nodes), "p");
    assert_eq!(nodes[0].rich_text().unwrap().to_string(), "**not closed");
    assert_eq!(from_str(""), vec![]);
}

fn token(event: MdEvent, range: std::ops::Range<usize>) -> Token {
    (event, range)
}

#[test]
fn events_without_a_closing_tag_give_no_block() {
    let tokens = vec![
        token(MdEvent::Start(MdTag::Paragraph), 0..5),
        token(MdEvent::Text("open".to_string()), 0..4),
    ];
    assert_eq!(parse_events(&tokens), vec![]);
}

#[test]
fn events_are_read_into_blocks() {
    let tokens = vec![
        token(MdEvent::Start(MdTag::List(Some(3))), 0..20),
        token(MdEvent::Start(MdTag::Item), 0..10),
        token(MdEvent::Start(MdTag::Strong), 3..9),
        token(MdEvent::Text("a".to_string()), 5..6),
        token(MdEvent::End(MdTagEnd::Other), 3..9),
        token(MdEvent::End(MdTagEnd::Item), 0..10),
        token(MdEvent::Start(MdTag::Item), 10..20),
        token(MdEvent::TaskListMarker(true), 12..15),
        token(MdEvent::Code("b".to_string()), 16..19),
        token(MdEvent::Other, 19..20),
        token(MdEvent::End(MdTagEnd::Item), 10..20),
        token(MdEvent::End(MdTagEnd::List), 0..20),
        token(MdEvent::Start(MdTag::CodeBlock(Some("rs".to_string()))), 21..40),
        token(MdEvent::Text("fn f() {}\n".to_string()), 27..37),
        token(MdEvent::End(MdTagEnd::CodeBlock), 21..40),
    ];
    let expected = vec![
        Node::List {
            nodes: vec![
                Node::Item {
                    kind: ItemKind::Ordered(3),
                    nodes: vec![Node::Paragraph {
                        text: RichText::from_segments(vec![TextSegment::styled("a", Style::Strong)]),
                        source_range: 0..10,
                    }],
                    source_range: 0..10,
                },
                Node::Task {
                    kind: TaskKind::Checked,
                    nodes: vec![Node::Paragraph {
                        text: RichText::from_segments(vec![TextSegment::styled("b", Style::Code)]),
                        source_range: 10..20,
                    }],
                    source_range: 10..20,
                },
            ],
            source_range: 0..20,
        },
        Node::CodeBlock {
            lang: Some("rs".to_string()),
            text: RichText::from_segments(vec![TextSegment::plain("fn f() {}\n")]),
            source_range: 21..40,
        },
    ];
    assert_eq!(parse_events(&tokens), expected);
    assert_eq!(Parser::from_tokens(tokens).parse(), expected);
}

#[test]
fn a_container_is_read_up_to_its_closing_tag() {
    let tokens = vec![
        token(MdEvent::Text("x".to_string()), 2..3),
        token(MdEvent::End(MdTagEnd::Paragraph), 0..6),
        token(MdEvent::End(MdTagEnd::Heading), 0..4),
        token(MdEvent::Start(MdTag::Paragraph), 7..9),
    ];
    let mut parser = Parser::from_tokens(tokens);
    let mut state = ParserState::new();
    let node = parser.parse_container(MdTag::Heading(HeadingLevel::H3), &mut state);
    assert_eq!(
        node,
        Some(Node::Heading {
            level: HeadingLevel::H3,
            text: RichText::from_segments(vec![TextSegment::plain("x")]),
            source_range: 0..4,
        })
    );
    assert_eq!(state, ParserState::default());
    // What is left is a paragraph that is never closed.
    assert_eq!(parser.parse(), vec![]);
}

#[test]
fn nodes_are_written_as_s_expressions() {
    let text = RichText::from_segments(vec![
        TextSegment::plain("a"),
        TextSegment::styled("b", Style::Strikethrough),
    ]);
    assert_eq!(rich_text_to_sexp(&text, 3), "   \"a\"\n   (Strikethrough \"b\")");
    assert_eq!(rich_text_to_sexp(&RichText::empty(), 3), "");
    let node = Node::BlockQuote {
        kind: Some(BlockQuoteKind::Tip),
        nodes: vec![
            Node::CodeBlock {
                lang: None,
                text: RichText::from_segments(vec![TextSegment::plain("x")]),
                source_range: 2..10,
            },
            Node::List {
                nodes: vec![Node::Task {
                    kind: TaskKind::LooselyChecked,
                    nodes: vec![],
                    source_range: 12..20,
                }],
                source_range: 12..21,
            },
        ],
        source_range: 0..120,
    };
    assert_eq!(
        node_to_sexp(&node, 1),
        " (blockquote Some(Tip) @0..120\n   (codeblock  @2..10\n     \"x\")\n   (list @12..21\n     (task LooselyChecked @12..20\n)))"
    );
    assert_eq!(nodes_to_sexp(&[], 4), "");
}

#[test]
fn tags_are_made_of_what_is_read_from_them() {
    let lang = Some("rs".to_string());
    let tag = |shape| {
        MdTag::from_reading(shape, Some(HeadingLevel::H2), Some(BlockQuoteKind::Note), lang.clone(), Some(4))
    };
    assert_eq!(tag(TagShape::Paragraph), MdTag::Paragraph);
    assert_eq!(tag(TagShape::Heading), MdTag::Heading(HeadingLevel::H2));
    assert_eq!(tag(TagShape::BlockQuote), MdTag::BlockQuote(Some(BlockQuoteKind::Note)));
    assert_eq!(tag(TagShape::CodeBlock), MdTag::CodeBlock(lang.clone()));
    assert_eq!(tag(TagShape::List), MdTag::List(Some(4)));
    assert_eq!(tag(TagShape::Item), MdTag::Item);
    assert_eq!(tag(TagShape::Emphasis), MdTag::Emphasis);
    assert_eq!(tag(TagShape::Strong), MdTag::Strong);
    assert_eq!(tag(TagShape::Strikethrough), MdTag::Strikethrough);
    assert_eq!(tag(TagShape::Other), MdTag::Other);
    // What a tag does not carry may be missing.
    assert_eq!(MdTag::from_reading(TagShape::BlockQuote, None, None, None, None), MdTag::BlockQuote(None));
    assert_eq!(MdTag::from_reading(TagShape::CodeBlock, None, None, None, None), MdTag::CodeBlock(None));
    assert_eq!(MdTag::from_reading(TagShape::List, None, None, None, None), MdTag::List(None));
    // A heading without a level is no heading.
    assert_eq!(MdTag::from_reading(TagShape::Heading, None, None, None, None), MdTag::Other);
}

#[test]
fn events_are_made_of_what_is_read_from_them() {
    let text = Some("text".to_string());
    let event = |shape| MdEvent::from_reading(shape, text.clone(), MdTag::Item, MdTagEnd::List);
    assert_eq!(event(EventShape::Start), MdEvent::Start(MdTag::Item));
    assert_eq!(event(EventShape::End), MdEvent::End(MdTagEnd::List));
    assert_eq!(event(EventShape::Text), MdEvent::Text("text".to_string()));
    assert_eq!(event(EventShape::Code), MdEvent::Code("text".to_string()));
    assert_eq!(event(EventShape::SoftBreak), MdEvent::SoftBreak);
    assert_eq!(event(EventShape::TaskListMarker(true)), MdEvent::TaskListMarker(true));
    assert_eq!(event(EventShape::TaskListMarker(false)), MdEvent::TaskListMarker(false));
    assert_eq!(event(EventShape::Other), MdEvent::Other);
    // Text or code without a text is no such event.
    assert_eq!(MdEvent::from_reading(EventShape::Text, None, MdTag::Other, MdTagEnd::Other), MdEvent::Other);
    assert_eq!(MdEvent::from_reading(EventShape::Code, None, MdTag::Other, MdTagEnd::Other), MdEvent::Other);
}
