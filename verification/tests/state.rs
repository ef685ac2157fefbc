use basalt::ast::Node;
use basalt::cursor::CursorMode;
use basalt::state::{EditMode, NoteEditorState, View};
use basalt::viewport::{Rect, Size, Viewport};
use basalt::virtual_document::{VirtualDocument, VirtualLine, VirtualSpan};

const DOCUMENT: &str = "# Title\n\nFirst paragraph\n\nSecond **paragraph**\n";

fn opened() -> NoteEditorState {
    let mut state = NoteEditorState::new(DOCUMENT, "Test");
    state.resize_viewport(Size { width: 40, height: 10 });
    state
}

fn ranges(state: &NoteEditorState) -> Vec<std::ops::Range<usize>> {
    state.ast_nodes.iter().map(|node| node.source_range().clone()).collect()
}

fn row_text(line: &VirtualLine) -> String {
    line.spans
        .iter()
        .map(|span| match span {
            VirtualSpan::Synthetic(span) => span.content.clone(),
            VirtualSpan::Content(span, _) => span.content.clone(),
        })
        .collect()
}

fn rows(document: &VirtualDocument) -> Vec<String> {
    document.lines().iter().map(row_text).collect()
}

#[test]
fn a_document_is_opened_for_reading() {
    let state = NoteEditorState::new(DOCUMENT, "Test");
    assert_eq!(state.content, DOCUMENT);
    assert_eq!(state.view, View::Read);
    assert_eq!(state.filename(), "Test");
    assert!(!state.is_editing());
    assert!(!state.modified());
    assert!(!state.active());
    assert!(state.text_buffer().is_none());
    assert_eq!(state.ast_nodes.len(), 3);
    assert_eq!(state.cursor.source_offset(), 0);
    assert!(state.virtual_document.lines().is_empty());
    assert_eq!(state.pending_save(), None);
}

#[test]
fn the_layout_is_made_when_the_window_gets_its_size() {
    let state = opened();
    assert_eq!(
        rows(&state.virtual_document),
        ["TITLE", "═".repeat(40).as_str(), "First paragraph", "", "Second paragraph", ""]
    );
    assert_eq!(state.virtual_document.line_to_block(), [0, 0, 1, 1, 2, 2]);
    assert_eq!(state.virtual_document.blocks().len(), 3);
    let title: Vec<String> = state.virtual_document.meta().iter().map(row_text).collect();
    assert_eq!(title, ["𝕋𝕖𝕤𝕥", "═".repeat(40).as_str(), ""]);
    assert_eq!(state.viewport().area(), Rect { x: 0, y: 0, width: 40, height: 10 });
}

#[test]
fn entering_and_leaving_edit_mode_changes_nothing() {
    for block in 0..3 {
        let mut state = opened();
        state.cursor_jump(block);
        let before = rows(&state.virtual_document);
        state.set_view(View::Edit(EditMode::Source));
        assert!(state.is_editing());
        assert_eq!(*state.cursor.mode(), CursorMode::Edit);
        assert_eq!(state.current_block(), block);
        let range = state.ast_nodes[block].source_range().clone();
        let buffer = state.text_buffer().unwrap();
        assert_eq!(buffer.content, &DOCUMENT[range.clone()]);
        assert_eq!(buffer.source_range, range);
        state.set_view(View::Read);
        assert_eq!(state.content, DOCUMENT);
        assert!(!state.modified());
        assert!(state.text_buffer().is_none());
        assert_eq!(*state.cursor.mode(), CursorMode::Read);
        assert_eq!(rows(&state.virtual_document), before);
    }
}

#[test]
fn the_block_being_edited_is_shown_as_it_is_written() {
    let mut state = opened();
    state.cursor_jump(2);
    state.set_view(View::Edit(EditMode::Source));
    assert_eq!(
        rows(&state.virtual_document),
        ["TITLE", "═".repeat(40).as_str(), "First paragraph", "", "Second **paragraph**", ""]
    );
}

#[test]
fn typing_changes_the_buffer_until_the_edit_ends() {
    let mut state = opened();
    state.cursor_jump(1);
    state.set_view(View::Edit(EditMode::Source));
    assert_eq!(state.cursor.source_offset(), 9);
    state.insert_char('A');
    state.insert_char(' ');
    assert_eq!(state.text_buffer().unwrap().content, "A First paragraph\n");
    assert_eq!(state.cursor.source_offset(), 11);
    assert_eq!(state.content, DOCUMENT);
    assert!(state.modified());
    assert_eq!(ranges(&state), [0..8, 9..27, 28..49]);
    assert_eq!(rows(&state.virtual_document)[2], "A First paragraph");
    state.set_view(View::Read);
    assert_eq!(state.content, "# Title\n\nA First paragraph\n\nSecond **paragraph**\n");
    assert!(state.modified());
    assert!(state.text_buffer().is_none());
    assert_eq!(ranges(&state), [0..8, 9..27, 28..49]);
    assert_eq!(state.pending_save(), Some(state.content.as_str()));
    state.mark_saved();
    assert!(!state.modified());
    assert_eq!(state.pending_save(), None);
}

#[test]
fn deleting_removes_the_character_before_the_cursor() {
    let mut state = opened();
    state.cursor_jump(1);
    state.set_view(View::Edit(EditMode::Source));
    // At the start of the block there is nothing to delete.
    state.delete_char();
    assert!(!state.modified());
    state.cursor_right(5);
    state.delete_char();
    assert_eq!(state.text_buffer().unwrap().content, "Firs paragraph\n");
    assert_eq!(state.cursor.source_offset(), 13);
    assert_eq!(ranges(&state), [0..8, 9..24, 25..46]);
    state.exit_insert();
    assert_eq!(state.content, "# Title\n\nFirs paragraph\n\nSecond **paragraph**\n");
}

#[test]
fn typing_and_deleting_the_same_leaves_the_document_unmodified() {
    let mut state = opened();
    state.cursor_jump(1);
    state.set_view(View::Edit(EditMode::Source));
    state.insert_char('x');
    state.delete_char();
    state.set_view(View::Read);
    assert_eq!(state.content, DOCUMENT);
    assert!(!state.modified());
}

#[test]
fn ranges_shift_with_an_edit() {
    let mut state = opened();
    assert_eq!(ranges(&state), [0..8, 9..25, 26..47]);
    state.shift_source_ranges(9, 1);
    assert_eq!(ranges(&state), [0..8, 9..26, 27..48]);
    state.shift_source_ranges(26, 1);
    assert_eq!(ranges(&state), [0..8, 9..26, 28..49]);
    state.shift_source_ranges(0, -1);
    assert_eq!(ranges(&state), [0..7, 8..25, 27..48]);
    state.shift_source_ranges(30, -1);
    assert_eq!(ranges(&state), [0..7, 8..25, 27..47]);
    state.shift_source_ranges(100, 1);
    assert_eq!(ranges(&state), [0..7, 8..25, 27..47]);
    // Only the range of a block changes.
    match &state.ast_nodes[0] {
        Node::Heading { text, .. } => assert_eq!(text.to_string(), "Title"),
        _ => panic!("a heading expected"),
    }
}

#[test]
fn the_cursor_moves_over_the_rows_with_text() {
    let mut state = opened();
    assert_eq!((state.cursor.virtual_row(), state.cursor.source_offset()), (0, 0));
    state.cursor_down(1);
    // The rule under the title is passed over.
    assert_eq!((state.cursor.virtual_row(), state.cursor.source_offset()), (2, 9));
    state.cursor_down(1);
    assert_eq!((state.cursor.virtual_row(), state.cursor.source_offset()), (4, 26));
    state.cursor_down(1);
    assert_eq!((state.cursor.virtual_row(), state.cursor.source_offset()), (4, 26));
    state.cursor_up(1);
    assert_eq!((state.cursor.virtual_row(), state.cursor.source_offset()), (2, 9));
    state.cursor_up(5);
    assert_eq!((state.cursor.virtual_row(), state.cursor.source_offset()), (0, 0));
    state.cursor_jump(2);
    assert_eq!((state.cursor.virtual_row(), state.cursor.source_offset()), (4, 26));
    state.cursor_jump(7);
    assert_eq!((state.cursor.virtual_row(), state.cursor.source_offset()), (4, 26));
}

#[test]
fn moving_to_another_block_while_editing_takes_that_block_up() {
    let mut state = opened();
    state.set_view(View::Edit(EditMode::Source));
    assert_eq!(state.text_buffer().unwrap().content, "# Title\n");
    state.cursor_down(2);
    assert_eq!(state.current_block(), 1);
    assert_eq!(state.text_buffer().unwrap().content, "First paragraph\n");
    state.cursor_word_forward();
    assert_eq!(state.cursor.source_offset(), 15);
    state.cursor_word_backward();
    assert_eq!(state.cursor.source_offset(), 9);
    state.cursor_left(3);
    assert_eq!(state.cursor.source_offset(), 9);
}

#[test]
fn the_window_follows_the_cursor() {
    let mut text = String::new();
    for i in 0..20 {
        text.push_str(&format!("paragraph {}\n\n", i));
    }
    let mut state = NoteEditorState::new(&text, "");
    state.resize_viewport(Size { width: 40, height: 6 });
    assert_eq!(state.viewport().top(), 0);
    state.cursor_down(4);
    assert_eq!(state.cursor.virtual_row(), 4);
    assert_eq!(state.viewport().area(), Rect { x: 0, y: 0, width: 40, height: 6 });
    state.cursor_down(2);
    assert_eq!(state.cursor.virtual_row(), 6);
    assert_eq!(state.viewport().area(), Rect { x: 0, y: 1, width: 40, height: 6 });
    state.cursor_up(6);
    assert_eq!(state.cursor.virtual_row(), 0);
    assert_eq!(state.viewport().area(), Rect { x: 0, y: 0, width: 40, height: 6 });
}

#[test]
fn a_new_width_gives_a_new_layout() {
    let mut state = opened();
    state.resize_viewport(Size { width: 10, height: 10 });
    assert_eq!(
        rows(&state.virtual_document),
        ["TITLE", "══════════", "First ", " ⤷ paragraph", "", "Second ", " ⤷ paragraph", ""]
    );
    // A new height alone leaves the rows as they are.
    state.resize_viewport(Size { width: 10, height: 3 });
    assert_eq!(state.virtual_document.lines().len(), 8);
    // The three rows of the title leave no row for the document: the window moves on.
    assert_eq!(state.viewport().area(), Rect { x: 0, y: 1, width: 10, height: 3 });
}

#[test]
fn opening_another_document_starts_afresh() {
    let mut state = opened();
    state.set_view(View::Edit(EditMode::Source));
    state.insert_char('x');
    state.set_content("other\n");
    assert_eq!(state.content, "other\n");
    assert_eq!(state.filename(), "Test");
    assert_eq!(state.view, View::Read);
    assert!(!state.modified());
    assert!(state.text_buffer().is_none());
    state.load("Name", "# one\n");
    assert_eq!((state.filename(), state.content.as_str()), ("Name", "# one\n"));
    state.set_active(true);
    assert!(state.active());
    assert_eq!(View::Edit(EditMode::Source).to_string(), "EDIT");
    assert_eq!(View::Read.to_string(), "READ");
}

#[test]
fn the_window_scrolls_within_the_screen() {
    let mut viewport = Viewport::default();
    viewport.resize(Size { width: 10, height: 5 });
    assert!(viewport.size_changed(Size { width: 10, height: 6 }));
    assert!(!viewport.size_changed(Size { width: 10, height: 5 }));
    viewport.scroll_by((3, 2));
    assert_eq!(viewport.area(), Rect { x: 2, y: 3, width: 10, height: 5 });
    assert_eq!((viewport.top(), viewport.bottom()), (3, 8));
    viewport.scroll_by((-10, -10));
    assert_eq!(viewport.area(), Rect { x: 0, y: 0, width: 10, height: 5 });
    viewport.scroll_by((i32::MAX, 70000));
    assert_eq!(viewport.area(), Rect { x: 65525, y: 65530, width: 10, height: 5 });
    assert_eq!(viewport.bottom(), u16::MAX);
}

#[test]
fn an_empty_line_of_code_is_a_row_that_the_cursor_reaches() {
    let mut state = NoteEditorState::new("text\n\n```\na\n\nb\n```\n", "");
    state.resize_viewport(Size { width: 20, height: 20 });
    assert_eq!(
        rows(&state.virtual_document),
        ["text", "", " ".repeat(20).as_str(), &format!(" a{}", " ".repeat(18)), &" ".repeat(20),
         &format!(" b{}", " ".repeat(18)), &" ".repeat(20), ""]
    );
    // Rows 1, 2, 6 and 7 are decoration; row 4 is the empty line of code.
    let with_text: Vec<bool> =
        state.virtual_document.lines().iter().map(|line| line.has_content()).collect();
    assert_eq!(with_text, [true, false, false, true, true, true, false, false]);
    state.cursor_down(3);
    assert_eq!(state.cursor.virtual_row(), 3);
    state.cursor_down(2);
    assert_eq!(state.cursor.virtual_row(), 5);
    state.cursor_up(1);
    assert_eq!(state.cursor.virtual_row(), 4);
    state.cursor_up(1);
    assert_eq!(state.cursor.virtual_row(), 3);
    // The rows between the code and the paragraph are passed over.
    state.cursor_up(1);
    assert_eq!(state.cursor.virtual_row(), 0);
}

#[test]
fn every_row_of_a_document_has_one_span_of_text_at_most() {
    let source = "# Title\n\nSome *long* paragraph that will be wrapped several times over.\n\n\
        > quote\n> - [x] task\n>   more\n\n1. one\n   - nested item\n2. two\n\n```rs\nfn f() {}\n```\n";
    for width in [0, 5, 12, 80] {
        let mut state = NoteEditorState::new(source, "Name");
        state.resize_viewport(Size { width, height: 10 });
        state.update_layout();
        for edited in [None, Some(1), Some(3)] {
            if let Some(block) = edited {
                state.set_view(View::Read);
                state.cursor_jump(block);
                state.set_view(View::Edit(EditMode::Source));
            }
            assert!(!state.virtual_document.lines().is_empty());
            for line in state.virtual_document.lines().iter().chain(state.virtual_document.meta()) {
                let texts = line.spans.iter().filter(|span| !span.is_synthetic()).count();
                assert!(texts <= 1);
            }
            let total: usize =
                state.virtual_document.blocks().iter().map(|block| block.lines().len()).sum();
            assert_eq!(state.virtual_document.lines().len(), total);
            assert_eq!(state.virtual_document.line_to_block().len(), total);
        }
    }
}

/// The ranges of a node and of all nodes nested in it, in the order of the tree.
fn all_ranges(node: &Node, ranges: &mut Vec<std::ops::Range<usize>>) {
    ranges.push(node.source_range().clone());
    match node {
        Node::BlockQuote { nodes, .. }
        | Node::List { nodes, .. }
        | Node::Item { nodes, .. }
        | Node::Task { nodes, .. } => nodes.iter().for_each(|node| all_ranges(node, ranges)),
        _ => {}
    }
}

fn tree_ranges(state: &NoteEditorState) -> Vec<std::ops::Range<usize>> {
    let mut ranges = Vec::new();
    state.ast_nodes.iter().for_each(|node| all_ranges(node, &mut ranges));
    ranges
}

#[test]
fn ranges_of_nested_nodes_shift_with_an_edit() {
    let mut state = NoteEditorState::new("intro\n\n- one\n- two\n  - three\n\n> quote\n", "");
    // paragraph, list, item, its text, item, its text, nested list, item, its text, quote, its text
    assert_eq!(
        tree_ranges(&state),
        [0..6, 7..30, 7..13, 7..13, 13..30, 13..30, 21..30, 21..30, 21..30, 30..38, 32..38]
    );
    state.shift_source_ranges(16, 1);
    assert_eq!(
        tree_ranges(&state),
        [0..6, 7..31, 7..13, 7..13, 13..31, 13..31, 22..31, 22..31, 22..31, 31..39, 33..39]
    );
    state.shift_source_ranges(16, -1);
    assert_eq!(
        tree_ranges(&state),
        [0..6, 7..30, 7..13, 7..13, 13..30, 13..30, 21..30, 21..30, 21..30, 30..38, 32..38]
    );
    state.shift_source_ranges(0, -1);
    assert_eq!(
        tree_ranges(&state),
        [0..5, 6..29, 6..12, 6..12, 12..29, 12..29, 20..29, 20..29, 20..29, 29..37, 31..37]
    );
    // A bound does not leave the range of the offsets.
    let mut state = NoteEditorState::new("a\n", "");
    state.shift_source_ranges(0, isize::MIN);
    assert_eq!(tree_ranges(&state), [0..0]);
    state.shift_source_ranges(0, isize::MAX);
    assert_eq!(tree_ranges(&state), [0..0]);
    let mut state = NoteEditorState::new("a\n", "");
    state.shift_source_ranges(0, isize::MAX);
    state.shift_source_ranges(0, isize::MAX);
    state.shift_source_ranges(0, 1);
    assert_eq!(tree_ranges(&state), [0..usize::MAX]);
}

#[test]
fn changes_written_back_before_still_count_while_editing() {
    let mut state = opened();
    state.cursor_jump(1);
    state.set_view(View::Edit(EditMode::Source));
    state.insert_char('x');
    state.set_view(View::Read);
    assert!(state.modified());
    // Another edit, with nothing typed: the document is still not saved.
    state.set_view(View::Edit(EditMode::Source));
    assert!(state.modified());
    assert_eq!(state.pending_save(), Some(state.content.as_str()));
    state.set_view(View::Read);
    assert!(state.modified());
    state.mark_saved();
    state.set_view(View::Edit(EditMode::Source));
    assert!(!state.modified());
    state.set_view(View::Read);
    assert!(!state.modified());
}
