use basalt::cursor::{Cursor, CursorMode};
use basalt::editor::{update, Message};
use basalt::state::{EditMode, NoteEditorState, View};
use basalt::viewport::Size;

#[test]
fn messages_are_carried_out_one_at_a_time() {
    let mut state = NoteEditorState::new("# Title\n\nSome text\n", "Note");
    let messages = [
        Message::Resize(Size { width: 30, height: 8 }),
        Message::CursorDown(2),
        Message::SetView(View::Edit(EditMode::Source)),
        Message::CursorWordForward,
        Message::InsertChar('m'),
        Message::InsertChar('o'),
        Message::InsertChar('r'),
        Message::InsertChar('x'),
        Message::DeleteChar,
        Message::InsertChar('e'),
        Message::InsertChar(' '),
        Message::CursorLeft(2),
        Message::CursorRight(1),
        Message::CursorWordBackward,
        Message::SetView(View::Read),
        Message::JumpToBlock(0),
        Message::CursorUp(1),
    ];
    for message in &messages {
        update(message, &mut state);
    }
    assert_eq!(state.content, "# Title\n\nSome more text\n");
    assert!(state.modified());
    assert_eq!(state.view, View::Read);
    assert_eq!((state.cursor.virtual_row(), state.cursor.source_offset()), (0, 0));
}

#[test]
fn the_cursor_enters_the_block_of_its_row() {
    let mut state = NoteEditorState::new("# Title\n\nSome text\n", "");
    state.resize_viewport(Size { width: 30, height: 8 });
    let document = &state.virtual_document;
    let mut cursor = Cursor::new(3);
    cursor.cursor_down(2, document.lines());
    assert_eq!((cursor.virtual_line(), cursor.source_offset()), (2, 9));
    assert_eq!(cursor.find_source_line(document.lines()).map(|(row, _)| row), Some(2));
    assert_eq!(cursor.find_source_column(document.lines()[2].clone()), Some(0));
    cursor.cursor_up(1, document.lines());
    assert_eq!((cursor.virtual_line(), cursor.source_offset()), (0, 0));
    // The offset is brought into the block of the row.
    let mut cursor = Cursor::new(100);
    cursor.enter_edit_mode(document);
    assert_eq!((*cursor.mode(), cursor.source_offset()), (CursorMode::Edit, 8));
    cursor.enter_read_mode(document);
    assert_eq!((*cursor.mode(), cursor.virtual_line()), (CursorMode::Read, 0));
    let mut cursor = Cursor::new(12);
    assert_eq!(cursor.find_source_line(&[]), None);
    cursor.enter_read_mode(document);
    assert_eq!(cursor.virtual_line(), 2);
    cursor.enter_edit_mode(document);
    assert_eq!((*cursor.mode(), cursor.source_offset()), (CursorMode::Edit, 12));
}
