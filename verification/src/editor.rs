//! The messages that drive the note editor, one at a time.

use vstd::prelude::*;
use vstd::view::View as _;

use crate::cursor;
use crate::state::{NoteEditorState, StateView, View};
use crate::viewport::Size;

verus! {

/// What the editor is told to do.
#[derive(Clone, Copy, Debug, PartialEq, Eq, Structural)]
pub enum Message {
    CursorUp(usize),
    CursorDown(usize),
    CursorLeft(usize),
    CursorRight(usize),
    CursorWordForward,
    CursorWordBackward,
    /// Move the cursor to the start of a top-level block.
    JumpToBlock(usize),
    /// Type a character at the cursor.
    InsertChar(char),
    /// Delete the character before the cursor.
    DeleteChar,
    /// Switch between reading and editing.
    SetView(View),
    /// Give the window a new size.
    Resize(Size),
}

/// The state after the editor has been told `message`.
pub open spec fn updated(state: StateView, message: Message) -> StateView {
    match message {
        Message::CursorUp(amount) => state.moved_vertically(cursor::Message::MoveUp(amount)),
        Message::CursorDown(amount) => state.moved_vertically(cursor::Message::MoveDown(amount)),
        Message::CursorLeft(amount) => state.with_cursor(cursor::Message::MoveLeft(amount)),
        Message::CursorRight(amount) => state.with_cursor(cursor::Message::MoveRight(amount)),
        Message::CursorWordForward => state.with_cursor(cursor::Message::MoveWordForward),
        Message::CursorWordBackward => state.with_cursor(cursor::Message::MoveWordBackward),
        Message::JumpToBlock(index) => state.jumped_to_block(index),
        Message::InsertChar(c) => state.with_char(c),
        Message::DeleteChar => state.without_char(),
        Message::SetView(view) => state.with_view(view),
        Message::Resize(size) => state.resized(size),
    }
}

/// Tells the editor what to do. Every message is carried out to its end
/// before the next is taken.
pub fn update(message: &Message, state: &mut NoteEditorState)
    ensures
        final(state)@ == updated(old(state)@, *message),
{
    match message {
        Message::CursorUp(amount) => state.cursor_up(*amount),
        Message::CursorDown(amount) => state.cursor_down(*amount),
        Message::CursorLeft(amount) => state.cursor_left(*amount),
        Message::CursorRight(amount) => state.cursor_right(*amount),
        Message::CursorWordForward => state.cursor_word_forward(),
        Message::CursorWordBackward => state.cursor_word_backward(),
        Message::JumpToBlock(index) => state.cursor_jump(*index),
        Message::InsertChar(c) => state.insert_char(*c),
        Message::DeleteChar => state.delete_char(),
        Message::SetView(view) => state.set_view(*view),
        Message::Resize(size) => state.resize_viewport(*size),
    }
}

} // verus!
