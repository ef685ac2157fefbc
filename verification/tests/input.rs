use basalt::input::{Callback, InputModalState};
use basalt::mode::Mode;
use basalt::note::{Directory, Note};

#[test]
fn the_cursor_starts_behind_the_text() {
    let state = InputModalState::new("héllo", 3, true);
    assert_eq!(state.input(), "héllo");
    assert_eq!(state.cursor_col(), 5);
    assert!(state.is_editing());
    assert!(state.visible());
    assert!(!state.modified());
}

#[test]
fn typing_and_deleting_go_by_characters() {
    let mut state = InputModalState::new("héllo", 0, false);
    state.cursor_left(4);
    assert_eq!(state.cursor_col(), 1);
    state.insert_char('😀');
    assert_eq!((state.input(), state.cursor_col()), ("h😀éllo", 2));
    assert!(state.modified());
    state.cursor_right(1);
    state.delete_char();
    assert_eq!((state.input(), state.cursor_col()), ("h😀llo", 2));
    state.delete_char();
    assert_eq!((state.input(), state.cursor_col()), ("hllo", 1));
    state.insert_char('é');
    assert_eq!((state.input(), state.cursor_col()), ("héllo", 2));
    // The text is the one that the input was opened with.
    assert!(!state.modified());
    state.cursor_left(10);
    state.delete_char();
    assert_eq!((state.input(), state.cursor_col()), ("héllo", 0));
    state.cursor_right(usize::MAX);
    assert_eq!(state.cursor_col(), 5);
}

#[test]
fn the_cursor_moves_by_words() {
    let mut state = InputModalState::new("one  two three", 0, false);
    state.cursor_word_backward();
    assert_eq!(state.cursor_col(), 9);
    state.cursor_word_backward();
    assert_eq!(state.cursor_col(), 5);
    state.cursor_left(1);
    state.cursor_word_backward();
    assert_eq!(state.cursor_col(), 0);
    state.cursor_word_backward();
    assert_eq!(state.cursor_col(), 0);
    state.cursor_word_forward();
    assert_eq!(state.cursor_col(), 5);
    state.cursor_right(1);
    state.cursor_word_forward();
    assert_eq!(state.cursor_col(), 9);
    state.cursor_word_forward();
    assert_eq!(state.cursor_col(), 14);
    state.cursor_word_forward();
    assert_eq!(state.cursor_col(), 14);
}

#[test]
fn the_callback_is_handed_out_once() {
    let mut state = InputModalState::new("", 0, false);
    assert_eq!(state.run_callback(), None);
    let note = Note::new_unchecked("Note", "vault/Note.md");
    assert_eq!((note.name(), note.path()), ("Note", "vault/Note.md"));
    state.set_callback(&Callback::RenameNote(note.clone()));
    state.set_input("Renamed");
    state.set_label("Rename");
    state.set_row(4);
    state.set_offset_x(2);
    state.toggle_visibility();
    assert!(state.visible());
    assert_eq!(state.cursor_col(), 7);
    assert_eq!(state.run_callback(), Some((Callback::RenameNote(note), "Renamed".to_string())));
    assert_eq!(state.run_callback(), None);
    let directory = Directory { name: "dir".to_string(), path: "vault/dir".to_string() };
    state.set_callback(&Callback::RenameDir(directory.clone()));
    assert_eq!(state.run_callback(), Some((Callback::RenameDir(directory), "Renamed".to_string())));
}

#[test]
fn modes_have_names() {
    assert_eq!(Mode::default(), Mode::Select);
    assert_eq!(Mode::Select.as_str(), "Select");
    assert_eq!(Mode::Normal.as_str(), "Normal");
    assert_eq!(Mode::Insert.as_str(), "Insert");
}
