//! The state of a one-line text input: the text, the cursor as a character
//! index into it, and what is to be done with the text once it is accepted.

use vstd::prelude::*;

use crate::cursor::{next_word, previous_word};
use crate::note::{Directory, DirectoryView, Note, NoteView};
use crate::text::{from_chars, to_chars};

verus! {

#[derive(Clone, Copy, Debug, PartialEq, Eq, Structural)]
pub enum InputMode {
    Normal,
    Editing,
}

impl Default for InputMode {
    fn default() -> (mode: Self)
        ensures
            mode == InputMode::Normal,
    {
        InputMode::Normal
    }
}

/// What the accepted text is for.
#[derive(Clone, Debug, PartialEq)]
pub enum Callback {
    RenameDir(Directory),
    RenameNote(Note),
}

pub enum CallbackView {
    RenameDir(DirectoryView),
    RenameNote(NoteView),
}

impl View for Callback {
    type V = CallbackView;

    open spec fn view(&self) -> CallbackView {
        match self {
            Callback::RenameDir(directory) => CallbackView::RenameDir(directory@),
            Callback::RenameNote(note) => CallbackView::RenameNote(note@),
        }
    }
}

impl Callback {
    /// A copy of the callback.
    pub fn duplicate(&self) -> (callback: Self)
        ensures
            callback@ == self@,
    {
        match self {
            Callback::RenameDir(directory) => Callback::RenameDir(directory.duplicate()),
            Callback::RenameNote(note) => Callback::RenameNote(note.duplicate()),
        }
    }
}

pub open spec fn option_callback_view(callback: Option<Callback>) -> Option<CallbackView> {
    match callback {
        Some(callback) => Some(callback@),
        None => None,
    }
}

#[derive(Clone, Debug, PartialEq)]
pub struct InputModalState {
    input: String,
    input_original: String,
    cursor_col: usize,
    cursor_row: usize,
    input_mode: InputMode,
    scroll: usize,
    modified: bool,
    visible: bool,
    label: String,
    offset_x: usize,
    callback: Option<Callback>,
}

pub struct InputView {
    pub input: Seq<char>,
    pub input_original: Seq<char>,
    pub cursor_col: usize,
    pub cursor_row: usize,
    pub input_mode: InputMode,
    pub scroll: usize,
    pub modified: bool,
    pub visible: bool,
    pub label: Seq<char>,
    pub offset_x: usize,
    pub callback: Option<CallbackView>,
}

impl View for InputModalState {
    type V = InputView;

    closed spec fn view(&self) -> InputView {
        InputView {
            input: self.input@,
            input_original: self.input_original@,
            cursor_col: self.cursor_col,
            cursor_row: self.cursor_row,
            input_mode: self.input_mode,
            scroll: self.scroll,
            modified: self.modified,
            visible: self.visible,
            label: self.label@,
            offset_x: self.offset_x,
            callback: option_callback_view(self.callback),
        }
    }
}

impl InputView {
    /// The input as it is opened with a text: the cursor stands behind the
    /// text.
    pub open spec fn opened(value: Seq<char>, row: usize, visible: bool) -> InputView {
        InputView {
            input: value,
            input_original: value,
            cursor_col: value.len() as usize,
            cursor_row: row,
            input_mode: InputMode::Editing,
            scroll: 0,
            modified: false,
            visible,
            label: "Input"@,
            offset_x: 0,
            callback: None,
        }
    }

    /// The index of the character at the cursor, or the length of the text
    /// if the cursor stands behind it.
    pub open spec fn char_index(self) -> int {
        if self.cursor_col <= self.input.len() {
            self.cursor_col as int
        } else {
            self.input.len() as int
        }
    }

    /// `position`, or the length of the text where it lies behind it.
    pub open spec fn clamp_cursor(self, position: usize) -> usize {
        if position <= self.input.len() {
            position
        } else {
            self.input.len() as usize
        }
    }

    pub open spec fn moved_left(self, amount: usize) -> InputView {
        InputView {
            cursor_col: self.clamp_cursor(
                if self.cursor_col >= amount {
                    (self.cursor_col - amount) as usize
                } else {
                    0
                },
            ),
            ..self
        }
    }

    pub open spec fn moved_right(self, amount: usize) -> InputView {
        InputView {
            cursor_col: self.clamp_cursor(
                if self.cursor_col + amount <= usize::MAX {
                    (self.cursor_col + amount) as usize
                } else {
                    usize::MAX
                },
            ),
            ..self
        }
    }

    /// The input with the cursor moved back to the start of the word before
    /// it.
    pub open spec fn moved_word_backward(self) -> InputView {
        InputView {
            cursor_col: (self.cursor_col - (self.char_index() - previous_word(
                self.input,
                self.char_index(),
            ))) as usize,
            ..self
        }
    }

    /// The input with the cursor moved to the start of the next word.
    pub open spec fn moved_word_forward(self) -> InputView {
        let target = self.cursor_col + (next_word(self.input, self.char_index())
            - self.char_index());
        InputView {
            cursor_col: if target <= usize::MAX {
                target as usize
            } else {
                usize::MAX
            },
            ..self
        }
    }

    /// The input after `c` has been typed at the cursor.
    pub open spec fn with_char(self, c: char) -> InputView {
        let input = self.input.insert(self.char_index(), c);
        (InputView { input, modified: input != self.input_original, ..self }).moved_right(1)
    }

    /// The input after the character before the cursor has been deleted, if
    /// there is one.
    pub open spec fn without_char(self) -> InputView {
        if self.char_index() > 0 && self.cursor_col <= self.input.len() {
            let input = self.input.remove(self.cursor_col - 1);
            (InputView { input, modified: input != self.input_original, ..self }).moved_left(1)
        } else {
            self
        }
    }
}

impl InputModalState {
    pub fn new(value: &str, row: usize, visible: bool) -> (state: Self)
        ensures
            state@ == InputView::opened(value@, row, visible),
    {
        Self {
            input: value.to_owned(),
            input_original: value.to_owned(),
            cursor_col: value.unicode_len(),
            cursor_row: row,
            input_mode: InputMode::Editing,
            scroll: 0,
            offset_x: 0,
            modified: false,
            visible,
            label: "Input".to_owned(),
            callback: None,
        }
    }

    pub fn set_input(&mut self, value: &str)
        ensures
            final(self)@ == (InputView {
                input: value@,
                input_original: value@,
                scroll: 0,
                cursor_col: value@.len() as usize,
                input_mode: InputMode::Editing,
                ..old(self)@
            }),
    {
        self.input = value.to_owned();
        self.input_original = value.to_owned();
        self.scroll = 0;
        self.cursor_col = value.unicode_len();
        self.input_mode = InputMode::Editing;
    }

    pub fn set_label(&mut self, label: &str)
        ensures
            final(self)@ == (InputView { label: label@, ..old(self)@ }),
    {
        self.label = label.to_owned();
    }

    pub fn set_row(&mut self, row: usize)
        ensures
            final(self)@ == (InputView { cursor_row: row, ..old(self)@ }),
    {
        self.cursor_row = row;
    }

    pub fn set_offset_x(&mut self, x: usize)
        ensures
            final(self)@ == (InputView { offset_x: x, ..old(self)@ }),
    {
        self.offset_x = x;
    }

    pub fn set_callback(&mut self, callback: &Callback)
        ensures
            final(self)@ == (InputView { callback: Some(callback@), ..old(self)@ }),
    {
        self.callback = Some(callback.duplicate());
    }

    /// Hands out what is to be done with the text: the callback that was
    /// set, if any, and the text. The callback is cleared.
    pub fn run_callback(&mut self) -> (task: Option<(Callback, String)>)
        ensures
            final(self)@ == (InputView { callback: None, ..old(self)@ }),
            match task {
                Some((callback, input)) => old(self)@.callback == Some(callback@) && input@ == old(
                    self,
                )@.input,
                None => old(self)@.callback.is_none(),
            },
    {
        let callback = self.callback.take();
        match callback {
            Some(callback) => Some((callback, self.input.clone())),
            None => None,
        }
    }

    pub fn toggle_visibility(&mut self)
        ensures
            final(self)@ == (InputView { visible: !old(self)@.visible, ..old(self)@ }),
    {
        self.visible = !self.visible;
    }

    pub fn is_editing(&self) -> (editing: bool)
        ensures
            editing == (self@.input_mode == InputMode::Editing),
    {
        matches!(self.input_mode, InputMode::Editing)
    }

    /// The text of the input.
    pub fn input(&self) -> (input: &str)
        ensures
            input@ == self@.input,
    {
        self.input.as_str()
    }

    /// The index of the character that the cursor stands at.
    pub fn cursor_col(&self) -> (col: usize)
        ensures
            col == self@.cursor_col,
    {
        self.cursor_col
    }

    /// Whether the text differs from the text that the input was opened
    /// with.
    pub fn modified(&self) -> (modified: bool)
        ensures
            modified == self@.modified,
    {
        self.modified
    }

    /// Whether the input is shown.
    pub fn visible(&self) -> (visible: bool)
        ensures
            visible == self@.visible,
    {
        self.visible
    }

    pub fn cursor_left(&mut self, amount: usize)
        ensures
            final(self)@ == old(self)@.moved_left(amount),
    {
        let new_cursor_pos = self.cursor_col.saturating_sub(amount);
        self.cursor_col = self.clamp_cursor(new_cursor_pos);
    }

    pub fn cursor_right(&mut self, amount: usize)
        ensures
            final(self)@ == old(self)@.moved_right(amount),
    {
        let new_cursor_pos = self.cursor_col.saturating_add(amount);
        self.cursor_col = self.clamp_cursor(new_cursor_pos);
    }

    pub fn cursor_word_backward(&mut self)
        ensures
            final(self)@ == old(self)@.moved_word_backward(),
    {
        let chars = to_chars(self.input.as_str());
        let index = if self.cursor_col <= chars.len() {
            self.cursor_col
        } else {
            chars.len()
        };
        let mut i = index;
        while i > 0 && chars[i - 1] == ' '
            invariant
                i <= index <= chars.len(),
                crate::cursor::back_spaces(chars@, index as int) == crate::cursor::back_spaces(
                    chars@,
                    i as int,
                ),
            decreases i,
        {
            i -= 1;
        }
        let ghost word_end = i;
        while i > 0 && chars[i - 1] != ' '
            invariant
                i <= word_end <= chars.len(),
                crate::cursor::back_word(chars@, word_end as int) == crate::cursor::back_word(
                    chars@,
                    i as int,
                ),
            decreases i,
        {
            i -= 1;
        }
        self.cursor_col -= index - i;
    }

    pub fn cursor_word_forward(&mut self)
        ensures
            final(self)@ == old(self)@.moved_word_forward(),
    {
        let chars = to_chars(self.input.as_str());
        let index = if self.cursor_col <= chars.len() {
            self.cursor_col
        } else {
            chars.len()
        };
        let mut i = index;
        while i < chars.len() && chars[i] != ' '
            invariant
                index <= i <= chars.len(),
                crate::cursor::skip_word(chars@, index as int) == crate::cursor::skip_word(
                    chars@,
                    i as int,
                ),
            decreases chars.len() - i,
        {
            i += 1;
        }
        let ghost word_end = i;
        while i < chars.len() && chars[i] == ' '
            invariant
                word_end <= i <= chars.len(),
                crate::cursor::skip_spaces(chars@, word_end as int) == crate::cursor::skip_spaces(
                    chars@,
                    i as int,
                ),
            decreases chars.len() - i,
        {
            i += 1;
        }
        self.cursor_col = self.cursor_col.saturating_add(i - index);
    }

    pub fn insert_char(&mut self, char: char)
        ensures
            final(self)@ == old(self)@.with_char(char),
    {
        let chars = to_chars(self.input.as_str());
        let index = if self.cursor_col <= chars.len() {
            self.cursor_col
        } else {
            chars.len()
        };
        let mut input = from_chars(&chars, 0, index);
        input.push(char);
        input.push_str(from_chars(&chars, index, chars.len()).as_str());
        assert(input@ =~= chars@.insert(index as int, char));
        self.input = input;
        self.modified = self.input != self.input_original;
        self.cursor_right(1);
    }

    pub fn delete_char(&mut self)
        ensures
            final(self)@ == old(self)@.without_char(),
    {
        let chars = to_chars(self.input.as_str());
        if self.cursor_col == 0 || chars.len() == 0 || self.cursor_col > chars.len() {
            return ;
        }
        let target = self.cursor_col - 1;
        let mut input = from_chars(&chars, 0, target);
        input.push_str(from_chars(&chars, target + 1, chars.len()).as_str());
        assert(input@ =~= chars@.remove(target as int));
        self.input = input;
        self.modified = self.input != self.input_original;
        self.cursor_left(1);
    }

    fn clamp_cursor(&self, cursor_pos: usize) -> (clamped: usize)
        ensures
            clamped == self@.clamp_cursor(cursor_pos),
    {
        let count = self.input.as_str().unicode_len();
        if cursor_pos <= count {
            cursor_pos
        } else {
            count
        }
    }
}

} // verus!
