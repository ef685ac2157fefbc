//! The state of the note editor: the document, its tree and layout, the
//! cursor and the viewport, and the buffer of the block being edited.

use vstd::prelude::*;
use vstd::view::View as _;

use crate::ast::{
    lemma_node_views, node_views, shift_nodes, shifted_nodes, Node, NodeView, SourceRange,
};
use crate::cursor::{option_buffer_view, Cursor, CursorMode, CursorView, Message};
use crate::parser::{from_str, markdown_events, parsed_nodes};
use crate::text::{byte_slice, slice_bytes};
use crate::text_buffer::{TextBuffer, TextBufferView};
use crate::viewport::{Rect, Size, Viewport};
use crate::virtual_document::{block_views, VirtualDocument, VirtualDocumentView};

verus! {

#[derive(Clone, Copy, Debug, PartialEq, Eq, Structural)]
pub enum EditMode {
    /// Shows the markdown exactly as written
    Source,
}

impl Default for EditMode {
    fn default() -> (mode: Self)
        ensures
            mode == EditMode::Source,
    {
        EditMode::Source
    }
}

#[derive(Clone, Copy, Debug, PartialEq, Eq, Structural)]
pub enum View {
    Read,
    Edit(EditMode),
}

impl Default for View {
    fn default() -> (view: Self)
        ensures
            view == View::Read,
    {
        View::Read
    }
}

impl View {
    /// The view's name, as it is shown.
    pub open spec fn name(self) -> Seq<char> {
        match self {
            View::Read => "READ"@,
            View::Edit(_) => "EDIT"@,
        }
    }

    pub fn to_string(&self) -> (s: String)
        ensures
            s@ == self.name(),
    {
        match self {
            View::Read => "READ".to_owned(),
            View::Edit(_) => "EDIT".to_owned(),
        }
    }
}


/// A copy of an optional text buffer.
fn duplicate_buffer(buffer: &Option<TextBuffer>) -> (copy: Option<TextBuffer>)
    ensures
        option_buffer_view(copy) == option_buffer_view(*buffer),
{
    match buffer {
        Some(buffer) => Some(buffer.duplicate()),
        None => None,
    }
}

pub struct NoteEditorState {
    pub content: String,
    pub view: View,
    pub cursor: Cursor,
    pub ast_nodes: Vec<Node>,
    pub virtual_document: VirtualDocument,
    filename: String,
    active: bool,
    modified: bool,
    viewport: Viewport,
    text_buffer: Option<TextBuffer>,
}

pub struct StateView {
    pub content: Seq<char>,
    pub view: View,
    pub cursor: CursorView,
    pub ast_nodes: Seq<NodeView>,
    pub document: VirtualDocumentView,
    pub filename: Seq<char>,
    pub active: bool,
    pub modified: bool,
    pub viewport: Rect,
    pub text_buffer: Option<TextBufferView>,
}

impl vstd::view::View for NoteEditorState {
    type V = StateView;

    closed spec fn view(&self) -> StateView {
        StateView {
            content: self.content@,
            view: self.view,
            cursor: self.cursor@,
            ast_nodes: node_views(self.ast_nodes@),
            document: self.virtual_document@,
            filename: self.filename@,
            active: self.active,
            modified: self.modified,
            viewport: self.viewport@,
            text_buffer: option_buffer_view(self.text_buffer),
        }
    }
}

/// The scroll that brings row `row` into the window: up to the row if it
/// lies above, down so that it is the last row shown if it lies below, the
/// rows of the title taken into account.
pub open spec fn scroll_to_show(row: usize, viewport: Rect, meta_len: nat) -> int {
    let bottom = viewport.bottom() - meta_len;
    if row < viewport.top() {
        row - viewport.top()
    } else if row >= bottom {
        row - bottom + 1
    } else {
        0
    }
}

/// `v` as an `i32`, or the nearest `i32` where it is none.
pub open spec fn clamp_i32(v: int) -> i32 {
    if v < i32::MIN {
        i32::MIN
    } else if v > i32::MAX {
        i32::MAX
    } else {
        v as i32
    }
}

impl StateView {
    /// The state in which a document is opened.
    pub open spec fn opened(content: Seq<char>, filename: Seq<char>) -> StateView {
        StateView {
            content,
            view: View::Read,
            cursor: CursorView::at(0),
            ast_nodes: parsed_nodes(markdown_events(content)),
            document: VirtualDocumentView::empty(),
            filename,
            active: false,
            modified: false,
            viewport: Rect { x: 0, y: 0, width: 0, height: 0 },
            text_buffer: None,
        }
    }

    pub open spec fn is_editing(self) -> bool {
        self.view is Edit
    }

    /// Whether there are changes that have not been saved: those written
    /// back to the document before, and those of the buffer while a block is
    /// being edited.
    pub open spec fn is_modified(self) -> bool {
        self.modified || match self.text_buffer {
            Some(buffer) => buffer.modified,
            None => false,
        }
    }

    /// The index of the block that the cursor stands in; the first block if
    /// its row belongs to none.
    pub open spec fn current_block(self) -> usize {
        if self.cursor.virtual_row < self.document.line_to_block.len() {
            self.document.line_to_block[self.cursor.virtual_row as int]
        } else {
            0
        }
    }

    /// The block being edited, as the layout needs it.
    pub open spec fn active_block(self) -> Option<usize> {
        if self.is_editing() {
            Some(self.current_block())
        } else {
            None
        }
    }

    /// The state with the document laid out for `width` columns and block
    /// `active`, and the cursor placed in the new layout.
    pub open spec fn laid_out(self, active: Option<usize>, width: usize) -> StateView {
        let document = self.document.laid_out(
            self.filename,
            self.content,
            self.view,
            active,
            self.ast_nodes,
            width,
            self.text_buffer,
        );
        StateView {
            document,
            cursor: self.cursor.updated(
                Message::Jump(self.cursor.source_offset),
                document.lines,
                self.text_buffer,
            ),
            ..self
        }
    }

    /// The state with the layout brought up to date.
    pub open spec fn relaid(self) -> StateView {
        self.laid_out(self.active_block(), self.viewport.width as usize)
    }

    /// The state with the cursor told `message`.
    pub open spec fn with_cursor(self, message: Message) -> StateView {
        StateView {
            cursor: self.cursor.updated(message, self.document.lines, self.text_buffer),
            ..self
        }
    }

    /// The state with the window scrolled so that it shows the cursor.
    pub open spec fn cursor_shown(self) -> StateView {
        let scroll = scroll_to_show(self.cursor.virtual_row, self.viewport, self.document.meta.len());
        if scroll != 0 {
            StateView { viewport: self.viewport.moved(0, clamp_i32(scroll)), ..self }
        } else {
            self
        }
    }

    /// The state with block `block` taken up for editing: the buffer is made
    /// from the part of the document that the block stands for. Where the
    /// range of the block cuts no text out of the document, the buffer stays
    /// as it was; where there is no such block, the buffer is empty.
    pub open spec fn entered_insert(self, block: usize) -> StateView {
        if block < self.ast_nodes.len() {
            let range = self.ast_nodes[block as int].source_range();
            match byte_slice(self.content, range.start, range.end) {
                Some(text) => StateView {
                    text_buffer: Some(TextBufferView::fresh(text, range)),
                    ..self
                },
                None => self,
            }
        } else {
            StateView {
                text_buffer: Some(
                    TextBufferView::fresh(Seq::empty(), SourceRange { start: 0, end: 0 }),
                ),
                ..self
            }
        }
    }

    /// The state with the buffer written back and dropped. If that changes
    /// the document, the document is read anew and laid out, and counts as
    /// modified. Nothing happens while reading.
    pub open spec fn exited_insert(self) -> StateView {
        if self.view is Read {
            self
        } else {
            match self.text_buffer {
                Some(buffer) => {
                    let written = buffer.written(self.content);
                    if written != self.content {
                        StateView {
                            text_buffer: None,
                            modified: true,
                            ..(StateView {
                                content: written,
                                ast_nodes: parsed_nodes(markdown_events(written)),
                                ..self
                            }).relaid()
                        }
                    } else {
                        StateView { text_buffer: None, ..self }
                    }
                },
                None => self,
            }
        }
    }

    /// The state after a switch to `view`. A switch to reading ends the edit
    /// of a block; a switch to editing takes up the block of the cursor.
    pub open spec fn with_view(self, view: View) -> StateView {
        match view {
            View::Read => (StateView { view, ..self.exited_insert() }).relaid().with_cursor(
                Message::SwitchMode(CursorMode::Read),
            ),
            View::Edit(_) => (StateView { view, ..self }).entered_insert(
                self.current_block(),
            ).relaid().with_cursor(Message::SwitchMode(CursorMode::Edit)),
        }
    }

    /// The state with the ranges of all nodes of the tree shifted after an
    /// edit of `shift` bytes at byte offset `offset`.
    pub open spec fn with_shifted_ranges(self, offset: usize, shift: isize) -> StateView {
        StateView { ast_nodes: shifted_nodes(self.ast_nodes, offset, shift), ..self }
    }

    /// The state after `c` has been typed at the cursor. Nothing happens
    /// unless a block is being edited.
    pub open spec fn with_char(self, c: char) -> StateView {
        match self.text_buffer {
            Some(buffer) => (StateView {
                text_buffer: Some(buffer.inserted(c, self.cursor.source_offset)),
                ..self
            }).with_shifted_ranges(self.cursor.source_offset, 1).relaid().with_cursor(
                Message::MoveRight(1),
            ),
            None => self,
        }
    }

    /// The state after the character before the cursor has been deleted.
    /// Nothing happens unless a block is being edited, nor at its start.
    pub open spec fn without_char(self) -> StateView {
        match self.text_buffer {
            Some(buffer) => if buffer.source_range.start == self.cursor.source_offset {
                self
            } else {
                (StateView {
                    text_buffer: Some(buffer.deleted(self.cursor.source_offset)),
                    ..self
                }).with_shifted_ranges(self.cursor.source_offset, -1isize).relaid().with_cursor(
                    Message::MoveLeft(1),
                )
            },
            None => self,
        }
    }

    /// The state after the window has been given a new size. The document
    /// is laid out anew only if the width has changed.
    pub open spec fn resized(self, size: Size) -> StateView {
        if self.viewport.width != size.width || self.viewport.height != size.height {
            let relaid = if self.viewport.width != size.width {
                StateView {
                    document: self.document.laid_out(
                        self.filename,
                        self.content,
                        self.view,
                        self.active_block(),
                        self.ast_nodes,
                        size.width as usize,
                        self.text_buffer,
                    ),
                    ..self
                }
            } else {
                self
            };
            (StateView {
                viewport: Rect { width: size.width, height: size.height, ..self.viewport },
                ..relaid
            }).with_cursor(Message::Jump(self.cursor.source_offset)).cursor_shown()
        } else {
            self
        }
    }

    /// The state after the cursor has been told to move up or down. While
    /// editing, the block that the cursor arrives in is taken up for editing
    /// if it is another one.
    pub open spec fn moved_vertically(self, message: Message) -> StateView {
        let moved = self.with_cursor(message);
        if self.is_editing() && moved.current_block() != self.current_block() {
            moved.entered_insert(moved.current_block()).laid_out(
                Some(moved.current_block()),
                self.viewport.width as usize,
            ).cursor_shown()
        } else {
            moved.cursor_shown()
        }
    }

    /// The state after a jump to the start of block `index`, if there is such
    /// a block.
    pub open spec fn jumped_to_block(self, index: usize) -> StateView {
        if index < self.document.blocks.len() {
            self.with_cursor(
                Message::Jump(self.document.blocks[index as int].source_range.start),
            ).cursor_shown()
        } else {
            self.cursor_shown()
        }
    }
}

impl Default for NoteEditorState {
    fn default() -> (state: Self)
        ensures
            state@ == StateView::opened(""@, ""@),
    {
        NoteEditorState::new("", "")
    }
}

impl NoteEditorState {
    pub fn new(content: &str, filename: &str) -> (state: Self)
        ensures
            state@ == StateView::opened(content@, filename@),
    {
        let ast_nodes = from_str(content);
        Self {
            text_buffer: None,
            content: content.to_owned(),
            view: View::Read,
            cursor: Cursor::new(0),
            viewport: Viewport::default(),
            virtual_document: VirtualDocument::new(),
            filename: filename.to_owned(),
            ast_nodes,
            active: false,
            modified: false,
        }
    }

    /// Opens another document in place of the current one.
    pub fn load(&mut self, filename: &str, content: &str)
        ensures
            final(self)@ == StateView::opened(content@, filename@),
    {
        *self = Self::new(content, filename);
    }

    /// Replaces the document by `content`, keeping its name.
    pub fn set_content(&mut self, content: &str)
        ensures
            final(self)@ == StateView::opened(content@, old(self)@.filename),
    {
        let filename = self.filename.clone();
        *self = Self::new(content, filename.as_str());
    }

    pub fn viewport(&self) -> (viewport: &Viewport)
        ensures
            viewport@ == self@.viewport,
    {
        &self.viewport
    }

    pub fn is_editing(&self) -> (editing: bool)
        ensures
            editing == self@.is_editing(),
    {
        matches!(self.view, View::Edit(..))
    }

    pub fn text_buffer(&self) -> (buffer: Option<&TextBuffer>)
        ensures
            match buffer {
                Some(buffer) => self@.text_buffer == Some(buffer@),
                None => self@.text_buffer.is_none(),
            },
    {
        self.text_buffer.as_ref()
    }

    /// The name of the document.
    pub fn filename(&self) -> (name: &str)
        ensures
            name@ == self@.filename,
    {
        self.filename.as_str()
    }

    pub fn enter_insert(&mut self, block_idx: usize)
        ensures
            final(self)@ == old(self)@.entered_insert(block_idx),
    {
        proof {
            lemma_node_views(self.ast_nodes@);
        }
        if block_idx < self.ast_nodes.len() {
            let source_range = self.ast_nodes[block_idx].source_range();
            if let Some(content) = slice_bytes(
                self.content.as_str(),
                source_range.start,
                source_range.end,
            ) {
                self.text_buffer = Some(
                    TextBuffer::new(content.as_str(), source_range.start..source_range.end),
                );
            }
        } else {
            self.text_buffer = Some(TextBuffer::new("", 0..0));
            proof {
                reveal_strlit("");
            }
            assert(""@ =~= Seq::<char>::empty());
        }
    }

    pub fn exit_insert(&mut self)
        ensures
            final(self)@ == old(self)@.exited_insert(),
    {
        if matches!(self.view, View::Read) {
            return ;
        }
        let written = match &self.text_buffer {
            Some(buffer) => buffer.write(self.content.as_str()),
            None => {
                return ;
            },
        };
        if written != self.content {
            self.content = written;
            self.ast_nodes = from_str(self.content.as_str());
            self.update_layout();
            self.modified = true;
        }
        self.text_buffer = None;
    }

    pub fn insert_char(&mut self, c: char)
        ensures
            final(self)@ == old(self)@.with_char(c),
    {
        let insertion_offset = self.cursor.source_offset();
        match &mut self.text_buffer {
            Some(buffer) => {
                buffer.insert_char(c, insertion_offset);
            },
            None => {
                return ;
            },
        }
        // Shift source ranges of all nodes after the insertion point
        self.shift_source_ranges(insertion_offset, 1);
        self.update_layout();
        self.cursor_right(1);
    }

    pub fn delete_char(&mut self)
        ensures
            final(self)@ == old(self)@.without_char(),
    {
        let deletion_offset = self.cursor.source_offset();
        match &mut self.text_buffer {
            Some(buffer) => {
                if buffer.source_range.start == deletion_offset {
                    return ;
                }
                buffer.delete_char(deletion_offset);
            },
            None => {
                return ;
            },
        }
        // We shift by -1 to move ranges backwards
        self.shift_source_ranges(deletion_offset, -1);
        self.update_layout();
        self.cursor_left(1);
    }

    pub fn active(&self) -> (active: bool)
        ensures
            active == self@.active,
    {
        self.active
    }

    pub fn current_block(&self) -> (block: usize)
        ensures
            block == self@.current_block(),
    {
        let indices = self.virtual_document.line_to_block();
        let row = self.cursor.virtual_row();
        if row < indices.len() {
            indices[row]
        } else {
            0
        }
    }

    pub fn set_view(&mut self, view: View)
        ensures
            final(self)@ == old(self)@.with_view(view),
    {
        let block_idx = self.current_block();
        match view {
            View::Read => {
                self.exit_insert();
                self.view = view;
                self.update_layout();
                self.cursor.update(
                    Message::SwitchMode(CursorMode::Read),
                    self.virtual_document.lines(),
                    &self.text_buffer,
                );
            },
            View::Edit(..) => {
                self.view = view;
                self.enter_insert(block_idx);
                self.update_layout();
                self.cursor.update(
                    Message::SwitchMode(CursorMode::Edit),
                    self.virtual_document.lines(),
                    &self.text_buffer,
                );
            },
        }
    }

    pub fn resize_viewport(&mut self, size: Size)
        ensures
            final(self)@ == old(self)@.resized(size),
    {
        if self.viewport.size_changed(size) {
            if self.viewport.area().width != size.width {
                let current_block_idx = if self.is_editing() {
                    Some(self.current_block())
                } else {
                    None
                };
                self.virtual_document.layout(
                    self.filename.as_str(),
                    self.content.as_str(),
                    &self.view,
                    current_block_idx,
                    self.ast_nodes.as_slice(),
                    size.width as usize,
                    duplicate_buffer(&self.text_buffer),
                );
            }
            self.viewport.resize(size);
            self.cursor.update(
                Message::Jump(self.cursor.source_offset()),
                self.virtual_document.lines(),
                &self.text_buffer,
            );
            self.ensure_cursor_visible();
        }
    }

    /// Ensures the cursor is visible within the viewport by scrolling if necessary.
    /// This method should be called after any operation that might cause the cursor
    /// to move outside the visible area (e.g., resize, cursor movement).
    fn ensure_cursor_visible(&mut self)
        ensures
            final(self)@ == old(self)@.cursor_shown(),
    {
        let cursor_row = self.cursor.virtual_row();
        let viewport_top = self.viewport.top() as usize;
        let viewport_bottom = self.viewport.bottom() as usize;
        let meta_len = self.virtual_document.meta().len();
        if cursor_row < viewport_top {
            let up = viewport_top - cursor_row;
            let scroll: i32 = -(up as i32);
            self.viewport.scroll_by((scroll, 0));
        } else if viewport_bottom <= meta_len || cursor_row >= viewport_bottom - meta_len {
            // The rows of the title may be more than the window shows.
            let distance: u128 = if viewport_bottom >= meta_len {
                (cursor_row - (viewport_bottom - meta_len)) as u128 + 1
            } else {
                cursor_row as u128 + (meta_len - viewport_bottom) as u128 + 1
            };
            let scroll: i32 = if distance > i32::MAX as u128 {
                i32::MAX
            } else {
                distance as i32
            };
            self.viewport.scroll_by((scroll, 0));
        }
    }

    pub fn set_active(&mut self, active: bool)
        ensures
            final(self)@ == (StateView { active, ..old(self)@ }),
    {
        self.active = active;
    }

    pub fn modified(&self) -> (modified: bool)
        ensures
            modified == self@.is_modified(),
    {
        self.modified || match &self.text_buffer {
            Some(buffer) => buffer.modified,
            None => false,
        }
    }

    /// What is to be written to the document's file: the document, if there
    /// are changes that have not been saved.
    pub fn pending_save(&self) -> (content: Option<&str>)
        ensures
            match content {
                Some(content) => self@.is_modified() && content@ == self@.content,
                None => !self@.is_modified(),
            },
    {
        if self.modified() {
            Some(self.content.as_str())
        } else {
            None
        }
    }

    /// Takes note that the document has been written to its file.
    pub fn mark_saved(&mut self)
        ensures
            final(self)@ == (StateView { modified: false, ..old(self)@ }),
    {
        self.modified = false;
    }

    pub fn cursor_word_forward(&mut self)
        ensures
            final(self)@ == old(self)@.with_cursor(Message::MoveWordForward),
    {
        self.cursor.update(
            Message::MoveWordForward,
            self.virtual_document.lines(),
            &self.text_buffer,
        );
    }

    pub fn cursor_word_backward(&mut self)
        ensures
            final(self)@ == old(self)@.with_cursor(Message::MoveWordBackward),
    {
        self.cursor.update(
            Message::MoveWordBackward,
            self.virtual_document.lines(),
            &self.text_buffer,
        );
    }

    pub fn cursor_left(&mut self, amount: usize)
        ensures
            final(self)@ == old(self)@.with_cursor(Message::MoveLeft(amount)),
    {
        self.cursor.update(
            Message::MoveLeft(amount),
            self.virtual_document.lines(),
            &self.text_buffer,
        );
    }

    pub fn cursor_right(&mut self, amount: usize)
        ensures
            final(self)@ == old(self)@.with_cursor(Message::MoveRight(amount)),
    {
        self.cursor.update(
            Message::MoveRight(amount),
            self.virtual_document.lines(),
            &self.text_buffer,
        );
    }

    pub fn cursor_jump(&mut self, idx: usize)
        ensures
            final(self)@ == old(self)@.jumped_to_block(idx),
    {
        let blocks = self.virtual_document.blocks();
        if idx < blocks.len() {
            let start = blocks[idx].source_range.start;
            assert(block_views(blocks@)[idx as int] == blocks@[idx as int]@);
            self.cursor.update(
                Message::Jump(start),
                self.virtual_document.lines(),
                &self.text_buffer,
            );
        }
        self.ensure_cursor_visible();
    }

    pub fn update_layout(&mut self)
        ensures
            final(self)@ == old(self)@.relaid(),
    {
        let current_block_idx = if self.is_editing() {
            Some(self.current_block())
        } else {
            None
        };
        self.relayout(current_block_idx);
    }

    /// Lays the document out for block `active` and places the cursor in the
    /// new layout.
    fn relayout(&mut self, active: Option<usize>)
        ensures
            final(self)@ == old(self)@.laid_out(active, old(self)@.viewport.width as usize),
    {
        self.virtual_document.layout(
            self.filename.as_str(),
            self.content.as_str(),
            &self.view,
            active,
            self.ast_nodes.as_slice(),
            self.viewport.area().width as usize,
            duplicate_buffer(&self.text_buffer),
        );
        self.cursor.update(
            Message::Jump(self.cursor.source_offset()),
            self.virtual_document.lines(),
            &self.text_buffer,
        );
    }

    /// Moves the cursor up or down, and takes up the block it arrives in.
    fn move_vertically(&mut self, message: Message)
        ensures
            final(self)@ == old(self)@.moved_vertically(message),
    {
        let prev_block_idx = self.current_block();
        self.cursor.update(message, self.virtual_document.lines(), &self.text_buffer);
        if self.is_editing() {
            let current_block_idx = self.current_block();
            if current_block_idx != prev_block_idx {
                self.enter_insert(current_block_idx);
                // The rows have changed, so the cursor is placed anew from its offset.
                self.relayout(Some(current_block_idx));
            }
        }
        self.ensure_cursor_visible();
    }

    pub fn cursor_up(&mut self, amount: usize)
        ensures
            final(self)@ == old(self)@.moved_vertically(Message::MoveUp(amount)),
    {
        self.move_vertically(Message::MoveUp(amount));
    }

    pub fn cursor_down(&mut self, amount: usize)
        ensures
            final(self)@ == old(self)@.moved_vertically(Message::MoveDown(amount)),
    {
        self.move_vertically(Message::MoveDown(amount));
    }

    /// Shifts the ranges of all nodes of the tree, at any depth, after an edit
    /// of `shift` bytes at byte offset `offset`.
    ///
    /// This keeps the ranges of the other blocks close to the truth while a
    /// block is being edited. When the edit ends the document is read anew,
    /// so there is no need to be precise here.
    pub fn shift_source_ranges(&mut self, offset: usize, shift: isize)
        ensures
            final(self)@ == old(self)@.with_shifted_ranges(offset, shift),
    {
        self.shift_nodes(offset, shift);
    }

    /// Shifts the range of every node of the tree: of the top-level blocks
    /// and of all nodes nested in them.
    pub fn shift_nodes(&mut self, offset: usize, shift: isize)
        ensures
            final(self)@ == old(self)@.with_shifted_ranges(offset, shift),
    {
        let mut nodes: Vec<Node> = Vec::new();
        std::mem::swap(&mut self.ast_nodes, &mut nodes);
        self.ast_nodes = shift_nodes(nodes, offset, shift);
    }
}

/// Taking a block up for editing and ending the edit without a change to a
/// buffer leaves the document as it was, and leaves it as modified or
/// unmodified as it was: a document without changes that are not saved is
/// still one after it.
pub proof fn lemma_edit_round_trip(state: StateView, mode: EditMode)
    requires
        match state.text_buffer {
            Some(buffer) => !buffer.modified,
            None => true,
        },
    ensures
        state.with_view(View::Edit(mode)).with_view(View::Read).content == state.content,
        state.with_view(View::Edit(mode)).with_view(View::Read).is_modified()
            == state.is_modified(),
        state.with_view(View::Edit(mode)).is_modified() == state.is_modified(),
        state.with_view(View::Edit(mode)).with_view(View::Read).text_buffer.is_none(),
{
    let entered = (StateView { view: View::Edit(mode), ..state }).entered_insert(
        state.current_block(),
    );
    let editing = state.with_view(View::Edit(mode));
    assert(editing.text_buffer == entered.text_buffer);
    assert(editing.content == state.content);
    assert(editing.modified == state.modified);
    match editing.text_buffer {
        Some(buffer) => {
            assert(!buffer.modified);
            crate::text_buffer::lemma_unmodified_write(buffer, editing.content);
        },
        None => {},
    }
}

/// A document without changes that are not saved has none after a block has
/// been taken up for editing and the edit has been ended with nothing typed
/// or deleted in between.
pub proof fn lemma_unmodified_round_trip(state: StateView, mode: EditMode)
    requires
        !state.is_modified(),
    ensures
        state.with_view(View::Edit(mode)).with_view(View::Read).content == state.content,
        !state.with_view(View::Edit(mode)).is_modified(),
        !state.with_view(View::Edit(mode)).with_view(View::Read).is_modified(),
{
    lemma_edit_round_trip(state, mode);
}

/// After the window has been scrolled to show the cursor, the row of the
/// cursor lies in the window, above the rows that the title takes up. This
/// holds where the window is higher than the title and both the window and
/// the row of the cursor lie within the rows that a `u16` counts.
pub proof fn lemma_cursor_shown(state: StateView)
    requires
        state.document.meta.len() < state.viewport.height,
        state.viewport.y + state.viewport.height <= u16::MAX,
        state.cursor.virtual_row + state.document.meta.len() + 1 <= u16::MAX,
    ensures
        state.cursor_shown().viewport.top() <= state.cursor.virtual_row,
        state.cursor.virtual_row < state.cursor_shown().viewport.bottom()
            - state.document.meta.len(),
        state.cursor_shown().viewport.width == state.viewport.width,
        state.cursor_shown().viewport.height == state.viewport.height,
{
}

} // verus!
