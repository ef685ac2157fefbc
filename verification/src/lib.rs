//! Rendering and editing core of a terminal Markdown note viewer.
//!
//! A Markdown document is parsed into a tree of blocks that remember their
//! byte ranges in the source. The blocks are laid out as wrapped, styled
//! virtual lines, and a cursor is kept in step between byte offsets in the
//! source and rows and columns of that layout.

pub mod ast;
pub mod cursor;
pub mod editor;
pub mod input;
pub mod mode;
pub mod note;
pub mod parser;
pub mod render;
pub mod rich_text;
pub mod span;
pub mod state;
pub mod stylized_text;
pub mod text;
pub mod text_buffer;
pub mod text_wrap;
pub mod viewport;
pub mod virtual_document;
