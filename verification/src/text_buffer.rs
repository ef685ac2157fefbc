//! The text buffer: a scratch copy of the source text of one block, which is
//! what changes while the block is being edited.

use vstd::prelude::*;

use crate::ast::{copy_range, SourceRange};
use crate::text::{
    byte_offset, char_index, from_chars, lemma_char_index, lemma_char_index_bounds, locate,
    sat_add, sat_sub, to_chars, utf8_len,
};

verus! {

#[derive(Clone, Debug)]
pub struct TextBuffer {
    pub content: String,
    pub source_range: SourceRange<usize>,
    pub modified: bool,
    /// The range of the document that the buffer was made from.
    pub original_source_range: SourceRange<usize>,
}

pub struct TextBufferView {
    pub content: Seq<char>,
    pub source_range: SourceRange<usize>,
    pub modified: bool,
    pub original_source_range: SourceRange<usize>,
}

impl View for TextBuffer {
    type V = TextBufferView;

    open spec fn view(&self) -> TextBufferView {
        TextBufferView {
            content: self.content@,
            source_range: self.source_range,
            modified: self.modified,
            original_source_range: self.original_source_range,
        }
    }
}

impl TextBufferView {
    /// The buffer as it is when a block is taken up for editing.
    pub open spec fn fresh(content: Seq<char>, source_range: SourceRange<usize>) -> TextBufferView {
        TextBufferView {
            content,
            source_range,
            modified: false,
            original_source_range: source_range,
        }
    }

    /// The byte offset inside the buffer that a byte offset of the document
    /// stands for.
    pub open spec fn local(self, offset: usize) -> int {
        sat_sub(offset, self.source_range.start) as int
    }

    /// The buffer after `c` has been inserted at byte offset `offset` of the
    /// document, moved back to the start of a character if it lies inside
    /// one, and to the end of the buffer if it lies behind it. The range
    /// grows by the bytes of `c`.
    pub open spec fn inserted(self, c: char, offset: usize) -> TextBufferView {
        TextBufferView {
            content: self.content.insert(char_index(self.content, self.local(offset)), c),
            source_range: SourceRange {
                start: self.source_range.start,
                end: sat_add(self.source_range.end as nat, utf8_len(c)),
            },
            modified: true,
            ..self
        }
    }

    /// The index of the character that a deletion at byte offset `offset` of
    /// the document removes: the one before the offset, or the first one if
    /// the offset stands at the start.
    pub open spec fn deletion_index(self, offset: usize) -> int {
        let index = char_index(self.content, self.local(offset));
        if index > 0 {
            index - 1
        } else {
            0
        }
    }

    /// The buffer after the character at `deletion_index` has been removed,
    /// if there is one. The range shrinks by the bytes of the character.
    pub open spec fn deleted(self, offset: usize) -> TextBufferView {
        let index = self.deletion_index(offset);
        if index < self.content.len() {
            TextBufferView {
                content: self.content.remove(index),
                source_range: SourceRange {
                    start: self.source_range.start,
                    end: sat_sub(self.source_range.end, utf8_len(self.content[index]) as usize),
                },
                modified: true,
                ..self
            }
        } else {
            self
        }
    }

    /// The document with the buffer written back: the content takes the place
    /// of the range that the buffer was made from, if the buffer has been
    /// modified. The bounds of the range are moved back to the start of a
    /// character where they lie inside one.
    pub open spec fn written(self, original: Seq<char>) -> Seq<char> {
        if self.modified {
            let start = char_index(original, self.original_source_range.start as int);
            let end = char_index(original, self.original_source_range.end as int);
            original.take(start) + self.content + original.skip(
                if end >= start {
                    end
                } else {
                    start
                },
            )
        } else {
            original
        }
    }
}

impl TextBuffer {
    pub fn new(content: &str, source_range: SourceRange<usize>) -> (buffer: Self)
        ensures
            buffer@ == TextBufferView::fresh(content@, source_range),
    {
        Self {
            content: content.to_owned(),
            original_source_range: copy_range(&source_range),
            source_range,
            modified: false,
        }
    }

    pub fn insert_char(&mut self, c: char, idx: usize)
        ensures
            final(self)@ == old(self)@.inserted(c, idx),
    {
        let local = idx.saturating_sub(self.source_range.start);
        let chars = to_chars(self.content.as_str());
        let (index, _) = locate(&chars, local);
        let mut content = from_chars(&chars, 0, index);
        content.push(c);
        content.push_str(from_chars(&chars, index, chars.len()).as_str());
        assert(content@ =~= chars@.insert(index as int, c));
        self.content = content;
        self.source_range.end = self.source_range.end.saturating_add(c.len_utf8());
        self.modified = true;
    }

    pub fn delete_char(&mut self, idx: usize)
        ensures
            final(self)@ == old(self)@.deleted(idx),
    {
        let local = idx.saturating_sub(self.source_range.start);
        let chars = to_chars(self.content.as_str());
        let (index, _) = locate(&chars, local);
        let target = if index > 0 {
            index - 1
        } else {
            0
        };
        if target < chars.len() {
            let mut content = from_chars(&chars, 0, target);
            content.push_str(from_chars(&chars, target + 1, chars.len()).as_str());
            assert(content@ =~= chars@.remove(target as int));
            self.content = content;
            self.source_range.end = self.source_range.end.saturating_sub(chars[target].len_utf8());
            self.modified = true;
        }
    }

    pub fn write(&self, original_content: &str) -> (written: String)
        ensures
            written@ == self@.written(original_content@),
    {
        if self.modified {
            let chars = to_chars(original_content);
            let (start, _) = locate(&chars, self.original_source_range.start);
            let (end, _) = locate(&chars, self.original_source_range.end);
            let rest = if end >= start {
                end
            } else {
                start
            };
            let mut written = from_chars(&chars, 0, start);
            written.push_str(self.content.as_str());
            written.push_str(from_chars(&chars, rest, chars.len()).as_str());
            assert(written@ =~= self@.written(original_content@));
            written
        } else {
            original_content.to_owned()
        }
    }

    /// A copy of the buffer.
    pub fn duplicate(&self) -> (buffer: Self)
        ensures
            buffer@ == self@,
    {
        Self {
            content: self.content.clone(),
            source_range: copy_range(&self.source_range),
            modified: self.modified,
            original_source_range: copy_range(&self.original_source_range),
        }
    }
}

/// A buffer that has not been modified writes the document back as it was.
pub proof fn lemma_unmodified_write(buffer: TextBufferView, original: Seq<char>)
    requires
        !buffer.modified,
    ensures
        buffer.written(original) == original,
{
}

/// Writing back a buffer that was made from a part of the document and not
/// changed since gives the document, even if the buffer counts as modified.
pub proof fn lemma_write_same_content(buffer: TextBufferView, original: Seq<char>)
    requires
        buffer.original_source_range.start <= buffer.original_source_range.end,
        crate::text::byte_slice(
            original,
            buffer.original_source_range.start,
            buffer.original_source_range.end,
        ) == Some(buffer.content),
    ensures
        buffer.written(original) == original,
{
    let start = char_index(original, buffer.original_source_range.start as int);
    let end = char_index(original, buffer.original_source_range.end as int);
    lemma_char_index_bounds(original, buffer.original_source_range.start as int);
    lemma_char_index_bounds(original, buffer.original_source_range.end as int);
    if end < start {
        crate::text::lemma_byte_offset_increases(original, end, start);
    }
    assert(original.take(start) + original.subrange(start, end) + original.skip(end) =~= original);
}


/// Deleting just behind a character that has been inserted undoes the
/// insertion: the content and the range are as they were. `next` is the byte
/// offset of the document just behind the inserted character.
pub proof fn lemma_insert_then_delete(buffer: TextBufferView, c: char, offset: usize, next: usize)
    requires
        buffer.source_range.end + utf8_len(c) <= usize::MAX,
        next == buffer.source_range.start + byte_offset(
            buffer.inserted(c, offset).content,
            char_index(buffer.content, buffer.local(offset)) + 1,
        ),
    ensures
        buffer.inserted(c, offset).deleted(next).content == buffer.content,
        buffer.inserted(c, offset).deleted(next).source_range == buffer.source_range,
{
    let index = char_index(buffer.content, buffer.local(offset));
    lemma_char_index_bounds(buffer.content, buffer.local(offset));
    let after = buffer.inserted(c, offset);
    assert(after.content[index] == c);
    assert(after.local(next) == byte_offset(after.content, index + 1));
    if index + 1 < after.content.len() {
        assert(after.content.take(index + 2).drop_last() =~= after.content.take(index + 1));
    }
    lemma_char_index(after.content, after.local(next), index + 1);
    assert(after.deletion_index(next) == index);
    assert(after.content.remove(index) =~= buffer.content);
}

} // verus!
