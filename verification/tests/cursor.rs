use basalt::ast::SourceRange;
use basalt::cursor::{
    source_offset_to_virtual_column, source_offset_to_virtual_line,
    virtual_position_to_source_offset, Cursor, CursorMode, Message,
};
use basalt::span::Span;
use basalt::text_buffer::TextBuffer;
use basalt::virtual_document::{VirtualLine, VirtualSpan};

fn content_line(text: &str, range: SourceRange<usize>) -> VirtualLine {
    VirtualLine::new(&[
        VirtualSpan::synthetic(Span::raw("")),
        VirtualSpan::content(Span::raw(text), &range),
    ])
}

fn decoration() -> VirtualLine {
    VirtualLine::new(&[VirtualSpan::synthetic(Span::raw("────"))])
}

#[test]
fn move_right_steps_over_a_wide_character() {
    let buffer = Some(TextBuffer::new("AB😀CD", 0..8));
    let lines = [content_line("AB😀CD", 0..8)];
    let mut cursor = Cursor::new(2);
    cursor.update(Message::MoveRight(1), &lines, &buffer);
    assert_eq!(cursor.source_offset(), 6);
    cursor.update(Message::MoveLeft(1), &lines, &buffer);
    assert_eq!(cursor.source_offset(), 2);
}

#[test]
fn motion_never_lands_inside_a_character() {
    let text = "AB😀CD";
    let buffer = Some(TextBuffer::new(text, 0..8));
    let lines = [content_line(text, 0..8)];
    for start in 0..8 {
        for amount in 0..8 {
            let mut cursor = Cursor::new(start);
            cursor.update(Message::MoveRight(amount), &lines, &buffer);
            assert!(text.is_char_boundary(cursor.source_offset()));
            cursor.update(Message::MoveLeft(amount), &lines, &buffer);
            assert!(text.is_char_boundary(cursor.source_offset()));
        }
    }
}

#[test]
fn horizontal_motion_stays_before_the_end_of_the_buffer() {
    let buffer = Some(TextBuffer::new("abc\n", 10..14));
    let lines = [content_line("abc", 10..14)];
    let mut cursor = Cursor::new(10);
    cursor.update(Message::MoveRight(100), &lines, &buffer);
    assert_eq!(cursor.source_offset(), 13);
    cursor.update(Message::MoveLeft(100), &lines, &buffer);
    assert_eq!(cursor.source_offset(), 10);
}

#[test]
fn horizontal_motion_needs_a_buffer() {
    let lines = [content_line("abc", 0..3)];
    let mut cursor = Cursor::new(1);
    cursor.update(Message::MoveRight(1), &lines, &None);
    assert_eq!(cursor.source_offset(), 1);
    cursor.update(Message::MoveWordForward, &lines, &None);
    assert_eq!(cursor.source_offset(), 1);
}

#[test]
fn word_motion_treats_a_run_of_spaces_as_one_border() {
    let text = "one  two three\n";
    let buffer = Some(TextBuffer::new(text, 0..15));
    let lines = [content_line(text, 0..15)];
    let mut cursor = Cursor::new(0);
    cursor.update(Message::MoveWordForward, &lines, &buffer);
    assert_eq!(cursor.source_offset(), 5);
    cursor.update(Message::MoveWordForward, &lines, &buffer);
    assert_eq!(cursor.source_offset(), 9);
    cursor.update(Message::MoveWordBackward, &lines, &buffer);
    assert_eq!(cursor.source_offset(), 5);
    cursor.update(Message::MoveWordBackward, &lines, &buffer);
    assert_eq!(cursor.source_offset(), 0);
}

#[test]
fn offsets_and_columns_agree_on_plain_text() {
    let line = VirtualLine::new(&[VirtualSpan::content(Span::raw("Hello"), &(0..5))]);
    for offset in 0..=5 {
        assert_eq!(source_offset_to_virtual_column(offset, &line), offset);
    }
    let lines = [line];
    for column in 0..=5 {
        assert_eq!(virtual_position_to_source_offset((0, column), &lines), Some(column));
    }
    assert_eq!(virtual_position_to_source_offset((0, 6), &lines), Some(5));
    assert_eq!(virtual_position_to_source_offset((1, 0), &lines), None);
}

#[test]
fn columns_count_display_widths() {
    let line = content_line("AB😀CD", 10..18);
    assert_eq!(source_offset_to_virtual_column(10, &line), 0);
    assert_eq!(source_offset_to_virtual_column(12, &line), 2);
    // Inside the emoji: the emoji itself does not count yet.
    assert_eq!(source_offset_to_virtual_column(14, &line), 2);
    assert_eq!(source_offset_to_virtual_column(16, &line), 4);
    assert_eq!(source_offset_to_virtual_column(17, &line), 5);
    let lines = [line];
    assert_eq!(virtual_position_to_source_offset((0, 0), &lines), Some(10));
    assert_eq!(virtual_position_to_source_offset((0, 2), &lines), Some(12));
    // Both columns of the emoji stand for the offset behind it.
    assert_eq!(virtual_position_to_source_offset((0, 3), &lines), Some(16));
    assert_eq!(virtual_position_to_source_offset((0, 4), &lines), Some(16));
    assert_eq!(virtual_position_to_source_offset((0, 5), &lines), Some(17));
    assert_eq!(virtual_position_to_source_offset((0, 9), &lines), Some(18));
}

#[test]
fn a_row_of_decoration_stands_for_no_offset() {
    let lines = [decoration()];
    assert_eq!(virtual_position_to_source_offset((0, 0), &lines), None);
    assert_eq!(virtual_position_to_source_offset((0, 3), &lines), None);
    assert_eq!(source_offset_to_virtual_line(0, &lines), None);
}

#[test]
fn the_later_row_wins_at_the_border_of_two_rows() {
    let lines = [content_line("ab ", 0..3), content_line("cd", 3..5), decoration()];
    assert_eq!(source_offset_to_virtual_line(0, &lines), Some(0));
    assert_eq!(source_offset_to_virtual_line(2, &lines), Some(0));
    assert_eq!(source_offset_to_virtual_line(3, &lines), Some(1));
    assert_eq!(source_offset_to_virtual_line(4, &lines), Some(1));
    // Behind the last row: the row that ends there.
    assert_eq!(source_offset_to_virtual_line(5, &lines), Some(1));
    assert_eq!(source_offset_to_virtual_line(6, &lines), None);
}

#[test]
fn vertical_motion_skips_rows_of_decoration() {
    let lines = [
        content_line("title", 0..6),
        decoration(),
        decoration(),
        content_line("a", 10..12),
        content_line("", 12..13),
        content_line("b", 13..15),
        decoration(),
        decoration(),
    ];
    let mut cursor = Cursor::new(13);
    cursor.update(Message::Jump(13), &lines, &None);
    assert_eq!(cursor.virtual_row(), 5);
    // The empty line of text is a row that can be reached.
    cursor.update(Message::MoveUp(1), &lines, &None);
    assert_eq!((cursor.virtual_row(), cursor.source_offset()), (4, 12));
    cursor.update(Message::MoveUp(1), &lines, &None);
    assert_eq!((cursor.virtual_row(), cursor.source_offset()), (3, 10));
    // The rows of decoration are passed over.
    cursor.update(Message::MoveUp(1), &lines, &None);
    assert_eq!((cursor.virtual_row(), cursor.source_offset()), (0, 0));
    cursor.update(Message::MoveUp(1), &lines, &None);
    assert_eq!((cursor.virtual_row(), cursor.source_offset()), (0, 0));
    cursor.update(Message::MoveDown(1), &lines, &None);
    assert_eq!((cursor.virtual_row(), cursor.source_offset()), (3, 10));
    cursor.update(Message::MoveDown(2), &lines, &None);
    assert_eq!((cursor.virtual_row(), cursor.source_offset()), (5, 13));
    // Below the last row of text there is nothing to move to.
    cursor.update(Message::MoveDown(1), &lines, &None);
    assert_eq!((cursor.virtual_row(), cursor.source_offset()), (5, 13));
}

#[test]
fn vertical_motion_keeps_the_column_while_editing() {
    let lines = [
        content_line("hello\n", 0..6),
        content_line("hi\n", 6..9),
        content_line("world", 9..14),
        decoration(),
    ];
    let buffer = Some(TextBuffer::new("hello\nhi\nworld", 0..14));
    let mut cursor = Cursor::new(4);
    cursor.update(Message::SwitchMode(CursorMode::Edit), &lines, &buffer);
    assert_eq!((cursor.virtual_row(), cursor.virtual_column()), (0, 4));
    cursor.update(Message::MoveDown(1), &lines, &buffer);
    // The second row is shorter: the offset is the end of its range.
    assert_eq!((cursor.virtual_row(), cursor.source_offset()), (1, 9));
    cursor.update(Message::MoveDown(1), &lines, &buffer);
    assert_eq!((cursor.virtual_row(), cursor.source_offset()), (2, 13));
    cursor.update(Message::MoveUp(2), &lines, &buffer);
    assert_eq!((cursor.virtual_row(), cursor.source_offset()), (0, 4));
}

#[test]
fn switching_modes() {
    let lines = [content_line("abc\n", 0..4), content_line("def\n", 4..8)];
    let buffer = Some(TextBuffer::new("def\n", 4..8));
    let mut cursor = Cursor::new(1);
    assert_eq!(*cursor.mode(), CursorMode::Read);
    // The offset is brought into the range of the buffer.
    cursor.update(Message::SwitchMode(CursorMode::Edit), &lines, &buffer);
    assert_eq!(*cursor.mode(), CursorMode::Edit);
    assert_eq!((cursor.source_offset(), cursor.virtual_row(), cursor.virtual_column()), (4, 1, 0));
    cursor.update(Message::Jump(6), &lines, &buffer);
    assert_eq!((cursor.source_offset(), cursor.virtual_row(), cursor.virtual_column()), (6, 1, 2));
    cursor.update(Message::SwitchMode(CursorMode::Read), &lines, &buffer);
    assert_eq!(*cursor.mode(), CursorMode::Read);
    assert_eq!((cursor.source_offset(), cursor.virtual_line(), cursor.virtual_column()), (6, 1, 0));
}

#[test]
fn a_row_without_text_stands_for_the_start_of_its_range() {
    let lines = [content_line("ab", 10..13), content_line("", 13..14), content_line("cd", 14..16), decoration()];
    assert_eq!(virtual_position_to_source_offset((1, 0), &lines), Some(13));
    assert_eq!(virtual_position_to_source_offset((1, 5), &lines), Some(13));
    // Moving down while editing keeps the cursor in the empty row.
    let buffer = Some(TextBuffer::new("ab\n\ncd", 10..16));
    let mut cursor = Cursor::new(12);
    cursor.update(Message::SwitchMode(CursorMode::Edit), &lines, &buffer);
    assert_eq!((cursor.virtual_row(), cursor.virtual_column()), (0, 2));
    cursor.update(Message::MoveDown(1), &lines, &buffer);
    assert_eq!((cursor.virtual_row(), cursor.source_offset()), (1, 13));
    cursor.update(Message::Jump(cursor.source_offset()), &lines, &buffer);
    assert_eq!(cursor.virtual_row(), 1);
    cursor.update(Message::MoveDown(1), &lines, &buffer);
    assert_eq!((cursor.virtual_row(), cursor.source_offset()), (2, 14));
}

#[test]
fn the_last_row_is_reached_if_it_has_text() {
    let lines = [content_line("ab\n", 0..3), decoration(), content_line("cd", 3..5)];
    let mut cursor = Cursor::new(0);
    cursor.update(Message::MoveDown(1), &lines, &None);
    assert_eq!((cursor.virtual_row(), cursor.source_offset()), (2, 3));
    cursor.update(Message::MoveUp(1), &lines, &None);
    assert_eq!((cursor.virtual_row(), cursor.source_offset()), (0, 0));
    // A move past the end looks for text from the last row on.
    cursor.update(Message::MoveDown(10), &lines, &None);
    assert_eq!((cursor.virtual_row(), cursor.source_offset()), (2, 3));
    let lines = [content_line("ab\n", 0..3), content_line("cd", 3..5)];
    let mut cursor = Cursor::new(0);
    cursor.update(Message::MoveDown(1), &lines, &None);
    assert_eq!((cursor.virtual_row(), cursor.source_offset()), (1, 3));
}

#[test]
fn the_row_of_the_cursor_is_the_row_that_ends_at_it_if_none_holds_it() {
    let lines = [content_line("ab ", 0..3), content_line("cd", 3..5), decoration()];
    let found = |offset| Cursor::new(offset).find_source_line(&lines).map(|(row, line)| (row, line));
    assert_eq!(found(0), Some((0, lines[0].clone())));
    // At the border of two rows the later row holds the offset.
    assert_eq!(found(3), Some((1, lines[1].clone())));
    // Behind the last row of text: the row that ends there.
    assert_eq!(found(5), Some((1, lines[1].clone())));
    assert_eq!(found(6), None);
    let gap = [content_line("ab", 0..2), content_line("ab", 0..2), content_line("cd", 4..6)];
    // Of two rows that end at the offset the later one is taken.
    assert_eq!(Cursor::new(2).find_source_line(&gap).map(|(row, _)| row), Some(1));
}

#[test]
fn spans_before_the_offset_count_with_all_their_text() {
    let line = VirtualLine::new(&[
        VirtualSpan::synthetic(Span::raw("> ")),
        VirtualSpan::content(Span::raw("ab"), &(0..2)),
        VirtualSpan::synthetic(Span::raw(" ")),
        VirtualSpan::content(Span::raw("cd😀"), &(2..8)),
    ]);
    assert_eq!(source_offset_to_virtual_column(1, &line), 1);
    assert_eq!(source_offset_to_virtual_column(2, &line), 2);
    assert_eq!(source_offset_to_virtual_column(4, &line), 4);
    // Behind the text of the row: all columns of its text.
    assert_eq!(source_offset_to_virtual_column(8, &line), 6);
    let lines = [line];
    assert_eq!(virtual_position_to_source_offset((0, 2), &lines), Some(2));
    assert_eq!(virtual_position_to_source_offset((0, 3), &lines), Some(3));
    assert_eq!(virtual_position_to_source_offset((0, 5), &lines), Some(8));
    assert_eq!(virtual_position_to_source_offset((0, 7), &lines), Some(8));
}
