use basalt::text_buffer::TextBuffer;

#[test]
fn a_fresh_buffer_is_not_modified() {
    let buffer = TextBuffer::new("abc", 5..8);
    assert_eq!(buffer.content, "abc");
    assert_eq!(buffer.source_range, 5..8);
    assert!(!buffer.modified);
    assert_eq!(buffer.write("01234abc89"), "01234abc89");
}

#[test]
fn insert_grows_the_range_by_the_bytes_of_the_character() {
    let mut buffer = TextBuffer::new("abc", 5..8);
    buffer.insert_char('X', 6);
    assert_eq!(buffer.content, "aXbc");
    assert_eq!(buffer.source_range, 5..9);
    assert!(buffer.modified);
    buffer.insert_char('😀', 9);
    assert_eq!(buffer.content, "aXbc😀");
    assert_eq!(buffer.source_range, 5..13);
    // Before the start of the buffer: at its start.
    buffer.insert_char('é', 0);
    assert_eq!(buffer.content, "éaXbc😀");
    assert_eq!(buffer.source_range, 5..15);
    // Behind the end of the buffer: at its end.
    buffer.insert_char('!', 100);
    assert_eq!(buffer.content, "éaXbc😀!");
    assert_eq!(buffer.source_range, 5..16);
}

#[test]
fn insert_inside_a_character_goes_before_it() {
    let mut buffer = TextBuffer::new("a😀b", 0..6);
    buffer.insert_char('-', 3);
    assert_eq!(buffer.content, "a-😀b");
    assert_eq!(buffer.source_range, 0..7);
}

#[test]
fn delete_removes_the_character_before_the_offset() {
    let mut buffer = TextBuffer::new("a😀b", 10..16);
    buffer.delete_char(15);
    assert_eq!(buffer.content, "ab");
    assert_eq!(buffer.source_range, 10..12);
    assert!(buffer.modified);
    buffer.delete_char(12);
    assert_eq!(buffer.content, "a");
    assert_eq!(buffer.source_range, 10..11);
    buffer.delete_char(10);
    assert_eq!(buffer.content, "");
    assert_eq!(buffer.source_range, 10..10);
}

#[test]
fn delete_in_an_empty_buffer_changes_nothing() {
    let mut buffer = TextBuffer::new("", 3..3);
    buffer.delete_char(3);
    assert_eq!(buffer.content, "");
    assert_eq!(buffer.source_range, 3..3);
    assert!(!buffer.modified);
}

#[test]
fn write_puts_the_content_in_place_of_the_original_range() {
    let mut buffer = TextBuffer::new("abc", 5..8);
    buffer.insert_char('X', 8);
    buffer.insert_char('Y', 9);
    assert_eq!(buffer.content, "abcXY");
    assert_eq!(buffer.write("01234abc89"), "01234abcXY89");
    buffer.delete_char(6);
    assert_eq!(buffer.write("01234abc89"), "01234bcXY89");
}
