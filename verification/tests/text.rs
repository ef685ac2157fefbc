use basalt::text::{
    byte_length, decimal_string, locate, repeat_char, slice_bytes, space_string, split_lines,
    to_chars, width_of_char,
};

#[test]
fn numbers_are_written_in_decimal() {
    assert_eq!(decimal_string(0), "0");
    assert_eq!(decimal_string(7), "7");
    assert_eq!(decimal_string(10), "10");
    assert_eq!(decimal_string(1234567890), "1234567890");
    assert_eq!(decimal_string(u64::MAX), "18446744073709551615");
}

#[test]
fn strings_of_one_character() {
    assert_eq!(space_string(0), "");
    assert_eq!(space_string(3), "   ");
    assert_eq!(repeat_char('═', 4), "════");
}

#[test]
fn lines_end_at_line_feeds() {
    let lines = |text: &str| split_lines(text);
    assert_eq!(lines(""), Vec::<String>::new());
    assert_eq!(lines("a"), ["a"]);
    assert_eq!(lines("a\n"), ["a"]);
    assert_eq!(lines("a\n\n"), ["a", ""]);
    assert_eq!(lines("\n"), [""]);
    assert_eq!(lines("a\nb"), ["a", "b"]);
    assert_eq!(lines("a\r\nb\r\n"), ["a", "b"]);
    // Only a carriage return before a line feed is dropped.
    assert_eq!(lines("a\rb\r"), ["a\rb\r"]);
    assert_eq!(lines("a\r\r\nb"), ["a\r", "b"]);
    for text in ["", "x", "\n\nx\r\ny\n", "a\r", "\r\n", "é\n😀"] {
        assert_eq!(lines(text), text.lines().collect::<Vec<_>>());
    }
}

#[test]
fn bytes_and_characters() {
    let chars = to_chars("aé日😀");
    assert_eq!(chars, ['a', 'é', '日', '😀']);
    assert_eq!(byte_length(&chars), 10);
    // The index of the character at or before a byte offset, and where it starts.
    assert_eq!(locate(&chars, 0), (0, 0));
    assert_eq!(locate(&chars, 1), (1, 1));
    assert_eq!(locate(&chars, 2), (1, 1));
    assert_eq!(locate(&chars, 3), (2, 3));
    assert_eq!(locate(&chars, 5), (2, 3));
    assert_eq!(locate(&chars, 6), (3, 6));
    assert_eq!(locate(&chars, 9), (3, 6));
    assert_eq!(locate(&chars, 10), (4, 10));
    assert_eq!(locate(&chars, 100), (4, 10));
}

#[test]
fn slices_are_cut_at_borders_of_characters() {
    let text = "aé日😀";
    for start in 0..12 {
        for end in 0..12 {
            assert_eq!(slice_bytes(text, start, end).as_deref(), text.get(start..end));
        }
    }
    assert_eq!(slice_bytes("", 0, 0).as_deref(), Some(""));
}

#[test]
fn columns_of_characters() {
    assert_eq!(width_of_char('a'), 1);
    assert_eq!(width_of_char('日'), 2);
    assert_eq!(width_of_char('😀'), 2);
    assert_eq!(width_of_char('\n'), 0);
    assert_eq!(width_of_char('\u{200d}'), 0);
}
