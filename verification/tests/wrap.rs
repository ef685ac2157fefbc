use basalt::text_wrap::{wrap_measured, wrap_preserve_trailing};

fn strings(lines: &[&str]) -> Vec<String> {
    lines.iter().map(|line| line.to_string()).collect()
}

#[test]
fn first_word_is_kept_whole() {
    assert_eq!(wrap_preserve_trailing("Hello world", 5, 2), strings(&["Hello ", "world"]));
}

#[test]
fn short_text_stays_on_one_line() {
    assert_eq!(wrap_preserve_trailing("Hi there", 20, 2), strings(&["Hi there"]));
}

#[test]
fn empty_text_has_no_lines() {
    assert_eq!(wrap_preserve_trailing("", 10, 2), Vec::<String>::new());
}

#[test]
fn runs_of_spaces_stay_with_their_word() {
    assert_eq!(wrap_preserve_trailing("a   b", 4, 0), strings(&["a   ", "b"]));
    assert_eq!(wrap_preserve_trailing("a   b", 5, 0), strings(&["a   b"]));
}

#[test]
fn leading_spaces_are_a_piece_of_their_own() {
    assert_eq!(wrap_preserve_trailing("  a b", 4, 0), strings(&["  a ", "b"]));
    assert_eq!(wrap_preserve_trailing("  a b", 3, 0), strings(&["  ", "a b"]));
    assert_eq!(wrap_preserve_trailing("  a b", 2, 0), strings(&["  ", "a ", "b"]));
}

#[test]
fn marker_width_counts_from_the_second_line_on() {
    // "aa bb " is 6 wide and fits the first line; on later lines two columns are kept free.
    assert_eq!(
        wrap_preserve_trailing("aa bb cc dd ee", 6, 2),
        strings(&["aa bb ", "cc ", "dd ", "ee"])
    );
    assert_eq!(
        wrap_preserve_trailing("aa bb cc dd ee", 6, 0),
        strings(&["aa bb ", "cc dd ", "ee"])
    );
}

#[test]
fn wide_characters_count_two_columns() {
    assert_eq!(wrap_preserve_trailing("日本 語", 4, 0), strings(&["日本 ", "語"]));
    assert_eq!(wrap_preserve_trailing("日本 語", 7, 0), strings(&["日本 語"]));
}

#[test]
fn lines_put_together_are_the_text() {
    let text = "The quick  brown fox   jumps over the lazy dog ";
    for width in 0..30 {
        let lines = wrap_preserve_trailing(text, width, 3);
        assert_eq!(lines.concat(), text);
    }
}

#[test]
fn measured_pieces_are_wrapped_by_their_widths() {
    let pieces = vec![
        ("ab ".to_string(), 3),
        ("cd ".to_string(), 3),
        ("ef".to_string(), 2),
        ("gh".to_string(), 2),
    ];
    assert_eq!(wrap_measured(&pieces, 6, 0), strings(&["ab cd ", "efgh"]));
    assert_eq!(wrap_measured(&pieces, 6, 1), strings(&["ab cd ", "efgh"]));
    assert_eq!(wrap_measured(&pieces, 6, 3), strings(&["ab cd ", "ef", "gh"]));
    assert_eq!(wrap_measured(&pieces, 0, 0), strings(&["ab ", "cd ", "ef", "gh"]));
}

#[test]
fn pieces_are_cut_after_runs_of_spaces() {
    // With no room at all every piece is a line of its own.
    for text in ["", " ", "a", "  lead", "trail  ", "a b", "one  two   three ", " a\tb \n c  "] {
        let pieces = wrap_preserve_trailing(text, 0, 0);
        assert_eq!(pieces.concat(), text);
        for (i, piece) in pieces.iter().enumerate() {
            assert!(!piece.is_empty());
            let word = piece.trim_end_matches(' ');
            assert!(!word.contains(' '));
            if i + 1 < pieces.len() {
                assert!(piece.ends_with(' '));
            }
            if i > 0 {
                assert!(!word.is_empty());
            }
        }
    }
}

#[test]
fn lines_break_only_after_spaces() {
    for text in ["", " ", "a", "  lead", "trail  ", "one  two   three ", "averyverylongword x y", "日本 語 です"] {
        for width in 0..12 {
            let lines = wrap_preserve_trailing(text, width, 2);
            assert_eq!(lines.is_empty(), text.is_empty());
            assert_eq!(lines.concat(), text);
            for (k, line) in lines.iter().enumerate() {
                assert!(!line.is_empty());
                if k + 1 < lines.len() {
                    assert!(line.ends_with(' '));
                }
                if k > 0 {
                    assert!(!line.starts_with(' '));
                }
            }
        }
    }
}
