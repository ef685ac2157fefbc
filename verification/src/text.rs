//! Text primitives: the byte layout of UTF-8 strings, stated over sequences
//! of characters, and the conversions between strings and characters that
//! the rest of the crate builds on.

use vstd::prelude::*;

verus! {

/// `char::len_utf8` returns the number of bytes the character needs when
/// encoded in UTF-8, which depends on the range its code point lies in.
pub assume_specification[ char::len_utf8 ](c: char) -> (n: usize)
    ensures
        n == utf8_len(c),
;

/// `String::push` appends one character to the end of the string.
pub assume_specification[ String::push ](s: &mut String, c: char)
    ensures
        final(s)@ == old(s)@.push(c),
;

/// `String::push_str` appends the characters of `other` to the end of the
/// string.
pub assume_specification[ String::push_str ](s: &mut String, other: &str)
    ensures
        final(s)@ == old(s)@ + other@,
;

/// The characters of `s`, in order.
pub fn to_chars(s: &str) -> (chars: Vec<char>)
    ensures
        chars@ == s@,
{
    let mut chars: Vec<char> = Vec::new();
    for c in it: s.chars()
        invariant
            chars@ == it.seq().take(it.index()),
            it.seq() == s@,
    {
        chars.push(c);
    }
    chars
}

/// The string made of the characters `chars[from..to]`.
pub(crate) fn from_chars(chars: &Vec<char>, from: usize, to: usize) -> (s: String)
    requires
        from <= to <= chars.len(),
    ensures
        s@ == chars@.subrange(from as int, to as int),
{
    let mut s = String::new();
    let mut i: usize = from;
    while i < to
        invariant
            from <= i <= to <= chars.len(),
            s@ == chars@.subrange(from as int, i as int),
        decreases to - i,
    {
        s.push(chars[i]);
        i += 1;
    }
    s
}


/// The views of a sequence of strings, in order.
pub open spec fn string_views(strings: Seq<String>) -> Seq<Seq<char>> {
    Seq::new(strings.len(), |i: int| strings[i]@)
}

pub proof fn lemma_string_views_push(strings: Seq<String>, s: String)
    ensures
        string_views(strings.push(s)) == string_views(strings).push(s@),
{
    assert(string_views(strings.push(s)) =~= string_views(strings).push(s@));
}

/// All of `parts`, concatenated in order.
pub open spec fn concat(parts: Seq<Seq<char>>) -> Seq<char>
    decreases parts.len(),
{
    if parts.len() == 0 {
        Seq::empty()
    } else {
        concat(parts.drop_last()) + parts.last()
    }
}


/// The sum of `a` and `b` where it fits a `usize`, else the greatest `usize`.
pub open spec fn sat_add(a: nat, b: nat) -> usize {
    if a + b <= usize::MAX {
        (a + b) as usize
    } else {
        usize::MAX
    }
}

/// The difference of `a` and `b`, or zero where `b` is the greater.
pub open spec fn sat_sub(a: usize, b: usize) -> usize {
    if a >= b {
        (a - b) as usize
    } else {
        0
    }
}


/// `n` where it fits a `usize`, else the greatest `usize`.
pub open spec fn clamped(n: nat) -> usize {
    sat_add(n, 0)
}

/// Number of bytes that `c` occupies in UTF-8.
pub open spec fn utf8_len(c: char) -> nat {
    if (c as u32) < 0x80 {
        1
    } else if (c as u32) < 0x800 {
        2
    } else if (c as u32) < 0x10000 {
        3
    } else {
        4
    }
}

/// Number of bytes that the characters `s` occupy in UTF-8.
pub open spec fn byte_len(s: Seq<char>) -> nat
    decreases s.len(),
{
    if s.len() == 0 {
        0
    } else {
        byte_len(s.drop_last()) + utf8_len(s.last())
    }
}

/// Byte offset at which the character with index `i` starts.
pub open spec fn byte_offset(s: Seq<char>, i: int) -> nat {
    byte_len(s.take(i))
}

/// The number of characters of `s` that end at or before byte offset
/// `offset`.
pub open spec fn char_index(s: Seq<char>, offset: int) -> int
    decreases s.len(),
{
    if s.len() == 0 {
        0
    } else if byte_len(s) <= offset {
        s.len() as int
    } else {
        char_index(s.drop_last(), offset)
    }
}

/// The nearest character boundary at or before byte offset `offset`.
pub open spec fn floor_boundary(s: Seq<char>, offset: int) -> nat {
    byte_offset(s, char_index(s, offset))
}

/// Whether a character of `s` starts at byte offset `offset`, or `s` ends
/// there.
pub open spec fn is_boundary(s: Seq<char>, offset: int) -> bool {
    floor_boundary(s, offset) == offset
}

/// A longer prefix has more bytes.
pub proof fn lemma_byte_offset_increases(s: Seq<char>, i: int, j: int)
    requires
        0 <= i <= j <= s.len(),
    ensures
        byte_offset(s, i) + (j - i) <= byte_offset(s, j),
    decreases j - i,
{
    if i < j {
        lemma_byte_offset_increases(s, i, j - 1);
        assert(s.take(j).drop_last() =~= s.take(j - 1));
    }
}

/// The index that `char_index` finds is the one whose character starts at or
/// before the offset while the next starts after it.
pub proof fn lemma_char_index(s: Seq<char>, offset: int, i: int)
    requires
        0 <= i <= s.len(),
        byte_offset(s, i) <= offset,
        i < s.len() ==> byte_offset(s, i + 1) > offset,
    ensures
        char_index(s, offset) == i,
    decreases s.len(),
{
    assert(s.take(s.len() as int) =~= s);
    if s.len() == 0 {
    } else if i == s.len() {
    } else {
        lemma_byte_offset_increases(s, i + 1, s.len() as int);
        let shorter = s.drop_last();
        assert(shorter.take(i) =~= s.take(i));
        if i < shorter.len() {
            assert(shorter.take(i + 1) =~= s.take(i + 1));
        }
        lemma_char_index(shorter, offset, i);
    }
}

/// `char_index` stays within the text, and its boundary is at or before
/// the offset.
pub proof fn lemma_char_index_bounds(s: Seq<char>, offset: int)
    requires
        0 <= offset,
    ensures
        0 <= char_index(s, offset) <= s.len(),
        floor_boundary(s, offset) <= offset,
        char_index(s, offset) < s.len() ==> byte_offset(s, char_index(s, offset) + 1) > offset,
    decreases s.len(),
{
    assert(s.take(s.len() as int) =~= s);
    assert(s.take(0) =~= Seq::<char>::empty());
    if s.len() == 0 {
    } else if byte_len(s) <= offset {
    } else {
        let shorter = s.drop_last();
        lemma_char_index_bounds(shorter, offset);
        let i = char_index(shorter, offset);
        assert(shorter.take(i) =~= s.take(i));
        if i < shorter.len() {
            assert(shorter.take(i + 1) =~= s.take(i + 1));
        } else {
            assert(s.take(i + 1) =~= s);
        }
    }
}

/// The number of bytes of the first `count` characters in UTF-8, as far as a
/// `usize` counts.
pub(crate) fn bytes_before(chars: &Vec<char>, count: usize) -> (len: usize)
    requires
        count <= chars.len(),
    ensures
        len == clamped(byte_offset(chars@, count as int)),
{
    let mut len: usize = 0;
    let mut i: usize = 0;
    assert(chars@.take(0) =~= Seq::<char>::empty());
    while i < count
        invariant
            i <= count <= chars.len(),
            len == clamped(byte_len(chars@.take(i as int))),
        decreases count - i,
    {
        proof {
            assert(chars@.take(i + 1).drop_last() =~= chars@.take(i as int));
        }
        len = len.saturating_add(chars[i].len_utf8());
        i += 1;
    }
    len
}

/// The number of bytes of `chars` in UTF-8, as far as a `usize` counts.
pub fn byte_length(chars: &Vec<char>) -> (len: usize)
    ensures
        len == clamped(byte_len(chars@)),
{
    proof {
        assert(chars@.take(chars@.len() as int) =~= chars@);
    }
    bytes_before(chars, chars.len())
}

/// Finds the nearest character boundary at or before byte offset `offset`:
/// the index of the character that starts there, and the boundary itself.
pub fn locate(chars: &Vec<char>, offset: usize) -> (found: (usize, usize))
    ensures
        found.0 == char_index(chars@, offset as int),
        found.1 == floor_boundary(chars@, offset as int),
        found.0 <= chars.len(),
        found.1 <= offset,
{
    let mut index: usize = 0;
    let mut at: usize = 0;
    assert(chars@.take(0) =~= Seq::<char>::empty());
    while index < chars.len() && chars[index].len_utf8() <= offset - at
        invariant
            index <= chars.len(),
            at <= offset,
            at == byte_offset(chars@, index as int),
        decreases chars.len() - index,
    {
        proof {
            assert(chars@.take(index + 1).drop_last() =~= chars@.take(index as int));
        }
        at = at + chars[index].len_utf8();
        index += 1;
    }
    proof {
        if index < chars.len() {
            assert(chars@.take(index + 1).drop_last() =~= chars@.take(index as int));
        }
        lemma_char_index(chars@, offset as int, index as int);
    }
    (index, at)
}

/// The characters of `text` between the byte offsets of `range`, where both
/// are character boundaries of `text` and in order.
pub open spec fn byte_slice(text: Seq<char>, start: usize, end: usize) -> Option<Seq<char>> {
    if start <= end && is_boundary(text, start as int) && is_boundary(text, end as int) {
        Some(text.subrange(char_index(text, start as int), char_index(text, end as int)))
    } else {
        None
    }
}

/// The part of `text` between two byte offsets, or nothing if one of them
/// lies outside `text` or inside a character, or they are out of order.
pub fn slice_bytes(text: &str, start: usize, end: usize) -> (slice: Option<String>)
    ensures
        crate::ast::option_string_view(slice) == byte_slice(text@, start, end),
{
    if start > end {
        return None;
    }
    let chars = to_chars(text);
    let (first, first_at) = locate(&chars, start);
    let (last, last_at) = locate(&chars, end);
    if first_at != start || last_at != end {
        return None;
    }
    proof {
        if first > last {
            lemma_byte_offset_increases(chars@, last as int, first as int);
        }
    }
    Some(from_chars(&chars, first, last))
}

/// The number of terminal columns that the `unicode-width` tables give for a
/// text.
pub uninterp spec fn str_width(text: Seq<char>) -> nat;

/// The number of terminal columns that the `unicode-width` tables give for a
/// single character, where they give one.
pub uninterp spec fn unicode_char_width(c: char) -> Option<nat>;

/// The columns that one character takes: none where the tables give none.
pub open spec fn char_width(c: char) -> nat {
    match unicode_char_width(c) {
        Some(width) => width,
        None => 0,
    }
}

/// `unicode_width::UnicodeWidthStr::width` looks the text's width up in the
/// crate's tables. The width depends on the text alone.
#[verifier::external_body]
pub(crate) fn unicode_width(text: &str) -> (width: usize)
    ensures
        width == str_width(text@),
{
    unicode_width::UnicodeWidthStr::width(text)
}

/// Whether `c` is one of the characters of ASCII that are printed: those
/// from the space to the tilde.
pub open spec fn is_printable_ascii(c: char) -> bool {
    ' ' <= c && c < '\u{7f}'
}

/// `unicode_width::UnicodeWidthChar::width` looks the character's width up
/// in the crate's tables; control characters have none. The characters from
/// U+0020 up to U+007F are not looked up: they have the width one. The width
/// depends on the character alone.
#[verifier::external_body]
pub(crate) fn unicode_width_of_char(c: char) -> (width: Option<usize>)
    ensures
        match width {
            Some(w) => unicode_char_width(c) == Some(w as nat),
            None => unicode_char_width(c).is_none(),
        },
        is_printable_ascii(c) ==> width == Some(1usize),
{
    unicode_width::UnicodeWidthChar::width(c)
}

/// The columns that `c` takes on a terminal. A printed character of ASCII
/// takes one.
pub fn width_of_char(c: char) -> (width: usize)
    ensures
        width == char_width(c),
        is_printable_ascii(c) ==> width == 1,
{
    match unicode_width_of_char(c) {
        Some(width) => width,
        None => 0,
    }
}


/// `n` spaces.
pub open spec fn spaces(n: nat) -> Seq<char> {
    Seq::new(n, |i: int| ' ')
}

/// A string of `n` spaces.
pub fn space_string(n: usize) -> (s: String)
    ensures
        s@ == spaces(n as nat),
{
    let mut s = String::new();
    let mut i: usize = 0;
    while i < n
        invariant
            i <= n,
            s@ == spaces(i as nat),
        decreases n - i,
    {
        s.push(' ');
        i += 1;
        assert(s@ =~= spaces(i as nat));
    }
    s
}

/// `n` times the character `c`.
pub open spec fn repeated(c: char, n: nat) -> Seq<char> {
    Seq::new(n, |i: int| c)
}

/// A string of `n` times the character `c`.
pub fn repeat_char(c: char, n: usize) -> (s: String)
    ensures
        s@ == repeated(c, n as nat),
{
    let mut s = String::new();
    let mut i: usize = 0;
    while i < n
        invariant
            i <= n,
            s@ == repeated(c, i as nat),
        decreases n - i,
    {
        s.push(c);
        i += 1;
        assert(s@ =~= repeated(c, i as nat));
    }
    s
}

/// The character of the decimal digit `d`.
pub open spec fn digit_char(d: int) -> char {
    if d == 0 {
        '0'
    } else if d == 1 {
        '1'
    } else if d == 2 {
        '2'
    } else if d == 3 {
        '3'
    } else if d == 4 {
        '4'
    } else if d == 5 {
        '5'
    } else if d == 6 {
        '6'
    } else if d == 7 {
        '7'
    } else if d == 8 {
        '8'
    } else {
        '9'
    }
}

/// The decimal digits of `n`, most significant first, without leading zeros.
pub open spec fn decimal(n: nat) -> Seq<char>
    decreases n,
{
    if n < 10 {
        seq![digit_char(n as int)]
    } else {
        decimal(n / 10).push(digit_char((n % 10) as int))
    }
}

fn digit(d: u64) -> (c: char)
    requires
        d < 10,
    ensures
        c == digit_char(d as int),
{
    if d == 0 {
        '0'
    } else if d == 1 {
        '1'
    } else if d == 2 {
        '2'
    } else if d == 3 {
        '3'
    } else if d == 4 {
        '4'
    } else if d == 5 {
        '5'
    } else if d == 6 {
        '6'
    } else if d == 7 {
        '7'
    } else if d == 8 {
        '8'
    } else {
        '9'
    }
}

/// The number `n` written in decimal.
pub fn decimal_string(n: u64) -> (s: String)
    ensures
        s@ == decimal(n as nat),
    decreases n,
{
    if n < 10 {
        let mut s = String::new();
        s.push(digit(n));
        s
    } else {
        let mut s = decimal_string(n / 10);
        s.push(digit(n % 10));
        s
    }
}


/// The upper case of a text, as the Unicode tables of the standard library
/// have it.
pub uninterp spec fn uppercase(text: Seq<char>) -> Seq<char>;

/// `str::to_uppercase` gives the upper case of the text. It depends on the
/// text alone.
#[verifier::external_body]
pub(crate) fn to_uppercase(text: &str) -> (upper: String)
    ensures
        upper@ == uppercase(text@),
{
    text.to_uppercase()
}

/// The lines read so far, and the line being read.
pub struct LineScan {
    pub lines: Seq<Seq<char>>,
    pub current: Seq<char>,
    pub open: bool,
}

/// `line` without the carriage return that ends it, if one does.
pub open spec fn without_carriage_return(line: Seq<char>) -> Seq<char> {
    if line.len() > 0 && line.last() == '\r' {
        line.drop_last()
    } else {
        line
    }
}

/// Reads `text` character by character: a line feed ends the line being read,
/// which loses a carriage return just before the line feed.
pub open spec fn scan_lines(text: Seq<char>) -> LineScan
    decreases text.len(),
{
    if text.len() == 0 {
        LineScan { lines: Seq::empty(), current: Seq::empty(), open: false }
    } else {
        let before = scan_lines(text.drop_last());
        if text.last() == '\n' {
            LineScan {
                lines: before.lines.push(without_carriage_return(before.current)),
                current: Seq::empty(),
                open: false,
            }
        } else {
            LineScan { lines: before.lines, current: before.current.push(text.last()), open: true }
        }
    }
}

/// The lines of `text`: its stretches between line feeds, each without the
/// line feed and without a carriage return before it. Text after the last
/// line feed is a line too, if there is any.
pub open spec fn lines_of(text: Seq<char>) -> Seq<Seq<char>> {
    let scan = scan_lines(text);
    if scan.open {
        scan.lines.push(scan.current)
    } else {
        scan.lines
    }
}

/// The lines of `text`, each as a string of its own.
pub fn split_lines(text: &str) -> (lines: Vec<String>)
    ensures
        string_views(lines@) == lines_of(text@),
{
    let chars = to_chars(text);
    let mut lines: Vec<String> = Vec::new();
    let mut start: usize = 0;
    let mut i: usize = 0;
    assert(string_views(lines@) =~= Seq::<Seq<char>>::empty());
    assert(chars@.subrange(0, 0) =~= Seq::<char>::empty());
    assert(chars@.take(0) =~= Seq::<char>::empty());
    while i < chars.len()
        invariant
            start <= i <= chars.len(),
            scan_lines(chars@.take(i as int)) == (LineScan {
                lines: string_views(lines@),
                current: chars@.subrange(start as int, i as int),
                open: start < i,
            }),
        decreases chars.len() - i,
    {
        proof {
            assert(chars@.take(i + 1).drop_last() =~= chars@.take(i as int));
        }
        if chars[i] == '\n' {
            let end = if start < i && chars[i - 1] == '\r' {
                i - 1
            } else {
                i
            };
            let line = from_chars(&chars, start, end);
            proof {
                lemma_string_views_push(lines@, line);
                assert(chars@.subrange(start as int, end as int) =~= without_carriage_return(
                    chars@.subrange(start as int, i as int),
                ));
                assert(chars@.subrange(i + 1, i + 1) =~= Seq::<char>::empty());
            }
            lines.push(line);
            start = i + 1;
        } else {
            proof {
                assert(chars@.subrange(start as int, i + 1) =~= chars@.subrange(
                    start as int,
                    i as int,
                ).push(chars@[i as int]));
            }
        }
        i += 1;
    }
    proof {
        assert(chars@.take(i as int) =~= chars@);
    }
    if start < i {
        let line = from_chars(&chars, start, i);
        proof {
            lemma_string_views_push(lines@, line);
        }
        lines.push(line);
    }
    lines
}


} // verus!
