//! Text stylizing.
//!
//! The [`stylize`] function converts the letters A-z and the digits 0-9 into
//! stylized variants taken from the mathematical alphanumeric symbols. The
//! text is converted according to the [`FontStyle`] enum.

use vstd::prelude::*;

use crate::text::to_chars;

verus! {

/// Enum representing different font styles.
#[derive(Debug, Clone, Copy, PartialEq, Eq, Structural)]
pub enum FontStyle {
    /// Blackboard Bold (Double-struck) style.
    BlackBoardBold,
    /// Bold Fraktur style.
    FrakturBold,
    /// Script style.
    Script,
}

/// Whether `i` is the code of a character: at most `0x10FFFF` and not a
/// surrogate.
pub open spec fn is_char_code(i: u32) -> bool {
    i < 0xD800 || (0xDFFF < i && i <= 0x10FFFF)
}

/// `char::from_u32` gives the character with code `i`, if `i` is the code of
/// one.
pub assume_specification[ char::from_u32 ](i: u32) -> (c: Option<char>)
    ensures
        c == if is_char_code(i) {
            Some(i as char)
        } else {
            None::<char>
        },
;

/// The code of the stylized variant of `c`, where `c` has one: a letter or a
/// digit is moved into the block of the style's alphabet, keeping its place
/// in the alphabet. Seven capitals of the blackboard alphabet lie outside
/// that block.
pub open spec fn stylized_code(c: char, style: FontStyle) -> Option<u32> {
    let upper = 'A' <= c <= 'Z';
    let lower = 'a' <= c <= 'z';
    let digit = '0' <= c <= '9';
    match style {
        FontStyle::BlackBoardBold => if c == 'C' {
            Some(0x2102u32)
        } else if c == 'H' {
            Some(0x210Du32)
        } else if c == 'N' {
            Some(0x2115u32)
        } else if c == 'P' {
            Some(0x2119u32)
        } else if c == 'Q' {
            Some(0x211Au32)
        } else if c == 'R' {
            Some(0x211Du32)
        } else if c == 'Z' {
            Some(0x2124u32)
        } else if upper {
            Some((0x1D538 + (c as u32 - 'A' as u32)) as u32)
        } else if lower {
            Some((0x1D552 + (c as u32 - 'a' as u32)) as u32)
        } else if digit {
            Some((0x1D7D8 + (c as u32 - '0' as u32)) as u32)
        } else {
            None
        },
        FontStyle::FrakturBold => if upper {
            Some((0x1D56C + (c as u32 - 'A' as u32)) as u32)
        } else if lower {
            Some((0x1D586 + (c as u32 - 'a' as u32)) as u32)
        } else if digit {
            Some((0x1D7CE + (c as u32 - '0' as u32)) as u32)
        } else {
            None
        },
        FontStyle::Script => if upper {
            Some((0x1D4D0 + (c as u32 - 'A' as u32)) as u32)
        } else if lower {
            Some((0x1D4EA + (c as u32 - 'a' as u32)) as u32)
        } else if digit {
            Some((0x1D7CE + (c as u32 - '0' as u32)) as u32)
        } else {
            None
        },
    }
}

/// The stylized variant of `c`; a character without one stays as it is.
pub open spec fn stylized_char(c: char, style: FontStyle) -> char {
    match stylized_code(c, style) {
        Some(code) => code as char,
        None => c,
    }
}

/// The text with every character stylized.
pub open spec fn stylized(text: Seq<char>, style: FontStyle) -> Seq<char> {
    Seq::new(text.len(), |i: int| stylized_char(text[i], style))
}

/// Returns the stylized Unicode character for a given `char` and
/// [`FontStyle`].
///
/// Letters between A-z and number 0-9 are stylized. Characters outside the
/// stylized range (e.g., punctuation) are returned as-is.
pub fn stylize_char(c: char, style: FontStyle) -> (stylized: char)
    ensures
        stylized == stylized_char(c, style),
{
    let code = c as u32;
    let upper = 'A' <= c && c <= 'Z';
    let lower = 'a' <= c && c <= 'z';
    let digit = '0' <= c && c <= '9';
    let target: Option<u32> = match style {
        FontStyle::BlackBoardBold => if c == 'C' {
            Some(0x2102)
        } else if c == 'H' {
            Some(0x210D)
        } else if c == 'N' {
            Some(0x2115)
        } else if c == 'P' {
            Some(0x2119)
        } else if c == 'Q' {
            Some(0x211A)
        } else if c == 'R' {
            Some(0x211D)
        } else if c == 'Z' {
            Some(0x2124)
        } else if upper {
            Some(0x1D538 + (code - 'A' as u32))
        } else if lower {
            Some(0x1D552 + (code - 'a' as u32))
        } else if digit {
            Some(0x1D7D8 + (code - '0' as u32))
        } else {
            None
        },
        FontStyle::FrakturBold => if upper {
            Some(0x1D56C + (code - 'A' as u32))
        } else if lower {
            Some(0x1D586 + (code - 'a' as u32))
        } else if digit {
            Some(0x1D7CE + (code - '0' as u32))
        } else {
            None
        },
        FontStyle::Script => if upper {
            Some(0x1D4D0 + (code - 'A' as u32))
        } else if lower {
            Some(0x1D4EA + (code - 'a' as u32))
        } else if digit {
            Some(0x1D7CE + (code - '0' as u32))
        } else {
            None
        },
    };
    match target {
        Some(target) => match char::from_u32(target) {
            Some(stylized) => stylized,
            None => c,
        },
        None => c,
    }
}

/// Stylizes the given input string using the specified [`FontStyle`].
///
/// Each character in the input is mapped to its corresponding stylized
/// Unicode character based on the provided style. Characters that do not
/// have a stylized equivalent are returned unchanged.
pub fn stylize(input: &str, style: FontStyle) -> (output: String)
    ensures
        output@ == stylized(input@, style),
{
    let chars = to_chars(input);
    let mut output = String::new();
    let mut i: usize = 0;
    while i < chars.len()
        invariant
            i <= chars.len(),
            chars@ == input@,
            output@ == stylized(input@, style).take(i as int),
        decreases chars.len() - i,
    {
        output.push(stylize_char(chars[i], style));
        i += 1;
        assert(output@ =~= stylized(input@, style).take(i as int));
    }
    assert(stylized(input@, style).take(i as int) =~= stylized(input@, style));
    output
}

} // verus!
