//! Character classes shared by the module parser, and what is taken for
//! granted of the standard library's characters and strings.

use vstd::prelude::*;
use vstd::string::*;

verus! {

/// Whether `c`, a character beyond ASCII, is alphabetic or numeric in
/// Unicode's sense, as `char::is_alphanumeric` decides it.
pub uninterp spec fn char_is_alphanumeric(c: char) -> bool;

/// Whether `c`, a character beyond ASCII, has the Unicode `Lowercase`
/// property, as `char::is_lowercase` decides it.
pub uninterp spec fn char_is_lowercase(c: char) -> bool;

/// `c` is an ASCII character.
pub open spec fn ascii(c: char) -> bool {
    (c as u32) < 128
}

/// White space: the characters with the Unicode `White_Space` property. They
/// are the blank, the controls from tab to carriage return, next line, the
/// no-break spaces, the spaces of fixed width, and the line and paragraph
/// separators.
pub open spec fn white_space(c: char) -> bool {
    let n = c as u32;
    n == 0x20 || 0x09 <= n <= 0x0d || n == 0x85 || n == 0xa0 || n == 0x1680 || 0x2000 <= n
        <= 0x200a || n == 0x2028 || n == 0x2029 || n == 0x202f || n == 0x205f || n == 0x3000
}

/// A letter or a digit: among the ASCII characters `0` to `9`, `A` to `Z` and
/// `a` to `z`; beyond them what `char::is_alphanumeric` takes for one.
pub open spec fn letter_or_digit(c: char) -> bool {
    let n = c as u32;
    if ascii(c) {
        0x30 <= n <= 0x39 || 0x41 <= n <= 0x5a || 0x61 <= n <= 0x7a
    } else {
        char_is_alphanumeric(c)
    }
}

/// A lowercase letter: among the ASCII characters `a` to `z`; beyond them
/// what `char::is_lowercase` takes for one.
pub open spec fn lowercase(c: char) -> bool {
    let n = c as u32;
    if ascii(c) {
        0x61 <= n <= 0x7a
    } else {
        char_is_lowercase(c)
    }
}

/// `char::is_whitespace` holds of the characters with the Unicode property
/// `White_Space`, which are those that `white_space` lists.
pub assume_specification[ char::is_whitespace ](c: char) -> (b: bool)
    ensures
        b == white_space(c),
;

/// `char::is_alphanumeric` holds of letters and digits. Of the ASCII
/// characters those are `0` to `9`, `A` to `Z` and `a` to `z`; beyond ASCII
/// the result, a function of the character alone, is named
/// `char_is_alphanumeric`.
pub assume_specification[ char::is_alphanumeric ](c: char) -> (b: bool)
    ensures
        ascii(c) ==> b == letter_or_digit(c),
        !ascii(c) ==> b == char_is_alphanumeric(c),
;

/// `char::is_lowercase` holds of lowercase letters. Of the ASCII characters
/// those are `a` to `z`; beyond ASCII the result, a function of the character
/// alone, is named `char_is_lowercase`.
pub assume_specification[ char::is_lowercase ](c: char) -> (b: bool)
    ensures
        ascii(c) ==> b == lowercase(c),
        !ascii(c) ==> b == char_is_lowercase(c),
;

/// `String::push` appends the character to the end of the string.
pub assume_specification[ String::push ](s: &mut String, c: char)
    ensures
        final(s)@ == old(s)@.push(c),
;

/// `str`'s `==` compares the two texts.
pub assume_specification[ <str as PartialEq>::eq ](a: &str, b: &str) -> (equal: bool)
    ensures
        equal == (a@ == b@),
;

/// Whether two texts are the same.
pub fn same_text(a: &str, b: &str) -> (same: bool)
    ensures
        same == (a@ == b@),
{
    *a == *b
}

/// White space, the line feed included.
pub open spec fn space_or_newline(c: char) -> bool {
    white_space(c) || c == '\n'
}

/// A character of an identifier: alphanumeric or an underscore.
pub open spec fn alphanumeric(c: char) -> bool {
    letter_or_digit(c) || c == '_'
}

/// One of the arithmetic, comparison and logic operator characters.
pub open spec fn operator(c: char) -> bool {
    c == '+' || c == '-' || c == '/' || c == '*' || c == '^' || c == '=' || c == '>' || c == '<'
        || c == '&' || c == '|'
}

/// A character that may stand in the constructor list of an exported type:
/// an identifier character, a dot or a comma.
pub open spec fn allowed_for_types_and_functions(c: char) -> bool {
    alphanumeric(c) || c == '.' || c == ','
}

/// White space, a line feed or a comma.
pub open spec fn space_or_newline_or_comma(c: char) -> bool {
    space_or_newline(c) || c == ','
}

pub fn is_space_or_newline(c: char) -> (b: bool)
    ensures
        b == space_or_newline(c),
{
    c.is_whitespace() || c == '\n'
}

pub fn is_alphanumeric(c: char) -> (b: bool)
    ensures
        b == alphanumeric(c),
{
    c.is_alphanumeric() || c == '_'
}

pub fn is_operator(c: char) -> (b: bool)
    ensures
        b == operator(c),
{
    c == '+' || c == '-' || c == '/' || c == '*' || c == '^' || c == '=' || c == '>' || c == '<'
        || c == '&' || c == '|'
}

pub fn is_allowed_for_types_and_functions(c: char) -> (b: bool)
    ensures
        b == allowed_for_types_and_functions(c),
{
    is_alphanumeric(c) || c == '.' || c == ','
}

pub fn is_space_or_newline_or_comma(c: char) -> (b: bool)
    ensures
        b == space_or_newline_or_comma(c),
{
    is_space_or_newline(c) || c == ','
}

/// The character classes that the parser takes runs of.
#[derive(Debug, Clone, Copy, PartialEq, Eq)]
pub enum CharClass {
    /// `char::is_whitespace`.
    Whitespace,
    /// `is_space_or_newline`.
    SpaceOrNewline,
    /// `is_space_or_newline_or_comma`.
    SpaceOrNewlineOrComma,
    /// `is_alphanumeric`.
    Alphanumeric,
    /// `is_allowed_for_types_and_functions`.
    TypesAndFunctions,
}

impl CharClass {
    /// Whether `c` belongs to the class.
    pub open spec fn has(self, c: char) -> bool {
        match self {
            CharClass::Whitespace => white_space(c),
            CharClass::SpaceOrNewline => space_or_newline(c),
            CharClass::SpaceOrNewlineOrComma => space_or_newline_or_comma(c),
            CharClass::Alphanumeric => alphanumeric(c),
            CharClass::TypesAndFunctions => allowed_for_types_and_functions(c),
        }
    }

    /// Whether `c` belongs to the class.
    pub fn contains(self, c: char) -> (b: bool)
        ensures
            b == self.has(c),
    {
        match self {
            CharClass::Whitespace => c.is_whitespace(),
            CharClass::SpaceOrNewline => is_space_or_newline(c),
            CharClass::SpaceOrNewlineOrComma => is_space_or_newline_or_comma(c),
            CharClass::Alphanumeric => is_alphanumeric(c),
            CharClass::TypesAndFunctions => is_allowed_for_types_and_functions(c),
        }
    }
}

} // verus!
