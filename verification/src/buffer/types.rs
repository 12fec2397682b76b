//! The buffer's basic shapes: character classes for word motion, cursor
//! positions, lines, and the visual-mode selection.

use vstd::prelude::*;

use crate::text::{char_is_alphanumeric, char_is_whitespace, is_alphanumeric_char,
    is_whitespace_char};

verus! {

/// The three classes word motion distinguishes: a word runs over
/// alphanumerics and underscores, punctuation forms its own runs, and
/// whitespace separates.
#[derive(PartialEq, Eq, Structural)]
pub enum CharType {
    Word,
    Punctuation,
    Whitespace,
}

/// The class of character `c`.
pub open spec fn char_type_of(c: char) -> CharType {
    if is_whitespace_char(c) {
        CharType::Whitespace
    } else if is_alphanumeric_char(c) || c == '_' {
        CharType::Word
    } else {
        CharType::Punctuation
    }
}

impl CharType {
    pub fn from_char(c: char) -> (r: CharType)
        ensures
            r == char_type_of(c),
    {
        if char_is_whitespace(c) {
            CharType::Whitespace
        } else if char_is_alphanumeric(c) || c == '_' {
            CharType::Word
        } else {
            CharType::Punctuation
        }
    }
}

/// A cursor position: a zero-based line, and a character column that
/// includes the number-bar width.
#[derive(Clone)]
pub struct BufferPosition {
    pub line: usize,
    pub character: usize,
}

/// One line of the document, with its character count alongside.
#[derive(Clone)]
pub struct FileLine {
    pub content: String,
    pub length: usize,
}

/// The ends of a visual-mode selection; `end` trails the cursor and may lie
/// before `start`.
#[derive(Clone)]
pub struct Selection {
    pub start: BufferPosition,
    pub end: BufferPosition,
}

} // verus!
