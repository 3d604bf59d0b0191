//! The tokens a template is written in, as plain values.
//!
//! A template arrives as a tree of tokens: identifiers, punctuation,
//! literals, and delimited groups holding more tokens.
use vstd::prelude::*;

verus! {

/// The delimiter of a group of tokens.
#[derive(Debug, Clone, Copy, PartialEq, Eq)]
pub enum Delimiter {
    /// `( ... )`
    Parenthesis,
    /// `{ ... }`
    Brace,
    /// `[ ... ]`
    Bracket,
    /// An invisible delimiter.
    Invisible,
}

/// Whether a punctuation character is directly followed by another one.
#[derive(Debug, Clone, Copy, PartialEq, Eq)]
pub enum Spacing {
    /// Followed by whitespace or a non-punctuation token.
    Alone,
    /// Directly followed by another punctuation character, as `<` in `</`.
    Joint,
}

/// The kind of a literal token.
#[derive(Debug, Clone, Copy, PartialEq, Eq)]
pub enum LitKind {
    /// A string literal.
    Str,
    /// An integer literal.
    Int,
    /// A floating-point literal.
    Float,
    /// A character literal.
    Char,
    /// Any other literal (byte strings, bytes, C strings).
    Other,
}

/// A literal token.
#[derive(Debug)]
pub struct Lit {
    /// Its kind.
    pub kind: LitKind,
    /// The literal as written, without its suffix (`"a\"b"`, `12`, `1.5`).
    pub text: String,
    /// Its value: the characters of a string or character literal, the
    /// text of a number.
    pub value: String,
    /// Its suffix, such as `u8` in `12u8`; empty when there is none.
    pub suffix: String,
}

/// A token tree.
#[derive(Debug)]
pub enum TokenTree {
    /// An identifier or keyword.
    Ident(String),
    /// One punctuation character.
    Punct(char, Spacing),
    /// A literal.
    Literal(Lit),
    /// Tokens between delimiters.
    Group(Delimiter, Vec<TokenTree>),
}

} // verus!
