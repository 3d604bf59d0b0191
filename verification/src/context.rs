//! The [`Context`] trait and its implementors.
//!
//! A value is rendered either as a complete HTML node ([`Node`]) or as an
//! attribute value that will be surrounded by double quotes
//! ([`AttributeValue`]). The two contexts escape different characters.
mod sealed;

use vstd::prelude::*;

use crate::render::{Buffer, BufferText};

verus! {

/// A marker trait for the context a value is rendered to.
pub trait Context: sealed::Sealed {
    /// How a buffer of this context holds its text.
    type Text: BufferText;
}

/// A marker type for a complete element node.
///
/// String-like values rendered here escape `&`, `<` and `>`.
#[derive(Debug, Clone, Copy, Default, PartialEq, Eq, Hash)]
pub struct Node;

/// A node buffer holds its text as an attribute buffer, so that it can lend
/// itself out as one.
impl Context for Node {
    type Text = Buffer<AttributeValue>;
}

/// A marker type for an attribute value, surrounded by double quotes.
///
/// String-like values rendered here escape `&`, `<`, `>` and `"`.
#[derive(Debug, Clone, Copy, Default, PartialEq, Eq, Hash)]
pub struct AttributeValue;

impl Context for AttributeValue {
    type Text = String;
}

} // verus!
