//! Marker types used to type-check elements and attributes.
mod sealed;

use vstd::prelude::*;

verus! {

/// A marker trait for type-checked elements.
pub trait Element {
    /// The kind of this element.
    type Kind: ElementKind;
}

/// The kind of an element: [`Normal`] or [`Void`].
///
/// A normal element always has a closing tag and may have children; a void
/// element never has a closing tag and has no children.
pub trait ElementKind: sealed::Sealed {}

/// A normal element, with a closing tag and children.
#[derive(Debug, Clone, Copy)]
pub struct Normal;

impl ElementKind for Normal {}

/// A void element, without closing tag or children.
#[derive(Debug, Clone, Copy)]
pub struct Void;

impl ElementKind for Void {}

/// A standard attribute.
#[derive(Debug, Clone, Copy)]
pub struct Attribute;

/// An attribute namespace, such as `hx-on` in `hx-on:click`.
#[derive(Debug, Clone, Copy)]
pub struct AttributeNamespace;

/// An attribute prefixed by a symbol, such as `@click`.
#[derive(Debug, Clone, Copy)]
pub struct AttributeSymbol;

} // verus!
