//! Rendering: the [`Buffer`] that collects HTML, pre-escaped [`Raw`] values,
//! [`Rendered`] strings and the [`Renderable`] trait.
use core::marker::PhantomData;

use vstd::prelude::*;

use crate::context::{AttributeValue, Context, Node};
use crate::text::push_char;

verus! {


/// A rendered HTML string.
///
/// Returned by [`RenderableExt::render`] and [`Raw::rendered`].
#[derive(Debug, Clone, Copy, Default, PartialEq, Eq, Hash)]
pub struct Rendered<T>(pub T);

impl<T: View> View for Rendered<T> {
    type V = T::V;

    open spec fn view(&self) -> T::V {
        self.0@
    }
}

impl<T> Rendered<T> {
    /// Extracts the inner value.
    pub fn into_inner(self) -> (r: T)
        ensures
            r == self.0,
    {
        self.0
    }

    /// Gets a reference to the inner value.
    pub fn as_inner(&self) -> (r: &T)
        ensures
            *r == self.0,
    {
        &self.0
    }
}

/// A value shown through its `Display` form, with special characters
/// escaped; the `%(...)` syntax of templates.
#[derive(Debug, Clone, Copy)]
pub struct Displayed<T>(pub T);

/// A value shown through its `Debug` form, with special characters
/// escaped; the `?(...)` syntax of templates.
#[derive(Debug, Clone, Copy)]
pub struct Debugged<T>(pub T);

/// A raw pre-escaped string.
///
/// For `Raw<T, Node>` this holds complete HTML nodes; for
/// `Raw<T, AttributeValue>` an attribute value already escaped for double
/// quotes. Rendering it copies it unchanged.
#[derive(Default, PartialEq, Eq, Hash)]
pub struct Raw<T, C: Context = Node> {
    inner: T,
    context: PhantomData<C>,
}

/// A raw pre-escaped attribute value.
pub type RawAttribute<T> = Raw<T, AttributeValue>;

impl<T, C: Context> Raw<T, C> {
    /// The value held.
    pub closed spec fn inner(&self) -> T {
        self.inner
    }

    /// Creates a new [`Raw`] from the given value, which must already be
    /// escaped for the context.
    pub fn dangerously_create(value: T) -> (r: Self)
        ensures
            r.inner() == value,
    {
        Raw { inner: value, context: PhantomData }
    }

    /// Extracts the inner value.
    pub fn into_inner(self) -> (r: T)
        ensures
            r == self.inner(),
    {
        self.inner
    }

    /// Gets a reference to the inner value.
    pub fn as_inner(&self) -> (r: &T)
        ensures
            *r == self.inner(),
    {
        &self.inner
    }
}

impl<T: View, C: Context> View for Raw<T, C> {
    type V = T::V;

    open spec fn view(&self) -> T::V {
        self.inner()@
    }
}

impl<C: Context> Raw<String, C> {
    /// Gets the inner value as a string slice.
    pub fn as_str(&self) -> (r: &str)
        ensures
            r@ == self@,
    {
        self.inner.as_str()
    }
}

impl<'a, C: Context> Raw<&'a str, C> {
    /// Gets the inner value as a string slice.
    pub fn as_str(&self) -> (r: &str)
        ensures
            r@ == self@,
    {
        self.inner
    }
}

impl<T> Raw<T> {
    /// Converts the [`Raw<T>`] into a [`Rendered<T>`].
    pub fn rendered(self) -> (r: Rendered<T>)
        ensures
            r.0 == self.inner(),
    {
        Rendered(self.inner)
    }
}

/// The text a buffer holds, and the string it is kept in.
pub trait BufferText: Sized {
    /// The text held.
    spec fn text(&self) -> Seq<char>;

    /// Holds the given string.
    fn from_string(s: String) -> (r: Self)
        ensures
            r.text() == s@,
    ;

    /// The string the text is kept in; what is written to it is held.
    fn string_mut(&mut self) -> (r: &mut String)
        ensures
            r@ == old(self).text(),
            final(self).text() == final(r)@,
    ;

    /// Gives up the string the text is kept in.
    fn into_string(self) -> (r: String)
        ensures
            r@ == self.text(),
    ;
}

impl BufferText for String {
    open spec fn text(&self) -> Seq<char> {
        self@
    }

    fn from_string(s: String) -> (r: Self) {
        s
    }

    fn string_mut(&mut self) -> (r: &mut String) {
        self
    }

    fn into_string(self) -> (r: String) {
        self
    }
}

/// The buffer used for rendering HTML.
///
/// A wrapper around [`String`] that disallows writing raw HTML without saying
/// so (`dangerously_get_string`).
#[derive(Default, PartialEq, Eq)]
pub struct Buffer<C: Context = Node> {
    inner: C::Text,
    phantom: PhantomData<C>,
}

/// A buffer used for rendering attribute values.
pub type AttributeBuffer = Buffer<AttributeValue>;

impl<C: Context> View for Buffer<C> {
    type V = Seq<char>;

    closed spec fn view(&self) -> Seq<char> {
        self.inner.text()
    }
}

impl BufferText for AttributeBuffer {
    open spec fn text(&self) -> Seq<char> {
        self@
    }

    fn from_string(s: String) -> (r: Self) {
        Buffer { inner: s, phantom: PhantomData }
    }

    fn string_mut(&mut self) -> (r: &mut String) {
        &mut self.inner
    }

    fn into_string(self) -> (r: String) {
        self.inner
    }
}

impl Buffer {
    /// Creates a new, empty [`Buffer`].
    pub fn new() -> (r: Self)
        ensures
            r@ == Seq::<char>::empty(),
    {
        Buffer { inner: AttributeBuffer::from_string(String::new()), phantom: PhantomData }
    }

    /// Creates a new [`Buffer`] holding the given (already safe) HTML.
    pub fn dangerously_from_string(string: String) -> (r: Self)
        ensures
            r@ == string@,
    {
        Buffer { inner: AttributeBuffer::from_string(string), phantom: PhantomData }
    }

    /// Lends this buffer out as an [`AttributeBuffer`] over the same text:
    /// what is written to it is written to this buffer.
    pub fn as_attribute_buffer(&mut self) -> (r: &mut AttributeBuffer)
        ensures
            r@ == old(self)@,
            final(self)@ == final(r)@,
    {
        &mut self.inner
    }

    /// Renders the buffer to a [`Rendered<String>`].
    pub fn rendered(self) -> (r: Rendered<String>)
        ensures
            r@ == self@,
    {
        Rendered(self.inner.into_string())
    }
}

impl<C: Context> Buffer<C> {
    /// Gets a mutable reference to the inner [`String`]; whatever is pushed
    /// must already be escaped for the context.
    pub fn dangerously_get_string(&mut self) -> (r: &mut String)
        ensures
            r@ == old(self)@,
            final(self)@ == final(r)@,
    {
        self.inner.string_mut()
    }

    /// Appends one character that needs no escaping in this context.
    pub fn dangerously_push_char(&mut self, c: char)
        ensures
            final(self)@ == old(self)@.push(c),
    {
        push_char(self.inner.string_mut(), c);
    }

    /// Appends already escaped text.
    pub fn dangerously_push_str(&mut self, s: &str)
        ensures
            final(self)@ == old(self)@ + s@,
    {
        self.inner.string_mut().append(s);
    }
}

/// A type that can be rendered in context `C`.
///
/// In the [`Node`] context this renders complete HTML nodes, escaping `&`,
/// `<` and `>` of string-like values. In the [`AttributeValue`] context it
/// renders a value to be surrounded by double quotes, escaping `"` too.
pub trait Renderable<C: Context = Node> {
    /// The text this value appends to a buffer.
    ///
    /// Every implementation in this crate defines it. The default exists so
    /// that implementations written outside verified code still compile; it
    /// is an unspecified text, and Verus never resolves a generic
    /// `T: Renderable` to it.
    open spec fn html(&self) -> Seq<char> {
        arbitrary()
    }

    /// Renders this value to the buffer.
    fn render_to(&self, buffer: &mut Buffer<C>)
        ensures
            final(buffer)@ == old(buffer)@ + self.html(),
    ;
}

/// Rendering a [`Renderable`] value to a string of its own.
pub trait RenderableExt: Renderable {
    /// Renders this value to a new string.
    fn render(&self) -> (r: Rendered<String>)
        ensures
            r@ == self.html(),
    ;

    /// Pre-renders the value into a [`Raw`] that can be rendered many times.
    fn memoized(&self) -> (r: Raw<String>)
        ensures
            r@ == self.html(),
    ;
}

impl<T: Renderable + ?Sized> RenderableExt for T {
    fn render(&self) -> (r: Rendered<String>) {
        let mut buffer = Buffer::new();
        self.render_to(&mut buffer);
        buffer.rendered()
    }

    fn memoized(&self) -> (r: Raw<String>) {
        Raw::dangerously_create(self.render().into_inner())
    }
}

} // verus!
