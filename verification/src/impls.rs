//! [`Renderable`] for the standard types: strings and characters (escaped),
//! booleans and integers (as text), containers and tuples (their items).
use std::rc::Rc;
use std::sync::Arc;

use vstd::prelude::*;

use crate::context::{AttributeValue, Context, Node};
use crate::escape::{
    encode_double_quoted_attribute_to_string, encode_text_to_string, escape_attr, escape_attr_char,
    escape_text, escape_text_char,
};
use crate::number::{format_i128, format_u128, int_decimal};
use crate::render::{Buffer, Raw, Renderable};

verus! {

impl<C: Context> Renderable<C> for Raw<String, C> {
    open spec fn html(&self) -> Seq<char> {
        self@
    }

    fn render_to(&self, buffer: &mut Buffer<C>) {
        buffer.dangerously_push_str(self.as_str());
    }
}

impl<'a, C: Context> Renderable<C> for Raw<&'a str, C> {
    open spec fn html(&self) -> Seq<char> {
        self@
    }

    fn render_to(&self, buffer: &mut Buffer<C>) {
        buffer.dangerously_push_str(self.as_str());
    }
}

impl Renderable for char {
    open spec fn html(&self) -> Seq<char> {
        escape_text_char(*self)
    }

    fn render_to(&self, buffer: &mut Buffer) {
        let c = *self;
        if c == '&' {
            buffer.dangerously_push_str("&amp;");
        } else if c == '<' {
            buffer.dangerously_push_str("&lt;");
        } else if c == '>' {
            buffer.dangerously_push_str("&gt;");
        } else {
            buffer.dangerously_push_char(c);
        }
    }
}

impl Renderable<AttributeValue> for char {
    open spec fn html(&self) -> Seq<char> {
        escape_attr_char(*self)
    }

    fn render_to(&self, buffer: &mut Buffer<AttributeValue>) {
        let c = *self;
        if c == '&' {
            buffer.dangerously_push_str("&amp;");
        } else if c == '<' {
            buffer.dangerously_push_str("&lt;");
        } else if c == '>' {
            buffer.dangerously_push_str("&gt;");
        } else if c == '"' {
            buffer.dangerously_push_str("&quot;");
        } else {
            buffer.dangerously_push_char(c);
        }
    }
}

impl Renderable for str {
    open spec fn html(&self) -> Seq<char> {
        escape_text(self@)
    }

    fn render_to(&self, buffer: &mut Buffer) {
        encode_text_to_string(self, buffer.dangerously_get_string());
    }
}

impl Renderable<AttributeValue> for str {
    open spec fn html(&self) -> Seq<char> {
        escape_attr(self@)
    }

    fn render_to(&self, buffer: &mut Buffer<AttributeValue>) {
        encode_double_quoted_attribute_to_string(self, buffer.dangerously_get_string());
    }
}

impl Renderable for String {
    open spec fn html(&self) -> Seq<char> {
        escape_text(self@)
    }

    fn render_to(&self, buffer: &mut Buffer) {
        Renderable::<Node>::render_to(self.as_str(), buffer);
    }
}

impl Renderable<AttributeValue> for String {
    open spec fn html(&self) -> Seq<char> {
        escape_attr(self@)
    }

    fn render_to(&self, buffer: &mut Buffer<AttributeValue>) {
        Renderable::<AttributeValue>::render_to(self.as_str(), buffer);
    }
}

/// The text of a boolean.
pub open spec fn bool_text(b: bool) -> Seq<char> {
    if b {
        "true"@
    } else {
        "false"@
    }
}

impl<C: Context> Renderable<C> for bool {
    open spec fn html(&self) -> Seq<char> {
        bool_text(*self)
    }

    fn render_to(&self, buffer: &mut Buffer<C>) {
        if *self {
            buffer.dangerously_push_str("true");
        } else {
            buffer.dangerously_push_str("false");
        }
    }
}

impl<C: Context> Renderable<C> for i8 {
    open spec fn html(&self) -> Seq<char> {
        int_decimal(*self as int)
    }

    /// Appends the decimal text of the value, `-` first when it is negative.
    fn render_to(&self, buffer: &mut Buffer<C>)
        ensures
            final(buffer)@ == old(buffer)@ + int_decimal(*self as int),
    {
        let text = format_i128(*self as i128);
        buffer.dangerously_push_str(text.as_str());
    }
}

impl<C: Context> Renderable<C> for i16 {
    open spec fn html(&self) -> Seq<char> {
        int_decimal(*self as int)
    }

    /// Appends the decimal text of the value, `-` first when it is negative.
    fn render_to(&self, buffer: &mut Buffer<C>)
        ensures
            final(buffer)@ == old(buffer)@ + int_decimal(*self as int),
    {
        let text = format_i128(*self as i128);
        buffer.dangerously_push_str(text.as_str());
    }
}

impl<C: Context> Renderable<C> for i32 {
    open spec fn html(&self) -> Seq<char> {
        int_decimal(*self as int)
    }

    /// Appends the decimal text of the value, `-` first when it is negative.
    fn render_to(&self, buffer: &mut Buffer<C>)
        ensures
            final(buffer)@ == old(buffer)@ + int_decimal(*self as int),
    {
        let text = format_i128(*self as i128);
        buffer.dangerously_push_str(text.as_str());
    }
}

impl<C: Context> Renderable<C> for i64 {
    open spec fn html(&self) -> Seq<char> {
        int_decimal(*self as int)
    }

    /// Appends the decimal text of the value, `-` first when it is negative.
    fn render_to(&self, buffer: &mut Buffer<C>)
        ensures
            final(buffer)@ == old(buffer)@ + int_decimal(*self as int),
    {
        let text = format_i128(*self as i128);
        buffer.dangerously_push_str(text.as_str());
    }
}

impl<C: Context> Renderable<C> for i128 {
    open spec fn html(&self) -> Seq<char> {
        int_decimal(*self as int)
    }

    /// Appends the decimal text of the value, `-` first when it is negative.
    fn render_to(&self, buffer: &mut Buffer<C>)
        ensures
            final(buffer)@ == old(buffer)@ + int_decimal(*self as int),
    {
        let text = format_i128(*self as i128);
        buffer.dangerously_push_str(text.as_str());
    }
}

impl<C: Context> Renderable<C> for isize {
    open spec fn html(&self) -> Seq<char> {
        int_decimal(*self as int)
    }

    /// Appends the decimal text of the value, `-` first when it is negative.
    fn render_to(&self, buffer: &mut Buffer<C>)
        ensures
            final(buffer)@ == old(buffer)@ + int_decimal(*self as int),
    {
        let text = format_i128(*self as i128);
        buffer.dangerously_push_str(text.as_str());
    }
}

impl<C: Context> Renderable<C> for u8 {
    open spec fn html(&self) -> Seq<char> {
        int_decimal(*self as int)
    }

    /// Appends the decimal text of the value, `-` first when it is negative.
    fn render_to(&self, buffer: &mut Buffer<C>)
        ensures
            final(buffer)@ == old(buffer)@ + int_decimal(*self as int),
    {
        let text = format_u128(*self as u128);
        buffer.dangerously_push_str(text.as_str());
    }
}

impl<C: Context> Renderable<C> for u16 {
    open spec fn html(&self) -> Seq<char> {
        int_decimal(*self as int)
    }

    /// Appends the decimal text of the value, `-` first when it is negative.
    fn render_to(&self, buffer: &mut Buffer<C>)
        ensures
            final(buffer)@ == old(buffer)@ + int_decimal(*self as int),
    {
        let text = format_u128(*self as u128);
        buffer.dangerously_push_str(text.as_str());
    }
}

impl<C: Context> Renderable<C> for u32 {
    open spec fn html(&self) -> Seq<char> {
        int_decimal(*self as int)
    }

    /// Appends the decimal text of the value, `-` first when it is negative.
    fn render_to(&self, buffer: &mut Buffer<C>)
        ensures
            final(buffer)@ == old(buffer)@ + int_decimal(*self as int),
    {
        let text = format_u128(*self as u128);
        buffer.dangerously_push_str(text.as_str());
    }
}

impl<C: Context> Renderable<C> for u64 {
    open spec fn html(&self) -> Seq<char> {
        int_decimal(*self as int)
    }

    /// Appends the decimal text of the value, `-` first when it is negative.
    fn render_to(&self, buffer: &mut Buffer<C>)
        ensures
            final(buffer)@ == old(buffer)@ + int_decimal(*self as int),
    {
        let text = format_u128(*self as u128);
        buffer.dangerously_push_str(text.as_str());
    }
}

impl<C: Context> Renderable<C> for u128 {
    open spec fn html(&self) -> Seq<char> {
        int_decimal(*self as int)
    }

    /// Appends the decimal text of the value, `-` first when it is negative.
    fn render_to(&self, buffer: &mut Buffer<C>)
        ensures
            final(buffer)@ == old(buffer)@ + int_decimal(*self as int),
    {
        let text = format_u128(*self as u128);
        buffer.dangerously_push_str(text.as_str());
    }
}

impl<C: Context> Renderable<C> for usize {
    open spec fn html(&self) -> Seq<char> {
        int_decimal(*self as int)
    }

    /// Appends the decimal text of the value, `-` first when it is negative.
    fn render_to(&self, buffer: &mut Buffer<C>)
        ensures
            final(buffer)@ == old(buffer)@ + int_decimal(*self as int),
    {
        let text = format_u128(*self as u128);
        buffer.dangerously_push_str(text.as_str());
    }
}

impl<'a, C: Context, T: Renderable<C> + ?Sized> Renderable<C> for &'a T {
    open spec fn html(&self) -> Seq<char> {
        (**self).html()
    }

    fn render_to(&self, buffer: &mut Buffer<C>) {
        (**self).render_to(buffer);
    }
}

impl<'a, C: Context, T: Renderable<C> + ?Sized> Renderable<C> for &'a mut T {
    open spec fn html(&self) -> Seq<char> {
        (**self).html()
    }

    fn render_to(&self, buffer: &mut Buffer<C>) {
        (**self).render_to(buffer);
    }
}

impl<C: Context, T: Renderable<C> + ?Sized> Renderable<C> for Box<T> {
    open spec fn html(&self) -> Seq<char> {
        (**self).html()
    }

    fn render_to(&self, buffer: &mut Buffer<C>) {
        (**self).render_to(buffer);
    }
}

impl<C: Context, T: Renderable<C> + ?Sized> Renderable<C> for Rc<T> {
    open spec fn html(&self) -> Seq<char> {
        (**self).html()
    }

    fn render_to(&self, buffer: &mut Buffer<C>) {
        (**self).render_to(buffer);
    }
}

impl<C: Context, T: Renderable<C> + ?Sized> Renderable<C> for Arc<T> {
    open spec fn html(&self) -> Seq<char> {
        (**self).html()
    }

    fn render_to(&self, buffer: &mut Buffer<C>) {
        (**self).render_to(buffer);
    }
}

/// The concatenation of the renderings of a sequence of values.
pub open spec fn html_of_all<T: Renderable>(items: Seq<T>) -> Seq<char>
    decreases items.len(),
{
    if items.len() == 0 {
        Seq::empty()
    } else {
        html_of_all(items.drop_last()) + items.last().html()
    }
}

/// Renders each item of a slice in order.
fn render_all<T: Renderable>(items: &[T], buffer: &mut Buffer)
    ensures
        final(buffer)@ == old(buffer)@ + html_of_all(items@),
{
    let n = items.len();
    let mut i: usize = 0;
    while i < n
        invariant
            n == items@.len(),
            i <= n,
            buffer@ == old(buffer)@ + html_of_all(items@.take(i as int)),
        decreases n - i,
    {
        items[i].render_to(buffer);
        assert(items@.take(i + 1).drop_last() =~= items@.take(i as int));
        i += 1;
    }
    assert(items@.take(n as int) =~= items@);
}

impl<T: Renderable> Renderable for [T] {
    open spec fn html(&self) -> Seq<char> {
        html_of_all(self@)
    }

    fn render_to(&self, buffer: &mut Buffer) {
        render_all(self, buffer);
    }
}

impl<T: Renderable, const N: usize> Renderable for [T; N] {
    open spec fn html(&self) -> Seq<char> {
        html_of_all(self@)
    }

    fn render_to(&self, buffer: &mut Buffer) {
        render_all(self.as_slice(), buffer);
    }
}

impl<T: Renderable> Renderable for Vec<T> {
    open spec fn html(&self) -> Seq<char> {
        html_of_all(self@)
    }

    fn render_to(&self, buffer: &mut Buffer) {
        render_all(self.as_slice(), buffer);
    }
}

impl<C: Context, T: Renderable<C>> Renderable<C> for Option<T> {
    open spec fn html(&self) -> Seq<char> {
        match self {
            Some(value) => value.html(),
            None => Seq::empty(),
        }
    }

    fn render_to(&self, buffer: &mut Buffer<C>) {
        if let Some(value) = self {
            value.render_to(buffer);
        }
    }
}

impl<C: Context, T: Renderable<C>, E: Renderable<C>> Renderable<C> for Result<T, E> {
    open spec fn html(&self) -> Seq<char> {
        match self {
            Ok(value) => value.html(),
            Err(err) => err.html(),
        }
    }

    fn render_to(&self, buffer: &mut Buffer<C>) {
        match self {
            Ok(value) => value.render_to(buffer),
            Err(err) => err.render_to(buffer),
        }
    }
}

impl<C: Context> Renderable<C> for () {
    open spec fn html(&self) -> Seq<char> {
        Seq::empty()
    }

    fn render_to(&self, buffer: &mut Buffer<C>) {
    }
}

impl<C: Context, T0: Renderable<C>> Renderable<C> for (T0,) {
    open spec fn html(&self) -> Seq<char> {
        self.0.html()
    }

    fn render_to(&self, buffer: &mut Buffer<C>) {
        self.0.render_to(buffer);
    }
}

impl<C: Context, T0: Renderable<C>, T1: Renderable<C>> Renderable<C> for (T0, T1) {
    open spec fn html(&self) -> Seq<char> {
        self.0.html() + self.1.html()
    }

    fn render_to(&self, buffer: &mut Buffer<C>) {
        self.0.render_to(buffer);
        self.1.render_to(buffer);
    }
}

impl<C: Context, T0: Renderable<C>, T1: Renderable<C>, T2: Renderable<C>> Renderable<C> for (T0, T1, T2) {
    open spec fn html(&self) -> Seq<char> {
        self.0.html() + self.1.html() + self.2.html()
    }

    fn render_to(&self, buffer: &mut Buffer<C>) {
        self.0.render_to(buffer);
        self.1.render_to(buffer);
        self.2.render_to(buffer);
    }
}

impl<C: Context, T0: Renderable<C>, T1: Renderable<C>, T2: Renderable<C>, T3: Renderable<C>> Renderable<C> for (T0, T1, T2, T3) {
    open spec fn html(&self) -> Seq<char> {
        self.0.html() + self.1.html() + self.2.html() + self.3.html()
    }

    fn render_to(&self, buffer: &mut Buffer<C>) {
        self.0.render_to(buffer);
        self.1.render_to(buffer);
        self.2.render_to(buffer);
        self.3.render_to(buffer);
    }
}

impl<C: Context, T0: Renderable<C>, T1: Renderable<C>, T2: Renderable<C>, T3: Renderable<C>, T4: Renderable<C>> Renderable<C> for (T0, T1, T2, T3, T4) {
    open spec fn html(&self) -> Seq<char> {
        self.0.html() + self.1.html() + self.2.html() + self.3.html() + self.4.html()
    }

    fn render_to(&self, buffer: &mut Buffer<C>) {
        self.0.render_to(buffer);
        self.1.render_to(buffer);
        self.2.render_to(buffer);
        self.3.render_to(buffer);
        self.4.render_to(buffer);
    }
}

impl<C: Context, T0: Renderable<C>, T1: Renderable<C>, T2: Renderable<C>, T3: Renderable<C>, T4: Renderable<C>, T5: Renderable<C>> Renderable<C> for (T0, T1, T2, T3, T4, T5) {
    open spec fn html(&self) -> Seq<char> {
        self.0.html() + self.1.html() + self.2.html() + self.3.html() + self.4.html() + self.5.html()
    }

    fn render_to(&self, buffer: &mut Buffer<C>) {
        self.0.render_to(buffer);
        self.1.render_to(buffer);
        self.2.render_to(buffer);
        self.3.render_to(buffer);
        self.4.render_to(buffer);
        self.5.render_to(buffer);
    }
}

impl<C: Context, T0: Renderable<C>, T1: Renderable<C>, T2: Renderable<C>, T3: Renderable<C>, T4: Renderable<C>, T5: Renderable<C>, T6: Renderable<C>> Renderable<C> for (T0, T1, T2, T3, T4, T5, T6) {
    open spec fn html(&self) -> Seq<char> {
        self.0.html() + self.1.html() + self.2.html() + self.3.html() + self.4.html() + self.5.html() + self.6.html()
    }

    fn render_to(&self, buffer: &mut Buffer<C>) {
        self.0.render_to(buffer);
        self.1.render_to(buffer);
        self.2.render_to(buffer);
        self.3.render_to(buffer);
        self.4.render_to(buffer);
        self.5.render_to(buffer);
        self.6.render_to(buffer);
    }
}

impl<C: Context, T0: Renderable<C>, T1: Renderable<C>, T2: Renderable<C>, T3: Renderable<C>, T4: Renderable<C>, T5: Renderable<C>, T6: Renderable<C>, T7: Renderable<C>> Renderable<C> for (T0, T1, T2, T3, T4, T5, T6, T7) {
    open spec fn html(&self) -> Seq<char> {
        self.0.html() + self.1.html() + self.2.html() + self.3.html() + self.4.html() + self.5.html() + self.6.html() + self.7.html()
    }

    fn render_to(&self, buffer: &mut Buffer<C>) {
        self.0.render_to(buffer);
        self.1.render_to(buffer);
        self.2.render_to(buffer);
        self.3.render_to(buffer);
        self.4.render_to(buffer);
        self.5.render_to(buffer);
        self.6.render_to(buffer);
        self.7.render_to(buffer);
    }
}

impl<C: Context, T0: Renderable<C>, T1: Renderable<C>, T2: Renderable<C>, T3: Renderable<C>, T4: Renderable<C>, T5: Renderable<C>, T6: Renderable<C>, T7: Renderable<C>, T8: Renderable<C>> Renderable<C> for (T0, T1, T2, T3, T4, T5, T6, T7, T8) {
    open spec fn html(&self) -> Seq<char> {
        self.0.html() + self.1.html() + self.2.html() + self.3.html() + self.4.html() + self.5.html() + self.6.html() + self.7.html() + self.8.html()
    }

    fn render_to(&self, buffer: &mut Buffer<C>) {
        self.0.render_to(buffer);
        self.1.render_to(buffer);
        self.2.render_to(buffer);
        self.3.render_to(buffer);
        self.4.render_to(buffer);
        self.5.render_to(buffer);
        self.6.render_to(buffer);
        self.7.render_to(buffer);
        self.8.render_to(buffer);
    }
}

impl<C: Context, T0: Renderable<C>, T1: Renderable<C>, T2: Renderable<C>, T3: Renderable<C>, T4: Renderable<C>, T5: Renderable<C>, T6: Renderable<C>, T7: Renderable<C>, T8: Renderable<C>, T9: Renderable<C>> Renderable<C> for (T0, T1, T2, T3, T4, T5, T6, T7, T8, T9) {
    open spec fn html(&self) -> Seq<char> {
        self.0.html() + self.1.html() + self.2.html() + self.3.html() + self.4.html() + self.5.html() + self.6.html() + self.7.html() + self.8.html() + self.9.html()
    }

    fn render_to(&self, buffer: &mut Buffer<C>) {
        self.0.render_to(buffer);
        self.1.render_to(buffer);
        self.2.render_to(buffer);
        self.3.render_to(buffer);
        self.4.render_to(buffer);
        self.5.render_to(buffer);
        self.6.render_to(buffer);
        self.7.render_to(buffer);
        self.8.render_to(buffer);
        self.9.render_to(buffer);
    }
}

impl<C: Context, T0: Renderable<C>, T1: Renderable<C>, T2: Renderable<C>, T3: Renderable<C>, T4: Renderable<C>, T5: Renderable<C>, T6: Renderable<C>, T7: Renderable<C>, T8: Renderable<C>, T9: Renderable<C>, T10: Renderable<C>> Renderable<C> for (T0, T1, T2, T3, T4, T5, T6, T7, T8, T9, T10) {
    open spec fn html(&self) -> Seq<char> {
        self.0.html() + self.1.html() + self.2.html() + self.3.html() + self.4.html() + self.5.html() + self.6.html() + self.7.html() + self.8.html() + self.9.html() + self.10.html()
    }

    fn render_to(&self, buffer: &mut Buffer<C>) {
        self.0.render_to(buffer);
        self.1.render_to(buffer);
        self.2.render_to(buffer);
        self.3.render_to(buffer);
        self.4.render_to(buffer);
        self.5.render_to(buffer);
        self.6.render_to(buffer);
        self.7.render_to(buffer);
        self.8.render_to(buffer);
        self.9.render_to(buffer);
        self.10.render_to(buffer);
    }
}

impl<C: Context, T0: Renderable<C>, T1: Renderable<C>, T2: Renderable<C>, T3: Renderable<C>, T4: Renderable<C>, T5: Renderable<C>, T6: Renderable<C>, T7: Renderable<C>, T8: Renderable<C>, T9: Renderable<C>, T10: Renderable<C>, T11: Renderable<C>> Renderable<C> for (T0, T1, T2, T3, T4, T5, T6, T7, T8, T9, T10, T11) {
    open spec fn html(&self) -> Seq<char> {
        self.0.html() + self.1.html() + self.2.html() + self.3.html() + self.4.html() + self.5.html() + self.6.html() + self.7.html() + self.8.html() + self.9.html() + self.10.html() + self.11.html()
    }

    fn render_to(&self, buffer: &mut Buffer<C>) {
        self.0.render_to(buffer);
        self.1.render_to(buffer);
        self.2.render_to(buffer);
        self.3.render_to(buffer);
        self.4.render_to(buffer);
        self.5.render_to(buffer);
        self.6.render_to(buffer);
        self.7.render_to(buffer);
        self.8.render_to(buffer);
        self.9.render_to(buffer);
        self.10.render_to(buffer);
        self.11.render_to(buffer);
    }
}

} // verus!
