//! HTML escaping of text and of double-quoted attribute values.
use vstd::prelude::*;

verus! {

/// What one character becomes inside HTML text (node context).
pub open spec fn escape_text_char(c: char) -> Seq<char> {
    if c == '&' {
        "&amp;"@
    } else if c == '<' {
        "&lt;"@
    } else if c == '>' {
        "&gt;"@
    } else {
        seq![c]
    }
}

/// What one character becomes inside a double-quoted attribute value.
pub open spec fn escape_attr_char(c: char) -> Seq<char> {
    if c == '"' {
        "&quot;"@
    } else {
        escape_text_char(c)
    }
}

/// The escaping of a whole text: each character replaced by its escape.
pub open spec fn escape_text(s: Seq<char>) -> Seq<char>
    decreases s.len(),
{
    if s.len() == 0 {
        Seq::empty()
    } else {
        escape_text(s.drop_last()) + escape_text_char(s.last())
    }
}

/// The escaping of a whole attribute value.
pub open spec fn escape_attr(s: Seq<char>) -> Seq<char>
    decreases s.len(),
{
    if s.len() == 0 {
        Seq::empty()
    } else {
        escape_attr(s.drop_last()) + escape_attr_char(s.last())
    }
}

/// `html_escape::encode_text_to_string`: appends the text to `output`, with
/// `&`, `<` and `>` replaced by `&amp;`, `&lt;` and `&gt;`.
#[verifier::external_body]
pub(crate) fn encode_text_to_string(text: &str, output: &mut String)
    ensures
        final(output)@ == old(output)@ + escape_text(text@),
{
    html_escape::encode_text_to_string(text, output);
}

/// `html_escape::encode_double_quoted_attribute_to_string`: appends the text to
/// `output`, with `&`, `<`, `>` and `"` replaced by `&amp;`, `&lt;`, `&gt;` and
/// `&quot;`.
#[verifier::external_body]
pub(crate) fn encode_double_quoted_attribute_to_string(text: &str, output: &mut String)
    ensures
        final(output)@ == old(output)@ + escape_attr(text@),
{
    html_escape::encode_double_quoted_attribute_to_string(text, output);
}

/// `html_escape::encode_text`: the text with `&`, `<` and `>` replaced by
/// `&amp;`, `&lt;` and `&gt;`.
#[verifier::external_body]
pub(crate) fn encode_text(text: &str) -> (r: String)
    ensures
        r@ == escape_text(text@),
{
    html_escape::encode_text(text).into_owned()
}

/// `html_escape::encode_double_quoted_attribute`: the text with `&`, `<`, `>`
/// and `"` replaced by `&amp;`, `&lt;`, `&gt;` and `&quot;`.
#[verifier::external_body]
pub(crate) fn encode_double_quoted_attribute(text: &str) -> (r: String)
    ensures
        r@ == escape_attr(text@),
{
    html_escape::encode_double_quoted_attribute(text).into_owned()
}

/// Escaping text distributes over concatenation.
pub proof fn lemma_escape_text_concat(a: Seq<char>, b: Seq<char>)
    ensures
        escape_text(a + b) == escape_text(a) + escape_text(b),
    decreases b.len(),
{
    if b.len() == 0 {
        assert(a + b =~= a);
    } else {
        lemma_escape_text_concat(a, b.drop_last());
        assert((a + b).drop_last() =~= a + b.drop_last());
    }
}

/// Escaping an attribute value distributes over concatenation.
pub proof fn lemma_escape_attr_concat(a: Seq<char>, b: Seq<char>)
    ensures
        escape_attr(a + b) == escape_attr(a) + escape_attr(b),
    decreases b.len(),
{
    if b.len() == 0 {
        assert(a + b =~= a);
    } else {
        lemma_escape_attr_concat(a, b.drop_last());
        assert((a + b).drop_last() =~= a + b.drop_last());
    }
}

/// Escaped text holds no `<` and no `>`: rendered text can never open or
/// close a tag.
pub proof fn lemma_escape_text_safe(s: Seq<char>)
    ensures
        !escape_text(s).contains('<'),
        !escape_text(s).contains('>'),
    decreases s.len(),
{
    reveal_strlit("&amp;");
    reveal_strlit("&lt;");
    reveal_strlit("&gt;");
    if s.len() > 0 {
        lemma_escape_text_safe(s.drop_last());
        let e = escape_text_char(s.last());
        let p = escape_text(s.drop_last());
        assert forall|i: int| 0 <= i < (p + e).len() implies (p + e)[i] != '<' && (p + e)[i] != '>' by {
            if i < p.len() {
                assert(p[i] == (p + e)[i]);
                assert(!p.contains('<'));
                assert(!p.contains('>'));
            }
        }
    }
}

/// An escaped attribute value holds no `"`, `<` or `>`: it cannot end the
/// quoted value it is written in, nor open or close a tag.
pub proof fn lemma_escape_attr_safe(s: Seq<char>)
    ensures
        !escape_attr(s).contains('"'),
        !escape_attr(s).contains('<'),
        !escape_attr(s).contains('>'),
    decreases s.len(),
{
    reveal_strlit("&amp;");
    reveal_strlit("&lt;");
    reveal_strlit("&gt;");
    reveal_strlit("&quot;");
    if s.len() > 0 {
        lemma_escape_attr_safe(s.drop_last());
        let e = escape_attr_char(s.last());
        let p = escape_attr(s.drop_last());
        assert forall|i: int| 0 <= i < (p + e).len() implies (p + e)[i] != '<' && (p + e)[i] != '>'
            && (p + e)[i] != '"' by {
            if i < p.len() {
                assert(p[i] == (p + e)[i]);
                assert(!p.contains('<'));
                assert(!p.contains('>'));
                assert(!p.contains('"'));
            }
        }
    }
}

/// Text without `&`, `<` and `>` is left unchanged by escaping.
pub proof fn lemma_escape_text_plain(s: Seq<char>)
    requires
        !s.contains('&'),
        !s.contains('<'),
        !s.contains('>'),
    ensures
        escape_text(s) == s,
    decreases s.len(),
{
    if s.len() > 0 {
        assert(!s.drop_last().contains('&') && !s.drop_last().contains('<') && !s.drop_last().contains('>')) by {
            assert forall|i: int| 0 <= i < s.drop_last().len() implies s.drop_last()[i] == s[i] by {}
        }
        lemma_escape_text_plain(s.drop_last());
        assert(s.last() == s[s.len() - 1]);
        assert(s.drop_last().push(s.last()) =~= s);
    }
}

/// A value without `&`, `<`, `>` and `"` is left unchanged by attribute
/// escaping.
pub proof fn lemma_escape_attr_plain(s: Seq<char>)
    requires
        !s.contains('&'),
        !s.contains('<'),
        !s.contains('>'),
        !s.contains('"'),
    ensures
        escape_attr(s) == s,
    decreases s.len(),
{
    if s.len() > 0 {
        assert(!s.drop_last().contains('&') && !s.drop_last().contains('<') && !s.drop_last().contains('>')
            && !s.drop_last().contains('"')) by {
            assert forall|i: int| 0 <= i < s.drop_last().len() implies s.drop_last()[i] == s[i] by {}
        }
        lemma_escape_attr_plain(s.drop_last());
        assert(s.last() == s[s.len() - 1]);
        assert(s.drop_last().push(s.last()) =~= s);
    }
}

} // verus!
