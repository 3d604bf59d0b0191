//! Names of elements and attributes, and literals, as written in templates.
use vstd::prelude::*;

use crate::generate::{AttributeCheck, AttributeCheckKind};
use crate::text::{push_char, str_eq, string_from};

verus! {

/// One piece of an unquoted name such as `hx-on:click`.
#[derive(Debug)]
pub enum NameFragment {
    /// An identifier (keywords included).
    Ident(String),
    /// An integer without suffix, as in `h1` written `h-1`.
    Number(String),
    /// `-`
    Hyphen,
    /// `:`
    Colon,
    /// `.`
    Dot,
}

impl NameFragment {
    /// Whether this fragment is punctuation.
    pub open spec fn spec_is_punct(&self) -> bool {
        self is Hyphen || self is Colon || self is Dot
    }

    /// Whether this fragment is punctuation.
    pub fn is_punct(&self) -> (r: bool)
        ensures
            r == self.spec_is_punct(),
    {
        match self {
            NameFragment::Hyphen | NameFragment::Colon | NameFragment::Dot => true,
            _ => false,
        }
    }

    /// The text of this fragment as written.
    pub open spec fn text(&self) -> Seq<char> {
        match self {
            NameFragment::Ident(s) => s@,
            NameFragment::Number(s) => s@,
            NameFragment::Hyphen => seq!['-'],
            NameFragment::Colon => seq![':'],
            NameFragment::Dot => seq!['.'],
        }
    }

    /// The text of this fragment as written.
    pub fn to_text(&self) -> (r: String)
        ensures
            r@ == self.text(),
    {
        match self {
            NameFragment::Ident(s) => s.clone(),
            NameFragment::Number(s) => s.clone(),
            NameFragment::Hyphen => {
                let mut r = String::new();
                push_char(&mut r, '-');
                r
            },
            NameFragment::Colon => {
                let mut r = String::new();
                push_char(&mut r, ':');
                r
            },
            NameFragment::Dot => {
                let mut r = String::new();
                push_char(&mut r, '.');
                r
            },
        }
    }

    /// What this fragment contributes to the Rust identifier of a name:
    /// a hyphen becomes `_`.
    pub open spec fn ident_part(&self) -> Seq<char> {
        match self {
            NameFragment::Ident(s) => s@,
            NameFragment::Number(s) => s@,
            NameFragment::Hyphen => seq!['_'],
            _ => Seq::empty(),
        }
    }
}

/// The concatenation of the texts of fragments.
pub open spec fn fragments_text(frags: Seq<NameFragment>) -> Seq<char>
    decreases frags.len(),
{
    if frags.len() == 0 {
        Seq::empty()
    } else {
        fragments_text(frags.drop_last()) + frags.last().text()
    }
}

/// The concatenation of the identifier parts of fragments.
pub open spec fn fragments_ident(frags: Seq<NameFragment>) -> Seq<char>
    decreases frags.len(),
{
    if frags.len() == 0 {
        Seq::empty()
    } else {
        fragments_ident(frags.drop_last()) + frags.last().ident_part()
    }
}

/// Whether a string would not be a usable identifier as it stands: a
/// reserved path keyword, `_`, or starting with a digit.
pub open spec fn is_reserved_ident(s: Seq<char>) -> bool {
    ||| s == "super"@
    ||| s == "self"@
    ||| s == "Self"@
    ||| s == "extern"@
    ||| s == "crate"@
    ||| s == "_"@
    ||| (s.len() > 0 && '0' <= s[0] && s[0] <= '9')
}

/// An unquoted name, such as `div`, `custom-element` or `hx-on:click`.
#[derive(Debug)]
pub struct UnquotedName(pub Vec<NameFragment>);

impl UnquotedName {
    /// The name as written in HTML.
    pub open spec fn text(&self) -> Seq<char> {
        fragments_text(self.0@)
    }

    /// Whether the name is made only of identifiers, numbers and hyphens.
    pub open spec fn is_plain(&self) -> bool {
        forall|i: int| 0 <= i < self.0@.len() ==> !(#[trigger] self.0@[i] is Colon) && !(self.0@[i] is Dot)
    }

    /// The Rust identifier of the name: hyphens become `_`, and a `_` is put
    /// in front of a reserved word or a leading digit.
    pub open spec fn spec_ident_string(&self) -> Seq<char> {
        let j = fragments_ident(self.0@);
        if is_reserved_ident(j) {
            seq!['_'] + j
        } else {
            j
        }
    }

    /// The Rust identifier of the name, used to type-check it.
    pub fn ident_string(&self) -> (r: String)
        requires
            self.is_plain(),
        ensures
            r@ == self.spec_ident_string(),
    {
        let mut s = String::new();
        let n = self.0.len();
        let mut i: usize = 0;
        while i < n
            invariant
                n == self.0@.len(),
                i <= n,
                s@ == fragments_ident(self.0@.take(i as int)),
            decreases n - i,
        {
            match &self.0[i] {
                NameFragment::Ident(t) => s.append(t.as_str()),
                NameFragment::Number(t) => s.append(t.as_str()),
                NameFragment::Hyphen => push_char(&mut s, '_'),
                _ => {
                    assert(self.0@[i as int] is Colon || self.0@[i as int] is Dot);
                },
            }
            assert(self.0@.take(i + 1).drop_last() =~= self.0@.take(i as int));
            i += 1;
        }
        assert(self.0@.take(n as int) =~= self.0@);
        let reserved = str_eq(s.as_str(), "super") || str_eq(s.as_str(), "self") || str_eq(
            s.as_str(),
            "Self",
        ) || str_eq(s.as_str(), "extern") || str_eq(s.as_str(), "crate") || str_eq(
            s.as_str(),
            "_",
        ) || starts_with_digit(s.as_str());
        if reserved {
            let mut r = String::new();
            push_char(&mut r, '_');
            r.append(s.as_str());
            r
        } else {
            s
        }
    }

    /// Whether the name names a component: a single identifier starting with
    /// an ASCII uppercase letter.
    pub open spec fn spec_is_component(&self) -> bool {
        &&& self.0@.len() == 1
        &&& self.0@[0] is Ident
        &&& self.0@[0]->Ident_0@.len() > 0
        &&& 'A' <= self.0@[0]->Ident_0@[0] <= 'Z'
    }

    /// Whether the name names a component.
    pub fn is_component(&self) -> (r: bool)
        ensures
            r == self.spec_is_component(),
    {
        if self.0.len() != 1 {
            return false;
        }
        match &self.0[0] {
            NameFragment::Ident(s) => {
                let str = s.as_str();
                if str.unicode_len() == 0 {
                    false
                } else {
                    let c = str.get_char(0);
                    'A' <= c && c <= 'Z'
                }
            },
            _ => false,
        }
    }

    /// The text of each fragment, in order.
    pub fn lits(&self) -> (r: Vec<String>)
        ensures
            r@.len() == self.0@.len(),
            forall|i: int| 0 <= i < r@.len() ==> (#[trigger] r@[i])@ == self.0@[i].text(),
    {
        let mut r: Vec<String> = Vec::new();
        let n = self.0.len();
        let mut i: usize = 0;
        while i < n
            invariant
                n == self.0@.len(),
                i <= n,
                r@.len() == i,
                forall|j: int| 0 <= j < i ==> (#[trigger] r@[j])@ == self.0@[j].text(),
            decreases n - i,
        {
            r.push(self.0[i].to_text());
            i += 1;
        }
        r
    }
}

/// Whether a string starts with an ASCII digit.
fn starts_with_digit(s: &str) -> (r: bool)
    ensures
        r == (s@.len() > 0 && '0' <= s@[0] && s@[0] <= '9'),
{
    if s.unicode_len() == 0 {
        false
    } else {
        let c = s.get_char(0);
        '0' <= c && c <= '9'
    }
}

/// A symbol that starts an attribute name.
#[derive(Debug, Clone, Copy, PartialEq, Eq)]
pub enum AttributeSymbol {
    /// `@`, as in Alpine's `@click`.
    At,
    /// `:`, as in Alpine's `:class`.
    Colon,
}

impl AttributeSymbol {
    /// The symbol as written.
    pub open spec fn text(&self) -> Seq<char> {
        match self {
            AttributeSymbol::At => seq!['@'],
            AttributeSymbol::Colon => seq![':'],
        }
    }

    /// The identifier that stands for the symbol when type-checking.
    pub open spec fn spec_ident_string(&self) -> Seq<char> {
        match self {
            AttributeSymbol::At => "_at"@,
            AttributeSymbol::Colon => "_colon"@,
        }
    }

    /// The symbol as written.
    pub fn lit(&self) -> (r: String)
        ensures
            r@ == self.text(),
    {
        let mut r = String::new();
        match self {
            AttributeSymbol::At => push_char(&mut r, '@'),
            AttributeSymbol::Colon => push_char(&mut r, ':'),
        }
        r
    }

    /// The identifier that stands for the symbol when type-checking.
    pub fn ident_string(&self) -> (r: String)
        ensures
            r@ == self.spec_ident_string(),
    {
        match self {
            AttributeSymbol::At => string_from("_at"),
            AttributeSymbol::Colon => string_from("_colon"),
        }
    }
}

/// The name of an attribute.
#[derive(Debug)]
pub enum AttributeName {
    /// `data-...`: never type-checked.
    Data { rest: UnquotedName },
    /// `namespace:rest`, as in `hx-on:click`.
    Namespace { namespace: UnquotedName, rest: UnquotedName },
    /// A symbol then a name, as in `@click.shift`.
    Symbol { symbol: AttributeSymbol, rest: UnquotedName },
    /// A plain name.
    Normal(UnquotedName),
    /// A name written as a string literal, by its value: rendered as
    /// written and never type-checked.
    Quoted(String),
}

impl AttributeName {
    /// Whether the parts that are type-checked are plain names.
    pub open spec fn well_formed(&self) -> bool {
        match self {
            AttributeName::Namespace { namespace, .. } => namespace.is_plain(),
            AttributeName::Normal(name) => name.is_plain(),
            _ => true,
        }
    }

    /// The name as written in HTML.
    pub open spec fn text(&self) -> Seq<char> {
        match self {
            AttributeName::Data { rest } => "data-"@ + rest.text(),
            AttributeName::Namespace { namespace, rest } => namespace.text() + seq![':'] + rest.text(),
            AttributeName::Symbol { symbol, rest } => symbol.text() + rest.text(),
            AttributeName::Normal(name) => name.text(),
            AttributeName::Quoted(s) => s@,
        }
    }

    /// The type check this attribute asks for, if any.
    pub open spec fn spec_check(&self) -> Option<(AttributeCheckKind, Seq<char>)> {
        match self {
            AttributeName::Data { .. } => None,
            AttributeName::Namespace { namespace, .. } => Some(
                (AttributeCheckKind::Namespace, namespace.spec_ident_string()),
            ),
            AttributeName::Symbol { symbol, .. } => Some(
                (AttributeCheckKind::Symbol, symbol.spec_ident_string()),
            ),
            AttributeName::Normal(name) => Some((AttributeCheckKind::Normal, name.spec_ident_string())),
            AttributeName::Quoted(_) => None,
        }
    }

    /// The type check this attribute asks for: none for `data-` attributes
    /// and quoted names.
    pub fn check(&self) -> (r: Option<AttributeCheck>)
        requires
            self.well_formed(),
        ensures
            match self.spec_check() {
                None => r is None,
                Some((kind, ident)) => r matches Some(c) && c.kind == kind && c.ident@ == ident,
            },
    {
        match self {
            AttributeName::Data { .. } => None,
            AttributeName::Namespace { namespace, .. } => Some(
                AttributeCheck { kind: AttributeCheckKind::Namespace, ident: namespace.ident_string() },
            ),
            AttributeName::Symbol { symbol, .. } => Some(
                AttributeCheck { kind: AttributeCheckKind::Symbol, ident: symbol.ident_string() },
            ),
            AttributeName::Normal(name) => Some(
                AttributeCheck { kind: AttributeCheckKind::Normal, ident: name.ident_string() },
            ),
            AttributeName::Quoted(_) => None,
        }
    }
}

/// A literal written in a template.
#[derive(Debug)]
pub enum Literal {
    /// A string literal, by its value.
    Str(String),
    /// An integer literal, as written.
    Int(String),
    /// `true` or `false`.
    Bool(bool),
    /// A floating-point literal, as written.
    Float(String),
    /// A character literal, by its value.
    Char(String),
}

impl Literal {
    /// The text the literal stands for.
    pub open spec fn text(&self) -> Seq<char> {
        match self {
            Literal::Str(s) => s@,
            Literal::Int(s) => s@,
            Literal::Bool(b) => if *b { "true"@ } else { "false"@ },
            Literal::Float(s) => s@,
            Literal::Char(s) => s@,
        }
    }

    /// The text the literal stands for, as a string.
    pub fn lit_str(&self) -> (r: String)
        ensures
            r@ == self.text(),
    {
        match self {
            Literal::Str(s) => s.clone(),
            Literal::Int(s) => s.clone(),
            Literal::Bool(b) => if *b { string_from("true") } else { string_from("false") },
            Literal::Float(s) => s.clone(),
            Literal::Char(s) => s.clone(),
        }
    }
}

} // verus!
