//! The grammar of templates, stated over token sequences, and the abstract
//! form of what it reads.
//!
//! Rust code embedded in a template (conditions, patterns, expressions) is
//! carried as tokens: a condition runs up to the brace that opens its block,
//! a `@for` pattern up to `in`, a match pattern up to `=>`, a `@let` up to
//! its semicolon.
use vstd::prelude::*;

use crate::names::{AttributeName, AttributeSymbol, Literal, NameFragment, UnquotedName};
use crate::node::{
    Attribute, AttributeKind, Class, Component, Control, ControlIfOrBlock, ElementBody,
    ElementNode, If, MatchNodeArm, MatchNodeArmBody,
};
use crate::tokens::{Delimiter, LitKind, Spacing, TokenTree};
use crate::unindent::spec_unindent;

verus! {

/// What kind of nodes are read.
#[derive(Debug, Clone, Copy, PartialEq, Eq)]
pub enum Mode {
    /// Element content in Maud syntax.
    Maud,
    /// Element content in rsx syntax.
    Rsx,
    /// A Maud attribute value: strings, integers, booleans, expressions.
    Value,
    /// A value that may also be an unquoted name: Maud `#id` and `.class`
    /// values, and rsx attribute values.
    Name,
}

// ---------------------------------------------------------------------------
// Token sequences

/// The number of tokens in a tree, those inside groups included.
pub open spec fn tree_size(t: TokenTree) -> nat
    decreases t,
{
    match t {
        TokenTree::Group(_, inner) => 1 + seq_size(inner@),
        _ => 1,
    }
}

/// The number of tokens in a sequence, those inside groups included.
pub open spec fn seq_size(s: Seq<TokenTree>) -> nat
    decreases s,
{
    if s.len() == 0 {
        0
    } else {
        tree_size(s[0]) + seq_size(s.subrange(1, s.len() as int))
    }
}

/// `r` is what is left of `ts` once some tokens at its front are read.
pub open spec fn is_suffix(r: Seq<TokenTree>, ts: Seq<TokenTree>) -> bool {
    r.len() <= ts.len() && r == ts.subrange(ts.len() - r.len(), ts.len() as int)
}

/// The tokens of a group; none for another token.
pub open spec fn group_tokens(t: TokenTree) -> Seq<TokenTree> {
    match t {
        TokenTree::Group(_, inner) => inner@,
        _ => Seq::empty(),
    }
}

/// The text of an identifier; empty for another token.
pub open spec fn ident_text(t: TokenTree) -> Seq<char> {
    match t {
        TokenTree::Ident(s) => s@,
        _ => Seq::empty(),
    }
}

/// The punctuation character `c`.
pub open spec fn is_punct(t: TokenTree, c: char) -> bool {
    t matches TokenTree::Punct(x, _) && x == c
}

/// The punctuation character `c`, directly followed by another one.
pub open spec fn is_joint_punct(t: TokenTree, c: char) -> bool {
    t matches TokenTree::Punct(x, s) && x == c && s == Spacing::Joint
}

/// The identifier `w`.
pub open spec fn is_word(t: TokenTree, w: Seq<char>) -> bool {
    t matches TokenTree::Ident(x) && x@ == w
}

/// A group with delimiter `d`.
pub open spec fn is_group(t: TokenTree, d: Delimiter) -> bool {
    t matches TokenTree::Group(x, _) && x == d
}

/// A literal of kind `k`.
pub open spec fn is_lit(t: TokenTree, k: LitKind) -> bool {
    t matches TokenTree::Literal(l) && l.kind == k
}

/// The value of a literal token: the characters of a string.
pub open spec fn lit_value(t: TokenTree) -> Seq<char> {
    match t {
        TokenTree::Literal(l) => l.value@,
        _ => Seq::empty(),
    }
}

/// A literal token without a suffix.
pub open spec fn is_unsuffixed(t: TokenTree) -> bool {
    t matches TokenTree::Literal(l) && l.suffix@.len() == 0
}

/// `ts` without its first `k` tokens.
pub open spec fn skip(ts: Seq<TokenTree>, k: int) -> Seq<TokenTree> {
    ts.subrange(k, ts.len() as int)
}

/// The first token is `,`: skip it.
pub open spec fn skip_comma(ts: Seq<TokenTree>) -> Seq<TokenTree> {
    if ts.len() > 0 && is_punct(ts[0], ',') {
        skip(ts, 1)
    } else {
        ts
    }
}

/// A sequence read from the front of `ts`: what was read, and what is left.
pub type Parsed<X> = Option<(X, Seq<TokenTree>)>;

// ---------------------------------------------------------------------------
// The abstract form of what is read

/// A name fragment.
pub ghost enum FragV {
    Ident(Seq<char>),
    Number(Seq<char>),
    Hyphen,
    Colon,
    Dot,
}

/// An attribute name.
pub ghost enum AttrNameV {
    Data(Seq<FragV>),
    Namespace(Seq<FragV>, Seq<FragV>),
    Symbol(AttributeSymbol, Seq<FragV>),
    Normal(Seq<FragV>),
    Quoted(Seq<char>),
}

/// A literal.
pub ghost enum LitV {
    Str(Seq<char>),
    Int(Seq<char>),
    Bool(bool),
    Float(Seq<char>),
    Char(Seq<char>),
}

/// A node.
pub ghost enum NodeV {
    Doctype,
    Element { name: Seq<FragV>, attrs: Seq<AttrV>, body: BodyV },
    Component {
        name: Seq<char>,
        attrs: Seq<(Seq<char>, Seq<TokenTree>)>,
        dotdot: bool,
        body: BodyV,
    },
    Literal(LitV),
    Control(ControlV),
    Expr(Seq<TokenTree>),
    Group(Seq<NodeV>),
    Name(Seq<FragV>),
}

/// The body of an element or component.
pub ghost enum BodyV {
    Normal { children: Seq<NodeV>, closing: Option<Seq<FragV>> },
    Void,
}

/// An attribute.
pub ghost struct AttrV {
    pub name: AttrNameV,
    pub kind: AttrKindV,
}

/// How an attribute is given.
pub ghost enum AttrKindV {
    Value { value: NodeV, toggle: Option<Seq<TokenTree>> },
    Empty(Option<Seq<TokenTree>>),
    Option(Seq<TokenTree>),
    ClassList(Seq<ClassV>),
}

/// A class of a class list.
pub ghost struct ClassV {
    pub value: NodeV,
    pub toggle: Option<Seq<TokenTree>>,
}

/// Control flow.
pub ghost enum ControlV {
    Let(Seq<TokenTree>),
    If(IfV),
    For { pat: Seq<TokenTree>, expr: Seq<TokenTree>, body: Seq<NodeV> },
    While { cond: Seq<TokenTree>, body: Seq<NodeV> },
    Match { expr: Seq<TokenTree>, arms: Seq<ArmV> },
}

/// An `@if`.
pub ghost struct IfV {
    pub cond: Seq<TokenTree>,
    pub then_block: Seq<NodeV>,
    pub else_branch: Option<Box<ElseV>>,
}

/// What follows `@else`.
pub ghost enum ElseV {
    If(IfV),
    Block(Seq<NodeV>),
}

/// A match arm.
pub ghost struct ArmV {
    pub pat: Seq<TokenTree>,
    pub body: ArmBodyV,
}

/// The body of a match arm.
pub ghost enum ArmBodyV {
    Block(Seq<NodeV>),
    Node(Box<NodeV>),
}

// ---------------------------------------------------------------------------
// Views of the parsed form

/// The abstract form of a name fragment.
pub open spec fn frag_view(f: NameFragment) -> FragV {
    match f {
        NameFragment::Ident(s) => FragV::Ident(s@),
        NameFragment::Number(s) => FragV::Number(s@),
        NameFragment::Hyphen => FragV::Hyphen,
        NameFragment::Colon => FragV::Colon,
        NameFragment::Dot => FragV::Dot,
    }
}

/// The abstract form of a name.
pub open spec fn name_view(n: UnquotedName) -> Seq<FragV> {
    n.0@.map_values(|f: NameFragment| frag_view(f))
}

/// The abstract form of an attribute name.
pub open spec fn attr_name_view(n: AttributeName) -> AttrNameV {
    match n {
        AttributeName::Data { rest } => AttrNameV::Data(name_view(rest)),
        AttributeName::Namespace { namespace, rest } => AttrNameV::Namespace(
            name_view(namespace),
            name_view(rest),
        ),
        AttributeName::Symbol { symbol, rest } => AttrNameV::Symbol(symbol, name_view(rest)),
        AttributeName::Normal(name) => AttrNameV::Normal(name_view(name)),
        AttributeName::Quoted(s) => AttrNameV::Quoted(s@),
    }
}

/// The abstract form of a literal.
pub open spec fn lit_view(l: Literal) -> LitV {
    match l {
        Literal::Str(s) => LitV::Str(s@),
        Literal::Int(s) => LitV::Int(s@),
        Literal::Bool(b) => LitV::Bool(b),
        Literal::Float(s) => LitV::Float(s@),
        Literal::Char(s) => LitV::Char(s@),
    }
}

/// The abstract form of a node.
pub open spec fn node_view(n: ElementNode) -> NodeV
    decreases n,
{
    match n {
        ElementNode::Doctype => NodeV::Doctype,
        ElementNode::Element(e) => NodeV::Element {
            name: name_view(e.name),
            attrs: attrs_view(e.attrs@),
            body: body_view(e.body),
        },
        ElementNode::Component(c) => NodeV::Component {
            name: c.name@,
            attrs: c.attrs@.map_values(|a: crate::node::ComponentAttribute| (a.name@, a.value@)),
            dotdot: c.dotdot,
            body: body_view(c.body),
        },
        ElementNode::Literal(l) => NodeV::Literal(lit_view(l)),
        ElementNode::Control(c) => NodeV::Control(control_view(c)),
        ElementNode::Expr(e) => NodeV::Expr(e@),
        ElementNode::Group(ns) => NodeV::Group(nodes_view(ns@)),
        ElementNode::Name(name) => NodeV::Name(name_view(name)),
    }
}

/// The abstract form of nodes.
pub open spec fn nodes_view(ns: Seq<ElementNode>) -> Seq<NodeV>
    decreases ns,
{
    if ns.len() == 0 {
        Seq::empty()
    } else {
        nodes_view(ns.drop_last()).push(node_view(ns.last()))
    }
}

/// The abstract form of a body.
pub open spec fn body_view(b: ElementBody) -> BodyV
    decreases b,
{
    match b {
        ElementBody::Normal { children, closing_name } => BodyV::Normal {
            children: nodes_view(children@),
            closing: match closing_name {
                Some(c) => Some(name_view(c)),
                None => None,
            },
        },
        ElementBody::Void => BodyV::Void,
    }
}

/// The abstract form of an optional toggle.
pub open spec fn toggle_view(t: Option<crate::node::Toggle>) -> Option<Seq<TokenTree>> {
    match t {
        Some(t) => Some(t.expr@),
        None => None,
    }
}

/// The abstract form of an attribute.
pub open spec fn attr_view(a: Attribute) -> AttrV
    decreases a,
{
    AttrV {
        name: attr_name_view(a.name),
        kind: match a.kind {
            AttributeKind::Value { value, toggle } => AttrKindV::Value {
                value: node_view(value),
                toggle: toggle_view(toggle),
            },
            AttributeKind::Empty(t) => AttrKindV::Empty(toggle_view(t)),
            AttributeKind::Option(t) => AttrKindV::Option(t.expr@),
            AttributeKind::ClassList(cs) => AttrKindV::ClassList(classes_view(cs@)),
        },
    }
}

/// The abstract form of attributes.
pub open spec fn attrs_view(attrs: Seq<Attribute>) -> Seq<AttrV>
    decreases attrs,
{
    if attrs.len() == 0 {
        Seq::empty()
    } else {
        attrs_view(attrs.drop_last()).push(attr_view(attrs.last()))
    }
}

/// The abstract form of classes.
pub open spec fn classes_view(cs: Seq<Class>) -> Seq<ClassV>
    decreases cs,
{
    if cs.len() == 0 {
        Seq::empty()
    } else {
        classes_view(cs.drop_last()).push(
            ClassV { value: node_view(cs.last().value), toggle: toggle_view(cs.last().toggle) },
        )
    }
}

/// The abstract form of control flow.
pub open spec fn control_view(c: Control) -> ControlV
    decreases c,
{
    match c {
        Control::Let(t) => ControlV::Let(t@),
        Control::If(i) => ControlV::If(if_view(i)),
        Control::For { pat, expr, body } => ControlV::For {
            pat: pat@,
            expr: expr@,
            body: nodes_view(body@),
        },
        Control::While { cond, body } => ControlV::While { cond: cond@, body: nodes_view(body@) },
        Control::Match { expr, arms } => ControlV::Match { expr: expr@, arms: arms_view(arms@) },
    }
}

/// The abstract form of an `@if`.
pub open spec fn if_view(i: If) -> IfV
    decreases i,
{
    IfV {
        cond: i.cond@,
        then_block: nodes_view(i.then_block@),
        else_branch: match i.else_branch {
            None => None,
            Some(b) => Some(Box::new(else_view(*b))),
        },
    }
}

/// The abstract form of what follows `@else`.
pub open spec fn else_view(b: ControlIfOrBlock) -> ElseV
    decreases b,
{
    match b {
        ControlIfOrBlock::If(j) => ElseV::If(if_view(j)),
        ControlIfOrBlock::Block(ns) => ElseV::Block(nodes_view(ns@)),
    }
}

/// The abstract form of a match arm.
pub open spec fn arm_view(a: MatchNodeArm) -> ArmV
    decreases a,
{
    ArmV {
        pat: a.pat@,
        body: match a.body {
            MatchNodeArmBody::Block(ns) => ArmBodyV::Block(nodes_view(ns@)),
            MatchNodeArmBody::Node(n) => ArmBodyV::Node(Box::new(node_view(*n))),
        },
    }
}

/// The abstract form of match arms.
pub open spec fn arms_view(arms: Seq<MatchNodeArm>) -> Seq<ArmV>
    decreases arms,
{
    if arms.len() == 0 {
        Seq::empty()
    } else {
        arms_view(arms.drop_last()).push(arm_view(arms.last()))
    }
}

// ---------------------------------------------------------------------------
// Names, literals and Rust code carried as tokens

/// The fragment a token stands for in a name; `None` for an integer with a
/// suffix, which names do not allow.
pub open spec fn s_frag(t: TokenTree) -> Option<FragV> {
    match t {
        TokenTree::Ident(s) => Some(FragV::Ident(s@)),
        TokenTree::Literal(l) => if l.kind == LitKind::Int && l.suffix@.len() == 0 {
            Some(FragV::Number(l.text@))
        } else {
            None
        },
        TokenTree::Punct(c, _) => if c == '-' {
            Some(FragV::Hyphen)
        } else if c == ':' {
            Some(FragV::Colon)
        } else if c == '.' {
            Some(FragV::Dot)
        } else {
            None
        },
        _ => None,
    }
}

/// Whether a fragment is punctuation.
pub open spec fn frag_is_punct(f: FragV) -> bool {
    f is Hyphen || f is Colon || f is Dot
}

/// Whether a name goes on with token `t`: a hyphen always, colons and dots
/// in an `any` name, an identifier or integer after punctuation.
pub open spec fn name_goes_on(t: TokenTree, last_punct: bool, any: bool) -> bool {
    ||| is_punct(t, '-')
    ||| (any && (is_punct(t, ':') || is_punct(t, '.')))
    ||| (last_punct && (t is Ident || is_lit(t, LitKind::Int)))
}

/// The rest of a name whose fragments so far are `acc`.
pub open spec fn s_name_tail(ts: Seq<TokenTree>, acc: Seq<FragV>, any: bool) -> Parsed<Seq<FragV>>
    decreases ts.len(),
{
    let last_punct = acc.len() == 0 || frag_is_punct(acc.last());
    if ts.len() > 0 && name_goes_on(ts[0], last_punct, any) {
        match s_frag(ts[0]) {
            Some(f) => s_name_tail(skip(ts, 1), acc.push(f), any),
            None => None,
        }
    } else {
        Some((acc, ts))
    }
}

/// A name such as `div` or `custom-element`: an identifier or integer,
/// then hyphenated ones.
pub open spec fn s_name(ts: Seq<TokenTree>) -> Parsed<Seq<FragV>> {
    if ts.len() > 0 && (ts[0] is Ident || is_lit(ts[0], LitKind::Int)) {
        match s_frag(ts[0]) {
            Some(f) => s_name_tail(skip(ts, 1), seq![f], false),
            None => None,
        }
    } else {
        None
    }
}

/// A name that may also hold colons and dots, and may be empty, as the part
/// of an attribute name after its prefix.
pub open spec fn s_name_any(ts: Seq<TokenTree>) -> Parsed<Seq<FragV>> {
    s_name_tail(ts, Seq::empty(), true)
}

/// Whether a name is a component's: one identifier starting with an ASCII
/// uppercase letter.
pub open spec fn name_is_component(n: Seq<FragV>) -> bool {
    &&& n.len() == 1
    &&& n[0] is Ident
    &&& n[0]->Ident_0.len() > 0
    &&& 'A' <= n[0]->Ident_0[0] <= 'Z'
}

/// An attribute name.
pub open spec fn s_attr_name(ts: Seq<TokenTree>) -> Parsed<AttrNameV> {
    if ts.len() >= 2 && is_word(ts[0], "data"@) && is_punct(ts[1], '-') {
        match s_name_any(skip(ts, 2)) {
            Some((rest, r)) => Some((AttrNameV::Data(rest), r)),
            None => None,
        }
    } else if ts.len() > 0 && (ts[0] is Ident || is_lit(ts[0], LitKind::Int)) {
        match s_name(ts) {
            Some((n, r)) => if r.len() > 0 && is_punct(r[0], ':') {
                match s_name_any(skip(r, 1)) {
                    Some((rest, r2)) => Some((AttrNameV::Namespace(n, rest), r2)),
                    None => None,
                }
            } else {
                Some((AttrNameV::Normal(n), r))
            },
            None => None,
        }
    } else if ts.len() > 0 && is_punct(ts[0], '@') {
        match s_name_any(skip(ts, 1)) {
            Some((rest, r)) => Some((AttrNameV::Symbol(AttributeSymbol::At, rest), r)),
            None => None,
        }
    } else if ts.len() > 0 && is_punct(ts[0], ':') {
        match s_name_any(skip(ts, 1)) {
            Some((rest, r)) => Some((AttrNameV::Symbol(AttributeSymbol::Colon, rest), r)),
            None => None,
        }
    } else if ts.len() > 0 && is_lit(ts[0], LitKind::Str) && is_unsuffixed(ts[0]) {
        Some((AttrNameV::Quoted(lit_value(ts[0])), skip(ts, 1)))
    } else {
        None
    }
}

/// An optional toggle `[cond]`; an empty condition is refused.
pub open spec fn s_toggle(ts: Seq<TokenTree>) -> Parsed<Option<Seq<TokenTree>>> {
    if ts.len() > 0 && is_group(ts[0], Delimiter::Bracket) {
        if group_tokens(ts[0]).len() > 0 {
            Some((Some(group_tokens(ts[0])), skip(ts, 1)))
        } else {
            None
        }
    } else {
        Some((None, ts))
    }
}

/// The literal a token stands for in mode `m` (a string without the
/// indentation common to its lines after the first): string, integer, float
/// and character literals in content, strings, integers and `true`/`false`
/// in Maud attribute values, strings only where names are allowed; `true`
/// and `false` in rsx content. A literal with a suffix (`"a"x`, `1u8`) is
/// refused.
pub open spec fn s_lit(t: TokenTree, m: Mode) -> Option<LitV> {
    match t {
        TokenTree::Literal(l) => if l.suffix@.len() > 0 {
            None
        } else if l.kind == LitKind::Str {
            Some(LitV::Str(spec_unindent(l.value@)))
        } else if l.kind == LitKind::Int && !(m is Name) {
            Some(LitV::Int(l.text@))
        } else if l.kind == LitKind::Float && (m is Maud || m is Rsx) {
            Some(LitV::Float(l.text@))
        } else if l.kind == LitKind::Char && (m is Maud || m is Rsx) {
            Some(LitV::Char(l.value@))
        } else {
            None
        },
        TokenTree::Ident(s) => if (m is Rsx || m is Value) && (s@ == "true"@ || s@ == "false"@) {
            Some(LitV::Bool(s@ == "true"@))
        } else {
            None
        },
        _ => None,
    }
}

/// A field of a component, `name=value`, whose value is one token: a
/// literal, an identifier or a parenthesized expression.
pub open spec fn s_comp_attr(ts: Seq<TokenTree>) -> Parsed<(Seq<char>, Seq<TokenTree>)> {
    if ts.len() >= 3 && ts[0] is Ident && is_punct(ts[1], '=') && (is_lit(ts[2], LitKind::Str)
        || is_lit(ts[2], LitKind::Int) || ts[2] is Ident || is_group(
        ts[2],
        Delimiter::Parenthesis,
    )) {
        Some(((ident_text(ts[0]), seq![ts[2]]), skip(ts, 3)))
    } else {
        None
    }
}

/// `..`
pub open spec fn dotdot_at(ts: Seq<TokenTree>) -> bool {
    ts.len() >= 2 && is_joint_punct(ts[0], '.') && is_punct(ts[1], '.')
}

/// Where the fields of a component end: at `..`, and at `;` or a block in
/// Maud, at `>` or `/>` in rsx.
pub open spec fn comp_attrs_end(ts: Seq<TokenTree>, maud: bool) -> bool {
    ||| dotdot_at(ts)
    ||| (maud && ts.len() > 0 && (is_punct(ts[0], ';') || is_group(ts[0], Delimiter::Brace)))
    ||| (!maud && ts.len() > 0 && is_punct(ts[0], '>'))
    ||| (!maud && ts.len() >= 2 && is_punct(ts[0], '/') && is_punct(ts[1], '>'))
}

/// The fields of a component.
pub open spec fn s_comp_attrs(ts: Seq<TokenTree>, acc: Seq<(Seq<char>, Seq<TokenTree>)>, maud: bool) -> Parsed<
    Seq<(Seq<char>, Seq<TokenTree>)>,
>
    decreases ts.len(),
{
    if comp_attrs_end(ts, maud) {
        Some((acc, ts))
    } else {
        match s_comp_attr(ts) {
            Some((a, r)) => if r.len() < ts.len() {
                s_comp_attrs(r, acc.push(a), maud)
            } else {
                None
            },
            None => None,
        }
    }
}

/// Tokens up to the brace that opens a block, which is left unread.
pub open spec fn s_until_brace(ts: Seq<TokenTree>, acc: Seq<TokenTree>) -> Parsed<Seq<TokenTree>>
    decreases ts.len(),
{
    if ts.len() == 0 {
        None
    } else if is_group(ts[0], Delimiter::Brace) {
        Some((acc, ts))
    } else {
        s_until_brace(skip(ts, 1), acc.push(ts[0]))
    }
}

/// Tokens up to the identifier `w`, which is read and dropped.
pub open spec fn s_until_word(ts: Seq<TokenTree>, w: Seq<char>, acc: Seq<TokenTree>) -> Parsed<
    Seq<TokenTree>,
>
    decreases ts.len(),
{
    if ts.len() == 0 {
        None
    } else if is_word(ts[0], w) {
        Some((acc, skip(ts, 1)))
    } else {
        s_until_word(skip(ts, 1), w, acc.push(ts[0]))
    }
}

/// Tokens up to and with the first `;`.
pub open spec fn s_until_semi(ts: Seq<TokenTree>, acc: Seq<TokenTree>) -> Parsed<Seq<TokenTree>>
    decreases ts.len(),
{
    if ts.len() == 0 {
        None
    } else if is_punct(ts[0], ';') {
        Some((acc.push(ts[0]), skip(ts, 1)))
    } else {
        s_until_semi(skip(ts, 1), acc.push(ts[0]))
    }
}

/// Tokens up to `=>`, which is read and dropped.
pub open spec fn s_until_arrow(ts: Seq<TokenTree>, acc: Seq<TokenTree>) -> Parsed<Seq<TokenTree>>
    decreases ts.len(),
{
    if ts.len() == 0 {
        None
    } else if ts.len() >= 2 && is_joint_punct(ts[0], '=') && is_punct(ts[1], '>') {
        Some((acc, skip(ts, 2)))
    } else {
        s_until_arrow(skip(ts, 1), acc.push(ts[0]))
    }
}

/// The attribute that the Maud `#value` shorthand stands for.
pub open spec fn id_attr(v: NodeV) -> AttrV {
    AttrV {
        name: AttrNameV::Normal(seq![FragV::Ident("id"@)]),
        kind: AttrKindV::Value { value: v, toggle: None },
    }
}

/// The attribute that the Maud `.class` shorthands stand for; none without
/// classes.
pub open spec fn class_attr(cs: Seq<ClassV>) -> Seq<AttrV> {
    if cs.len() == 0 {
        Seq::empty()
    } else {
        seq![
            AttrV {
                name: AttrNameV::Normal(seq![FragV::Ident("class"@)]),
                kind: AttrKindV::ClassList(cs),
            },
        ]
    }
}

/// The nodes an rsx element stands for when its closing tag is missing: the
/// element as a void element, then what followed it.
pub open spec fn unclosed(el: NodeV, children: Seq<NodeV>) -> NodeV {
    NodeV::Group(seq![el] + children)
}

// ---------------------------------------------------------------------------
// Nodes
//
// Each function reads from the front of `ts`. A call on what is left after
// some reading is made only when that is smaller than `ts`, which always
// holds; a call on `ts` itself goes to a function of lower rank.

/// Nodes up to the end of `ts`, after `acc`.
pub open spec fn s_nodes(ts: Seq<TokenTree>, acc: Seq<NodeV>, m: Mode) -> Parsed<Seq<NodeV>>
    decreases seq_size(ts), 9int,
{
    if ts.len() == 0 {
        Some((acc, ts))
    } else {
        match s_node(ts, m) {
            Some((n, r)) => if seq_size(r) < seq_size(ts) {
                s_nodes(r, acc.push(n), m)
            } else {
                None
            },
            None => None,
        }
    }
}

/// The children of an rsx element, after `acc`: up to `</`, or to the end
/// of `ts` when there is none (then `false`).
pub open spec fn s_rsx_children(ts: Seq<TokenTree>, acc: Seq<NodeV>) -> Parsed<(Seq<NodeV>, bool)>
    decreases seq_size(ts), 9int,
{
    if ts.len() == 0 {
        Some(((acc, false), ts))
    } else if ts.len() >= 2 && is_punct(ts[0], '<') && is_punct(ts[1], '/') {
        Some(((acc, true), ts))
    } else {
        match s_node(ts, Mode::Rsx) {
            Some((n, r)) => if seq_size(r) < seq_size(ts) {
                s_rsx_children(r, acc.push(n))
            } else {
                None
            },
            None => None,
        }
    }
}

/// The nodes of an rsx fragment, after `acc`, up to and with `</>`.
pub open spec fn s_fragment(ts: Seq<TokenTree>, acc: Seq<NodeV>) -> Parsed<Seq<NodeV>>
    decreases seq_size(ts), 9int,
{
    if ts.len() >= 3 && is_punct(ts[0], '<') && is_punct(ts[1], '/') && is_punct(ts[2], '>') {
        Some((acc, skip(ts, 3)))
    } else {
        match s_node(ts, Mode::Rsx) {
            Some((n, r)) => if seq_size(r) < seq_size(ts) {
                s_fragment(r, acc.push(n))
            } else {
                None
            },
            None => None,
        }
    }
}

/// One node in mode `m`.
pub open spec fn s_node(ts: Seq<TokenTree>, m: Mode) -> Parsed<NodeV>
    decreases seq_size(ts), 8int,
{
    if ts.len() == 0 {
        None
    } else {
        let t = ts[0];
        if is_punct(t, '@') {
            if seq_size(skip(ts, 1)) < seq_size(ts) {
                match s_control(skip(ts, 1), m) {
                    Some((c, r)) => Some((NodeV::Control(c), r)),
                    None => None,
                }
            } else {
                None
            }
        } else if is_group(t, Delimiter::Parenthesis) {
            Some((NodeV::Expr(group_tokens(t)), skip(ts, 1)))
        } else if is_group(t, Delimiter::Brace) && !(m is Rsx) {
            if seq_size(group_tokens(t)) < seq_size(ts) {
                match s_nodes(group_tokens(t), Seq::empty(), m) {
                    Some((ns, _)) => Some((NodeV::Group(ns), skip(ts, 1))),
                    None => None,
                }
            } else {
                None
            }
        } else if m is Maud {
            s_maud_node(ts)
        } else if m is Rsx {
            s_rsx_node(ts)
        } else {
            match s_lit(t, m) {
                Some(l) => Some((NodeV::Literal(l), skip(ts, 1))),
                None => if m is Name && (t is Ident || is_lit(t, LitKind::Int)) {
                    match s_name(ts) {
                        Some((n, r)) => Some((NodeV::Name(n), r)),
                        None => None,
                    }
                } else {
                    None
                },
            }
        }
    }
}

/// A Maud node that starts with an identifier, `!` or a literal.
pub open spec fn s_maud_node(ts: Seq<TokenTree>) -> Parsed<NodeV>
    decreases seq_size(ts), 7int,
{
    if ts.len() == 0 {
        None
    } else if ts[0] is Ident {
        match s_name(ts) {
            Some((name, r)) => if seq_size(r) <= seq_size(ts) {
                if name_is_component(name) {
                    s_maud_component(r, ident_text(ts[0]))
                } else {
                    s_maud_element(r, name)
                }
            } else {
                None
            },
            None => None,
        }
    } else if is_punct(ts[0], '!') {
        if ts.len() >= 2 && is_word(ts[1], "DOCTYPE"@) {
            Some((NodeV::Doctype, skip(ts, 2)))
        } else {
            None
        }
    } else {
        match s_lit(ts[0], Mode::Maud) {
            Some(l) => Some((NodeV::Literal(l), skip(ts, 1))),
            None => None,
        }
    }
}

/// An rsx node that starts with `<`, a literal or a word of text.
pub open spec fn s_rsx_node(ts: Seq<TokenTree>) -> Parsed<NodeV>
    decreases seq_size(ts), 7int,
{
    if ts.len() == 0 {
        None
    } else if is_punct(ts[0], '<') {
        if ts.len() >= 2 && is_punct(ts[1], '>') {
            if seq_size(skip(ts, 2)) < seq_size(ts) {
                match s_fragment(skip(ts, 2), Seq::empty()) {
                    Some((ns, r)) => Some((NodeV::Group(ns), r)),
                    None => None,
                }
            } else {
                None
            }
        } else if ts.len() >= 2 && ts[1] is Ident {
            match s_name(skip(ts, 1)) {
                Some((name, r)) => if seq_size(r) < seq_size(ts) {
                    if name_is_component(name) {
                        s_rsx_component(r, ident_text(ts[1]))
                    } else {
                        s_rsx_element(r, name)
                    }
                } else {
                    None
                },
                None => None,
            }
        } else if ts.len() >= 5 && is_punct(ts[1], '!') && is_word(ts[2], "DOCTYPE"@) && is_word(
            ts[3],
            "html"@,
        ) && is_punct(ts[4], '>') {
            Some((NodeV::Doctype, skip(ts, 5)))
        } else {
            None
        }
    } else {
        match s_lit(ts[0], Mode::Rsx) {
            Some(l) => Some((NodeV::Literal(l), skip(ts, 1))),
            None => if ts[0] is Ident {
                let word = if ts.len() >= 2 && (ts[1] is Ident || is_lit(ts[1], LitKind::Int)
                    || is_lit(ts[1], LitKind::Float)) {
                    ident_text(ts[0]).push(' ')
                } else {
                    ident_text(ts[0])
                };
                Some((NodeV::Literal(LitV::Str(word)), skip(ts, 1)))
            } else {
                None
            },
        }
    }
}

/// In rsx content a bare word followed by another word or by a number
/// literal (an integer or a float) reads as the word and one space, so that
/// words and numbers keep the space between them; before anything else
/// (an element, an expression, a string, the end) it reads as the word alone.
pub proof fn lemma_rsx_word_spacing(ts: Seq<TokenTree>)
    requires
        ts.len() >= 1,
        ts[0] is Ident,
        ident_text(ts[0]) != "true"@,
        ident_text(ts[0]) != "false"@,
    ensures
        (ts.len() >= 2 && (ts[1] is Ident || is_lit(ts[1], LitKind::Int) || is_lit(
            ts[1],
            LitKind::Float,
        ))) ==> s_rsx_node(ts) == Some(
            (NodeV::Literal(LitV::Str(ident_text(ts[0]) + seq![' '])), skip(ts, 1)),
        ),
        (ts.len() == 1 || !(ts[1] is Ident) && !(ts[1] is Literal)) ==> s_rsx_node(ts) == Some(
            (NodeV::Literal(LitV::Str(ident_text(ts[0]))), skip(ts, 1)),
        ),
{
    assert(!is_punct(ts[0], '<'));
    assert(s_lit(ts[0], Mode::Rsx) is None);
    assert(ident_text(ts[0]).push(' ') =~= ident_text(ts[0]) + seq![' ']);
}

/// A Maud element after its name: `#id`, `.class`es, attributes, body.
pub open spec fn s_maud_element(ts: Seq<TokenTree>, name: Seq<FragV>) -> Parsed<NodeV>
    decreases seq_size(ts), 6int,
{
    match s_maud_id(ts) {
        Some((id, r1)) => if seq_size(r1) <= seq_size(ts) {
            match s_classes(r1, Seq::empty()) {
                Some((cs, r2)) => if seq_size(r2) <= seq_size(ts) {
                    match s_maud_attrs(r2, id + class_attr(cs)) {
                        Some((attrs, r3)) => if seq_size(r3) <= seq_size(ts) {
                            match s_maud_body(r3) {
                                Some((body, r4)) => Some((NodeV::Element { name, attrs, body }, r4)),
                                None => None,
                            }
                        } else {
                            None
                        },
                        None => None,
                    }
                } else {
                    None
                },
                None => None,
            }
        } else {
            None
        },
        None => None,
    }
}

/// A Maud component after its name: fields, optional `..`, body.
pub open spec fn s_maud_component(ts: Seq<TokenTree>, name: Seq<char>) -> Parsed<NodeV>
    decreases seq_size(ts), 6int,
{
    match s_comp_attrs(ts, Seq::empty(), true) {
        Some((attrs, r1)) => {
            let dotdot = dotdot_at(r1);
            let r2 = if dotdot { skip(r1, 2) } else { r1 };
            if seq_size(r2) <= seq_size(ts) {
                match s_maud_body(r2) {
                    Some((body, r3)) => Some(
                        (NodeV::Component { name, attrs, dotdot, body }, r3),
                    ),
                    None => None,
                }
            } else {
                None
            }
        },
        None => None,
    }
}

/// The optional Maud `#value` shorthand, as the attributes it stands for.
pub open spec fn s_maud_id(ts: Seq<TokenTree>) -> Parsed<Seq<AttrV>>
    decreases seq_size(ts), 5int,
{
    if ts.len() > 0 && is_punct(ts[0], '#') {
        if seq_size(skip(ts, 1)) < seq_size(ts) {
            match s_node(skip(ts, 1), Mode::Name) {
                Some((v, r)) => Some((seq![id_attr(v)], r)),
                None => None,
            }
        } else {
            None
        }
    } else {
        Some((Seq::empty(), ts))
    }
}

/// Maud `.value[toggle]` class shorthands, after `acc`.
pub open spec fn s_classes(ts: Seq<TokenTree>, acc: Seq<ClassV>) -> Parsed<Seq<ClassV>>
    decreases seq_size(ts), 5int,
{
    if ts.len() > 0 && is_punct(ts[0], '.') {
        if seq_size(skip(ts, 1)) < seq_size(ts) {
            match s_node(skip(ts, 1), Mode::Name) {
                Some((v, r)) => match s_toggle(r) {
                    Some((toggle, r2)) => if seq_size(r2) < seq_size(ts) {
                        s_classes(r2, acc.push(ClassV { value: v, toggle }))
                    } else {
                        None
                    },
                    None => None,
                },
                None => None,
            }
        } else {
            None
        }
    } else {
        Some((acc, ts))
    }
}

/// Maud attributes, after `acc` (the shorthands' ones), up to `;` or a
/// block.
pub open spec fn s_maud_attrs(ts: Seq<TokenTree>, acc: Seq<AttrV>) -> Parsed<Seq<AttrV>>
    decreases seq_size(ts), 5int,
{
    if ts.len() > 0 && (is_punct(ts[0], ';') || is_group(ts[0], Delimiter::Brace)) {
        Some((acc, ts))
    } else {
        match s_attr(ts, true) {
            Some((a, r)) => if seq_size(r) < seq_size(ts) {
                s_maud_attrs(r, acc.push(a))
            } else {
                None
            },
            None => None,
        }
    }
}

/// A Maud body: `;` for none, or a block of children.
pub open spec fn s_maud_body(ts: Seq<TokenTree>) -> Parsed<BodyV>
    decreases seq_size(ts), 5int,
{
    if ts.len() > 0 && is_punct(ts[0], ';') {
        Some((BodyV::Void, skip(ts, 1)))
    } else if ts.len() > 0 && is_group(ts[0], Delimiter::Brace) {
        if seq_size(group_tokens(ts[0])) < seq_size(ts) {
            match s_nodes(group_tokens(ts[0]), Seq::empty(), Mode::Maud) {
                Some((ns, _)) => Some((BodyV::Normal { children: ns, closing: None }, skip(ts, 1))),
                None => None,
            }
        } else {
            None
        }
    } else {
        None
    }
}

/// An attribute: its name, then `=value[toggle]`, `=[option]` or an
/// optional `[toggle]` in Maud; `=value` or nothing in rsx.
pub open spec fn s_attr(ts: Seq<TokenTree>, maud: bool) -> Parsed<AttrV>
    decreases seq_size(ts), 4int,
{
    match s_attr_name(ts) {
        Some((name, r1)) => if r1.len() > 0 && is_punct(r1[0], '=') {
            let r2 = skip(r1, 1);
            if maud && r2.len() > 0 && is_group(r2[0], Delimiter::Bracket) {
                match s_toggle(r2) {
                    Some((Some(t), r3)) => Some((AttrV { name, kind: AttrKindV::Option(t) }, r3)),
                    _ => None,
                }
            } else if seq_size(r2) < seq_size(ts) {
                match s_node(r2, if maud { Mode::Value } else { Mode::Name }) {
                    Some((v, r3)) => if maud {
                        match s_toggle(r3) {
                            Some((toggle, r4)) => Some(
                                (AttrV { name, kind: AttrKindV::Value { value: v, toggle } }, r4),
                            ),
                            None => None,
                        }
                    } else {
                        Some((AttrV { name, kind: AttrKindV::Value { value: v, toggle: None } }, r3))
                    },
                    None => None,
                }
            } else {
                None
            }
        } else if maud {
            match s_toggle(r1) {
                Some((toggle, r2)) => Some((AttrV { name, kind: AttrKindV::Empty(toggle) }, r2)),
                None => None,
            }
        } else {
            Some((AttrV { name, kind: AttrKindV::Empty(None) }, r1))
        },
        None => None,
    }
}

/// An rsx element after `<` and its name.
pub open spec fn s_rsx_element(ts: Seq<TokenTree>, name: Seq<FragV>) -> Parsed<NodeV>
    decreases seq_size(ts), 6int,
{
    match s_rsx_attrs(ts, Seq::empty()) {
        Some((attrs, r1)) => {
            let void = NodeV::Element { name, attrs, body: BodyV::Void };
            if r1.len() >= 2 && is_punct(r1[0], '/') && is_punct(r1[1], '>') {
                Some((void, skip(r1, 2)))
            } else if r1.len() > 0 && is_punct(r1[0], '>') && seq_size(skip(r1, 1)) < seq_size(
                ts,
            ) {
                match s_rsx_children(skip(r1, 1), Seq::empty()) {
                    Some(((children, closed), r2)) => if !closed {
                        Some((unclosed(void, children), r2))
                    } else {
                        match s_name(skip(r2, 2)) {
                            Some((closing, r3)) => if closing == name {
                                if r3.len() > 0 && is_punct(r3[0], '>') {
                                    Some(
                                        (
                                            NodeV::Element {
                                                name,
                                                attrs,
                                                body: BodyV::Normal { children, closing: Some(closing) },
                                            },
                                            skip(r3, 1),
                                        ),
                                    )
                                } else {
                                    None
                                }
                            } else {
                                Some((unclosed(void, children), r2))
                            },
                            None => None,
                        }
                    },
                    None => None,
                }
            } else {
                None
            }
        },
        None => None,
    }
}

/// rsx attributes, after `acc`, up to `>` or `/>`.
pub open spec fn s_rsx_attrs(ts: Seq<TokenTree>, acc: Seq<AttrV>) -> Parsed<Seq<AttrV>>
    decreases seq_size(ts), 5int,
{
    if (ts.len() > 0 && is_punct(ts[0], '>')) || (ts.len() >= 2 && is_punct(ts[0], '/')
        && is_punct(ts[1], '>')) {
        Some((acc, ts))
    } else {
        match s_attr(ts, false) {
            Some((a, r)) => if seq_size(r) < seq_size(ts) {
                s_rsx_attrs(r, acc.push(a))
            } else {
                None
            },
            None => None,
        }
    }
}

/// An rsx component after `<` and its name.
pub open spec fn s_rsx_component(ts: Seq<TokenTree>, name: Seq<char>) -> Parsed<NodeV>
    decreases seq_size(ts), 6int,
{
    match s_comp_attrs(ts, Seq::empty(), false) {
        Some((attrs, r0)) => {
            let dotdot = dotdot_at(r0);
            let r1 = if dotdot { skip(r0, 2) } else { r0 };
            let void = NodeV::Component { name, attrs, dotdot, body: BodyV::Void };
            if r1.len() >= 2 && is_punct(r1[0], '/') && is_punct(r1[1], '>') {
                Some((void, skip(r1, 2)))
            } else if r1.len() > 0 && is_punct(r1[0], '>') && seq_size(skip(r1, 1)) < seq_size(
                ts,
            ) {
                match s_rsx_children(skip(r1, 1), Seq::empty()) {
                    Some(((children, closed), r2)) => if !closed {
                        Some((unclosed(void, children), r2))
                    } else if r2.len() >= 3 && r2[2] is Ident {
                        if ident_text(r2[2]) == name {
                            if r2.len() >= 4 && is_punct(r2[3], '>') {
                                Some(
                                    (
                                        NodeV::Component {
                                            name,
                                            attrs,
                                            dotdot,
                                            body: BodyV::Normal {
                                                children,
                                                closing: Some(seq![FragV::Ident(name)]),
                                            },
                                        },
                                        skip(r2, 4),
                                    ),
                                )
                            } else {
                                None
                            }
                        } else {
                            Some((unclosed(void, children), r2))
                        }
                    } else {
                        None
                    },
                    None => None,
                }
            } else {
                None
            }
        },
        None => None,
    }
}

// ---------------------------------------------------------------------------
// Control flow

/// Control flow after its `@`, with bodies in mode `m`.
pub open spec fn s_control(ts: Seq<TokenTree>, m: Mode) -> Parsed<ControlV>
    decreases seq_size(ts), 5int,
{
    if ts.len() == 0 {
        None
    } else if is_word(ts[0], "let"@) {
        match s_until_semi(skip(ts, 1), seq![ts[0]]) {
            Some((t, r)) => Some((ControlV::Let(t), r)),
            None => None,
        }
    } else if is_word(ts[0], "if"@) {
        match s_if(ts, m) {
            Some((i, r)) => Some((ControlV::If(i), r)),
            None => None,
        }
    } else if is_word(ts[0], "for"@) {
        s_for(ts, m)
    } else if is_word(ts[0], "while"@) {
        s_while(ts, m)
    } else if is_word(ts[0], "match"@) {
        s_match(ts, m)
    } else {
        None
    }
}

/// A block `{ ... }` of nodes in mode `m` at the front of `ts`.
pub open spec fn s_block(ts: Seq<TokenTree>, m: Mode) -> Parsed<Seq<NodeV>>
    decreases seq_size(ts), 2int,
{
    if ts.len() > 0 && is_group(ts[0], Delimiter::Brace) && seq_size(group_tokens(ts[0])) < seq_size(ts) {
        match s_nodes(group_tokens(ts[0]), Seq::empty(), m) {
            Some((ns, _)) => Some((ns, skip(ts, 1))),
            None => None,
        }
    } else {
        None
    }
}

/// `if cond { ... }`, then an optional `@else` branch.
pub open spec fn s_if(ts: Seq<TokenTree>, m: Mode) -> Parsed<IfV>
    decreases seq_size(ts), 3int,
{
    match s_until_brace(skip(ts, 1), Seq::empty()) {
        Some((cond, r1)) => if cond.len() > 0 && seq_size(r1) < seq_size(ts) {
            match s_block(r1, m) {
                Some((then_block, r2)) => if r2.len() >= 2 && is_punct(r2[0], '@') && is_word(
                    r2[1],
                    "else"@,
                ) && seq_size(skip(r2, 2)) < seq_size(ts) {
                    match s_else(skip(r2, 2), m) {
                        Some((e, r3)) => Some(
                            (IfV { cond, then_block, else_branch: Some(Box::new(e)) }, r3),
                        ),
                        None => None,
                    }
                } else {
                    Some((IfV { cond, then_block, else_branch: None }, r2))
                },
                None => None,
            }
        } else {
            None
        },
        None => None,
    }
}

/// What follows `@else`: `if ...` or a block.
pub open spec fn s_else(ts: Seq<TokenTree>, m: Mode) -> Parsed<ElseV>
    decreases seq_size(ts), 4int,
{
    if ts.len() > 0 && is_word(ts[0], "if"@) {
        match s_if(ts, m) {
            Some((i, r)) => Some((ElseV::If(i), r)),
            None => None,
        }
    } else {
        match s_block(ts, m) {
            Some((ns, r)) => Some((ElseV::Block(ns), r)),
            None => None,
        }
    }
}

/// `for pat in expr { ... }`
pub open spec fn s_for(ts: Seq<TokenTree>, m: Mode) -> Parsed<ControlV>
    decreases seq_size(ts), 3int,
{
    match s_until_word(skip(ts, 1), "in"@, Seq::empty()) {
        Some((pat, r1)) => match s_until_brace(r1, Seq::empty()) {
            Some((expr, r2)) => if pat.len() > 0 && expr.len() > 0 && seq_size(r2) < seq_size(ts) {
                match s_block(r2, m) {
                    Some((body, r3)) => Some((ControlV::For { pat, expr, body }, r3)),
                    None => None,
                }
            } else {
                None
            },
            None => None,
        },
        None => None,
    }
}

/// `while cond { ... }`
pub open spec fn s_while(ts: Seq<TokenTree>, m: Mode) -> Parsed<ControlV>
    decreases seq_size(ts), 3int,
{
    match s_until_brace(skip(ts, 1), Seq::empty()) {
        Some((cond, r1)) => if cond.len() > 0 && seq_size(r1) < seq_size(ts) {
            match s_block(r1, m) {
                Some((body, r2)) => Some((ControlV::While { cond, body }, r2)),
                None => None,
            }
        } else {
            None
        },
        None => None,
    }
}

/// `match expr { arms }`
pub open spec fn s_match(ts: Seq<TokenTree>, m: Mode) -> Parsed<ControlV>
    decreases seq_size(ts), 3int,
{
    match s_until_brace(skip(ts, 1), Seq::empty()) {
        Some((expr, r1)) => if expr.len() > 0 && seq_size(group_tokens(r1[0])) < seq_size(ts) {
            match s_arms(group_tokens(r1[0]), Seq::empty(), m) {
                Some((arms, _)) => Some((ControlV::Match { expr, arms }, skip(r1, 1))),
                None => None,
            }
        } else {
            None
        },
        None => None,
    }
}

/// Match arms up to the end of `ts`, after `acc`.
pub open spec fn s_arms(ts: Seq<TokenTree>, acc: Seq<ArmV>, m: Mode) -> Parsed<Seq<ArmV>>
    decreases seq_size(ts), 3int,
{
    if ts.len() == 0 {
        Some((acc, ts))
    } else {
        match s_arm(ts, m) {
            Some((a, r)) => if seq_size(r) < seq_size(ts) {
                s_arms(r, acc.push(a), m)
            } else {
                None
            },
            None => None,
        }
    }
}

/// `pat => { ... }` or `pat => node`, then an optional `,`.
pub open spec fn s_arm(ts: Seq<TokenTree>, m: Mode) -> Parsed<ArmV>
    decreases seq_size(ts), 2int,
{
    match s_until_arrow(ts, Seq::empty()) {
        Some((pat, r1)) => if pat.len() > 0 && seq_size(r1) < seq_size(ts) {
            if r1.len() > 0 && is_group(r1[0], Delimiter::Brace) {
                match s_block(r1, m) {
                    Some((ns, r2)) => Some((ArmV { pat, body: ArmBodyV::Block(ns) }, skip_comma(r2))),
                    None => None,
                }
            } else {
                match s_node(r1, m) {
                    Some((n, r2)) => Some(
                        (ArmV { pat, body: ArmBodyV::Node(Box::new(n)) }, skip_comma(r2)),
                    ),
                    None => None,
                }
            }
        } else {
            None
        },
        None => None,
    }
}

/// A whole template in mode `m`.
pub open spec fn s_document(ts: Seq<TokenTree>, m: Mode) -> Option<Seq<NodeV>> {
    match s_nodes(ts, Seq::empty(), m) {
        Some((ns, _)) => Some(ns),
        None => None,
    }
}

} // verus!
