//! Reading nodes: each function reads from the front of a token vector what
//! its counterpart in the grammar reads, and gives the same result.
use vstd::prelude::*;

use super::grammar::{
    arm_view, arms_view, attr_view, attrs_view, body_view, classes_view, control_view, else_view,
    frag_view, ident_text, if_view, is_punct, is_suffix, lit_view, name_view, node_view, nodes_view,
    s_arm, s_arms, s_attr, s_block, s_classes, s_comp_attrs, s_control, s_else, s_for, s_frag,
    s_fragment, s_if, s_lit, s_match, s_maud_attrs, s_maud_body, s_maud_component, s_maud_element,
    s_maud_id, s_maud_node, s_name, s_name_tail, s_node, s_nodes, s_rsx_attrs, s_rsx_children,
    s_rsx_component, s_rsx_element, s_rsx_node, s_while, seq_size, skip, toggle_view, unclosed,
    ClassV, Mode,
};
use super::tokens_read::{
    drop_front, frags_view, group_at, ident_at, joint_punct_at, lemma_group_size, lemma_skip_size,
    lemma_suffix_group_size, lemma_suffix_size, lemma_suffix_trans, lit_at, punct_at,
    read_attr_name, read_name, read_toggle, read_until_arrow, read_until_brace, read_until_semi,
    read_until_word, same_lit_kind, take, take_group, word_at, unexpected, ParseError,
};
use crate::names::{AttributeName, Literal, NameFragment, UnquotedName};
use crate::node::{
    arms_wf, attr_wf, attrs_wf, body_wf, classes_wf, control_wf, if_wf, node_wf, nodes_wf,
    Attribute, AttributeKind, Class, Component, ComponentAttribute, Control, ControlIfOrBlock,
    Element, ElementBody, ElementNode, If, MatchNodeArm, MatchNodeArmBody,
};
use crate::text::{push_char, str_eq, string_from};
use crate::tokens::{Delimiter, Lit, LitKind, TokenTree};
use crate::unindent::unindent;

verus! {

// ---------------------------------------------------------------------------
// Views of vectors built one item at a time

/// Pushing a node.
pub proof fn lemma_nodes_push(s: Seq<ElementNode>, n: ElementNode)
    ensures
        nodes_view(s.push(n)) == nodes_view(s).push(node_view(n)),
        nodes_wf(s.push(n)) == (nodes_wf(s) && node_wf(n)),
{
    assert(s.push(n).drop_last() =~= s);
}

/// Concatenating nodes.
pub proof fn lemma_nodes_concat(a: Seq<ElementNode>, b: Seq<ElementNode>)
    ensures
        nodes_view(a + b) == nodes_view(a) + nodes_view(b),
        nodes_wf(a + b) == (nodes_wf(a) && nodes_wf(b)),
    decreases b.len(),
{
    if b.len() == 0 {
        assert(a + b =~= a);
        assert(nodes_view(a) + nodes_view(b) =~= nodes_view(a));
    } else {
        lemma_nodes_concat(a, b.drop_last());
        assert((a + b).drop_last() =~= a + b.drop_last());
        assert((a + b).last() == b.last());
        assert(nodes_view(a) + nodes_view(b) =~= (nodes_view(a) + nodes_view(b.drop_last())).push(
            node_view(b.last()),
        ));
    }
}

/// Pushing an attribute.
pub proof fn lemma_attrs_push(s: Seq<Attribute>, a: Attribute)
    ensures
        attrs_view(s.push(a)) == attrs_view(s).push(attr_view(a)),
        attrs_wf(s.push(a)) == (attrs_wf(s) && attr_wf(a)),
{
    assert(s.push(a).drop_last() =~= s);
}

/// Pushing a class.
pub proof fn lemma_classes_push(s: Seq<Class>, c: Class)
    ensures
        classes_view(s.push(c)) == classes_view(s).push(
            ClassV { value: node_view(c.value), toggle: toggle_view(c.toggle) },
        ),
        classes_wf(s.push(c)) == (classes_wf(s) && node_wf(c.value)),
{
    assert(s.push(c).drop_last() =~= s);
}

/// Pushing a match arm.
pub proof fn lemma_arms_push(s: Seq<MatchNodeArm>, a: MatchNodeArm)
    ensures
        arms_view(s.push(a)) == arms_view(s).push(arm_view(a)),
        arms_wf(s.push(a)) == (arms_wf(s) && match a.body {
            MatchNodeArmBody::Block(ns) => nodes_wf(ns@),
            MatchNodeArmBody::Node(n) => node_wf(*n),
        }),
{
    assert(s.push(a).drop_last() =~= s);
}

/// The fields of a component, abstractly.
pub open spec fn comp_attrs_view(s: Seq<ComponentAttribute>) -> Seq<(Seq<char>, Seq<TokenTree>)> {
    s.map_values(|a: ComponentAttribute| (a.name@, a.value@))
}

// ---------------------------------------------------------------------------
// Modes and literals

/// Whether the mode is rsx content.
fn is_rsx(m: Mode) -> (r: bool)
    ensures
        r == (m is Rsx),
{
    match m {
        Mode::Rsx => true,
        _ => false,
    }
}

/// Whether the mode is Maud content.
fn is_maud(m: Mode) -> (r: bool)
    ensures
        r == (m is Maud),
{
    match m {
        Mode::Maud => true,
        _ => false,
    }
}

/// Whether the first token is a literal in mode `m`.
fn lit_ok_at(toks: &Vec<TokenTree>, m: Mode) -> (r: bool)
    ensures
        r == (toks@.len() > 0 && s_lit(toks@[0], m) is Some),
{
    if toks.len() == 0 {
        return false;
    }
    match &toks[0] {
        TokenTree::Literal(l) => l.suffix.as_str().is_empty() && (same_lit_kind(l.kind, LitKind::Str)
            || (same_lit_kind(l.kind, LitKind::Int) && !matches!(m, Mode::Name)) || ((same_lit_kind(
            l.kind,
            LitKind::Float,
        ) || same_lit_kind(l.kind, LitKind::Char)) && (is_maud(m) || is_rsx(m)))),
        TokenTree::Ident(s) => (is_rsx(m) || matches!(m, Mode::Value)) && (str_eq(s.as_str(), "true")
            || str_eq(s.as_str(), "false")),
        _ => false,
    }
}

/// The literal a token stands for in mode `m`.
fn read_lit(t: TokenTree, m: Mode) -> (r: Literal)
    requires
        s_lit(t, m) is Some,
    ensures
        s_lit(t, m) == Some(lit_view(r)),
{
    match t {
        TokenTree::Literal(l) => {
            let Lit { kind, text, value, suffix: _ } = l;
            if same_lit_kind(kind, LitKind::Str) {
                Literal::Str(unindent(value.as_str()))
            } else if same_lit_kind(kind, LitKind::Int) {
                Literal::Int(text)
            } else if same_lit_kind(kind, LitKind::Float) {
                Literal::Float(text)
            } else {
                Literal::Char(value)
            }
        },
        TokenTree::Ident(s) => Literal::Bool(str_eq(s.as_str(), "true")),
        _ => Literal::Bool(false),
    }
}

/// A name made of one identifier.
fn single_ident_name(s: &str) -> (r: UnquotedName)
    ensures
        name_view(r) == seq![super::grammar::FragV::Ident(s@)],
        r.is_plain(),
{
    let mut v: Vec<NameFragment> = Vec::new();
    v.push(NameFragment::Ident(string_from(s)));
    let r = UnquotedName(v);
    assert(name_view(r) =~= seq![super::grammar::FragV::Ident(s@)]);
    r
}

// ---------------------------------------------------------------------------
// Component fields

/// The fields of a component.
#[verifier::loop_isolation(false)]
pub fn read_comp_attrs(toks: &mut Vec<TokenTree>, maud: bool) -> (r: Result<
    Vec<ComponentAttribute>,
    ParseError,
>)
    ensures
        match s_comp_attrs(old(toks)@, Seq::empty(), maud) {
            Some((v, rest)) => r matches Ok(a) && comp_attrs_view(a@) == v && final(toks)@ == rest,
            None => r is Err,
        },
        r is Ok ==> is_suffix(final(toks)@, old(toks)@),
{
    let ghost ts0 = old(toks)@;
    let mut acc: Vec<ComponentAttribute> = Vec::new();
    proof {
        lemma_skip_size(ts0, 0);
        assert(skip(ts0, 0) =~= ts0);
        assert(comp_attrs_view(acc@) =~= Seq::empty());
    }
    loop
        invariant
            s_comp_attrs(toks@, comp_attrs_view(acc@), maud) == s_comp_attrs(ts0, Seq::empty(), maud),
            is_suffix(toks@, ts0),
        decreases toks@.len(),
    {
        let end = (joint_punct_at(toks, 0, '.') && punct_at(toks, 1, '.')) || (maud && (punct_at(
            toks,
            0,
            ';',
        ) || group_at(toks, 0, Delimiter::Brace))) || (!maud && punct_at(toks, 0, '>')) || (!maud
            && punct_at(toks, 0, '/') && punct_at(toks, 1, '>'));
        if end {
            return Ok(acc);
        }
        let ok = ident_at(toks, 0) && punct_at(toks, 1, '=') && (lit_at(toks, 2, LitKind::Str)
            || lit_at(toks, 2, LitKind::Int) || ident_at(toks, 2) || group_at(
            toks,
            2,
            Delimiter::Parenthesis,
        ));
        if !ok {
            return Err(unexpected(toks));
        }
        let ghost cur = toks@;
        let ghost av = comp_attrs_view(acc@);
        let name_tok = take(toks);
        take(toks);
        let value_tok = take(toks);
        let name = match name_tok {
            TokenTree::Ident(s) => s,
            _ => String::new(),
        };
        let mut value: Vec<TokenTree> = Vec::new();
        value.push(value_tok);
        acc.push(ComponentAttribute { name, value });
        proof {
            assert(skip(skip(skip(cur, 1), 1), 1) =~= skip(cur, 3));
            lemma_skip_size(cur, 3);
            lemma_suffix_trans(toks@, cur, ts0);
            assert(value@ =~= seq![cur[2]]);
            assert(comp_attrs_view(acc@) =~= av.push((ident_text(cur[0]), seq![cur[2]])));
        }
    }
}

// ---------------------------------------------------------------------------
// Nodes

/// Nodes up to the end of the tokens.
#[verifier::loop_isolation(false)]
pub fn read_nodes(toks: &mut Vec<TokenTree>, m: Mode) -> (r: Result<Vec<ElementNode>, ParseError>)
    ensures
        match s_nodes(old(toks)@, Seq::empty(), m) {
            Some((v, rest)) => r matches Ok(ns) && nodes_view(ns@) == v && nodes_wf(ns@)
                && final(toks)@ == rest,
            None => r is Err,
        },
        r is Ok ==> is_suffix(final(toks)@, old(toks)@),
    decreases seq_size(old(toks)@), 9int,
{
    let ghost ts0 = old(toks)@;
    let mut acc: Vec<ElementNode> = Vec::new();
    proof {
        lemma_skip_size(ts0, 0);
        assert(skip(ts0, 0) =~= ts0);
        assert(nodes_view(acc@) =~= Seq::empty());
    }
    loop
        invariant
            s_nodes(toks@, nodes_view(acc@), m) == s_nodes(ts0, Seq::empty(), m),
            is_suffix(toks@, ts0),
            nodes_wf(acc@),
        decreases toks@.len(),
    {
        if toks.len() == 0 {
            return Ok(acc);
        }
        let ghost cur = toks@;
        proof {
            lemma_suffix_size(cur, ts0);
        }
        let n = read_node(toks, m)?;
        proof {
            lemma_suffix_size(toks@, cur);
            lemma_suffix_trans(toks@, cur, ts0);
            lemma_nodes_push(acc@, n);
        }
        acc.push(n);
    }
}

/// The children of an rsx element: up to `</`, or to the end (then
/// `false`).
#[verifier::loop_isolation(false)]
pub fn read_rsx_children(toks: &mut Vec<TokenTree>) -> (r: Result<(Vec<ElementNode>, bool), ParseError>)
    ensures
        match s_rsx_children(old(toks)@, Seq::empty()) {
            Some(((v, closed), rest)) => r matches Ok((ns, c)) && nodes_view(ns@) == v && nodes_wf(ns@)
                && c == closed && final(toks)@ == rest,
            None => r is Err,
        },
        r is Ok ==> is_suffix(final(toks)@, old(toks)@),
        r matches Ok((_, c)) ==> (c ==> final(toks)@.len() >= 2),
    decreases seq_size(old(toks)@), 9int,
{
    let ghost ts0 = old(toks)@;
    let mut acc: Vec<ElementNode> = Vec::new();
    proof {
        lemma_skip_size(ts0, 0);
        assert(skip(ts0, 0) =~= ts0);
        assert(nodes_view(acc@) =~= Seq::empty());
    }
    loop
        invariant
            s_rsx_children(toks@, nodes_view(acc@)) == s_rsx_children(ts0, Seq::empty()),
            is_suffix(toks@, ts0),
            nodes_wf(acc@),
        decreases toks@.len(),
    {
        if toks.len() == 0 {
            return Ok((acc, false));
        }
        if punct_at(toks, 0, '<') && punct_at(toks, 1, '/') {
            return Ok((acc, true));
        }
        let ghost cur = toks@;
        proof {
            lemma_suffix_size(cur, ts0);
        }
        let n = read_node(toks, Mode::Rsx)?;
        proof {
            lemma_suffix_size(toks@, cur);
            lemma_suffix_trans(toks@, cur, ts0);
            lemma_nodes_push(acc@, n);
        }
        acc.push(n);
    }
}

/// The nodes of an rsx fragment, up to and with `</>`.
#[verifier::loop_isolation(false)]
pub fn read_fragment(toks: &mut Vec<TokenTree>) -> (r: Result<Vec<ElementNode>, ParseError>)
    ensures
        match s_fragment(old(toks)@, Seq::empty()) {
            Some((v, rest)) => r matches Ok(ns) && nodes_view(ns@) == v && nodes_wf(ns@)
                && final(toks)@ == rest,
            None => r is Err,
        },
        r is Ok ==> is_suffix(final(toks)@, old(toks)@),
    decreases seq_size(old(toks)@), 9int,
{
    let ghost ts0 = old(toks)@;
    let mut acc: Vec<ElementNode> = Vec::new();
    proof {
        lemma_skip_size(ts0, 0);
        assert(skip(ts0, 0) =~= ts0);
        assert(nodes_view(acc@) =~= Seq::empty());
    }
    loop
        invariant
            s_fragment(toks@, nodes_view(acc@)) == s_fragment(ts0, Seq::empty()),
            is_suffix(toks@, ts0),
            nodes_wf(acc@),
        decreases toks@.len(),
    {
        let ghost cur = toks@;
        if punct_at(toks, 0, '<') && punct_at(toks, 1, '/') && punct_at(toks, 2, '>') {
            drop_front(toks, 3);
            proof {
                lemma_skip_size(cur, 3);
                lemma_suffix_trans(toks@, cur, ts0);
            }
            return Ok(acc);
        }
        proof {
            lemma_suffix_size(cur, ts0);
        }
        let n = read_node(toks, Mode::Rsx)?;
        proof {
            lemma_suffix_size(toks@, cur);
            lemma_suffix_trans(toks@, cur, ts0);
            lemma_nodes_push(acc@, n);
        }
        acc.push(n);
    }
}

/// One node in mode `m`.
pub fn read_node(toks: &mut Vec<TokenTree>, m: Mode) -> (r: Result<ElementNode, ParseError>)
    ensures
        match s_node(old(toks)@, m) {
            Some((v, rest)) => r matches Ok(n) && node_view(n) == v && node_wf(n) && final(toks)@
                == rest,
            None => r is Err,
        },
        r is Ok ==> is_suffix(final(toks)@, old(toks)@) && final(toks)@.len() < old(toks)@.len(),
    decreases seq_size(old(toks)@), 8int,
{
    let ghost ts0 = old(toks)@;
    if toks.len() == 0 {
        return Err(unexpected(toks));
    }
    proof {
        lemma_skip_size(ts0, 1);
        lemma_group_size(ts0);
    }
    if punct_at(toks, 0, '@') {
        take(toks);
        let c = read_control(toks, m)?;
        proof {
            lemma_suffix_trans(toks@, skip(ts0, 1), ts0);
        }
        return Ok(ElementNode::Control(c));
    }
    if group_at(toks, 0, Delimiter::Parenthesis) {
        let inner = take_group(toks);
        return Ok(ElementNode::Expr(inner));
    }
    if group_at(toks, 0, Delimiter::Brace) && !is_rsx(m) {
        let mut inner = take_group(toks);
        let ns = read_nodes(&mut inner, m)?;
        return Ok(ElementNode::Group(ns));
    }
    match m {
        Mode::Maud => read_maud_node(toks),
        Mode::Rsx => read_rsx_node(toks),
        _ => {
            if lit_ok_at(toks, m) {
                let t = take(toks);
                let l = read_lit(t, m);
                Ok(ElementNode::Literal(l))
            } else if matches!(m, Mode::Name) && (ident_at(toks, 0) || lit_at(toks, 0, LitKind::Int)) {
                let n = read_name(toks)?;
                Ok(ElementNode::Name(n))
            } else {
                Err(unexpected(toks))
            }
        },
    }
}

/// A Maud node that starts with an identifier, `!` or a literal.
pub fn read_maud_node(toks: &mut Vec<TokenTree>) -> (r: Result<ElementNode, ParseError>)
    ensures
        match s_maud_node(old(toks)@) {
            Some((v, rest)) => r matches Ok(n) && node_view(n) == v && node_wf(n) && final(toks)@
                == rest,
            None => r is Err,
        },
        r is Ok ==> is_suffix(final(toks)@, old(toks)@) && final(toks)@.len() < old(toks)@.len(),
    decreases seq_size(old(toks)@), 7int,
{
    let ghost ts0 = old(toks)@;
    if toks.len() == 0 {
        return Err(unexpected(toks));
    }
    if ident_at(toks, 0) {
        let first = match &toks[0] {
            TokenTree::Ident(s) => s.clone(),
            _ => String::new(),
        };
        let name = read_name(toks)?;
        let ghost r1 = toks@;
        proof {
            lemma_suffix_size(r1, ts0);
        }
        if name.is_component() {
            proof {
                assert(name_view(name)[0] == super::grammar::frag_view(name.0@[0]));
            }
            let c = read_maud_component(toks, first)?;
            proof {
                lemma_suffix_trans(toks@, r1, ts0);
            }
            Ok(c)
        } else {
            proof {
                assert(name_view(name).len() == name.0@.len());
                if name.0@.len() == 1 && name.0@[0] is Ident {
                    assert(name_view(name)[0] == super::grammar::frag_view(name.0@[0]));
                }
            }
            let e = read_maud_element(toks, name)?;
            proof {
                lemma_suffix_trans(toks@, r1, ts0);
            }
            Ok(e)
        }
    } else if punct_at(toks, 0, '!') {
        if word_at(toks, 1, "DOCTYPE") {
            drop_front(toks, 2);
            proof {
                lemma_skip_size(ts0, 2);
            }
            Ok(ElementNode::Doctype)
        } else {
            Err(unexpected(toks))
        }
    } else if lit_ok_at(toks, Mode::Maud) {
        let t = take(toks);
        proof {
            lemma_skip_size(ts0, 1);
        }
        Ok(ElementNode::Literal(read_lit(t, Mode::Maud)))
    } else {
        Err(unexpected(toks))
    }
}

/// An rsx node that starts with `<`, a literal or a word of text.
pub fn read_rsx_node(toks: &mut Vec<TokenTree>) -> (r: Result<ElementNode, ParseError>)
    ensures
        match s_rsx_node(old(toks)@) {
            Some((v, rest)) => r matches Ok(n) && node_view(n) == v && node_wf(n) && final(toks)@
                == rest,
            None => r is Err,
        },
        r is Ok ==> is_suffix(final(toks)@, old(toks)@) && final(toks)@.len() < old(toks)@.len(),
    decreases seq_size(old(toks)@), 7int,
{
    let ghost ts0 = old(toks)@;
    if toks.len() == 0 {
        return Err(unexpected(toks));
    }
    if punct_at(toks, 0, '<') {
        if punct_at(toks, 1, '>') {
            drop_front(toks, 2);
            proof {
                lemma_skip_size(ts0, 2);
            }
            let ns = read_fragment(toks)?;
            proof {
                lemma_suffix_trans(toks@, skip(ts0, 2), ts0);
            }
            Ok(ElementNode::Group(ns))
        } else if ident_at(toks, 1) {
            let second = match &toks[1] {
                TokenTree::Ident(s) => s.clone(),
                _ => String::new(),
            };
            take(toks);
            let name = read_name(toks)?;
            let ghost r1 = toks@;
            proof {
                lemma_skip_size(ts0, 1);
                lemma_suffix_trans(r1, skip(ts0, 1), ts0);
                lemma_suffix_size(r1, ts0);
            }
            if name.is_component() {
                proof {
                    assert(name_view(name)[0] == super::grammar::frag_view(name.0@[0]));
                }
                let c = read_rsx_component(toks, second)?;
                proof {
                    lemma_suffix_trans(toks@, r1, ts0);
                }
                Ok(c)
            } else {
                proof {
                    assert(name_view(name).len() == name.0@.len());
                    if name.0@.len() == 1 && name.0@[0] is Ident {
                        assert(name_view(name)[0] == super::grammar::frag_view(name.0@[0]));
                    }
                }
                let e = read_rsx_element(toks, name)?;
                proof {
                    lemma_suffix_trans(toks@, r1, ts0);
                }
                Ok(e)
            }
        } else if punct_at(toks, 1, '!') && word_at(toks, 2, "DOCTYPE") && word_at(toks, 3, "html")
            && punct_at(toks, 4, '>') {
            drop_front(toks, 5);
            proof {
                lemma_skip_size(ts0, 5);
            }
            Ok(ElementNode::Doctype)
        } else {
            Err(unexpected(toks))
        }
    } else if lit_ok_at(toks, Mode::Rsx) {
        let t = take(toks);
        proof {
            lemma_skip_size(ts0, 1);
        }
        Ok(ElementNode::Literal(read_lit(t, Mode::Rsx)))
    } else if ident_at(toks, 0) {
        let spaced = ident_at(toks, 1) || lit_at(toks, 1, LitKind::Int) || lit_at(
            toks,
            1,
            LitKind::Float,
        );
        let t = take(toks);
        proof {
            lemma_skip_size(ts0, 1);
        }
        let mut word = match t {
            TokenTree::Ident(s) => s,
            _ => String::new(),
        };
        if spaced {
            push_char(&mut word, ' ');
        }
        Ok(ElementNode::Literal(Literal::Str(word)))
    } else {
        Err(unexpected(toks))
    }
}

/// The optional Maud `#value` shorthand, as the attributes it stands for.
pub fn read_maud_id(toks: &mut Vec<TokenTree>) -> (r: Result<Vec<Attribute>, ParseError>)
    ensures
        match s_maud_id(old(toks)@) {
            Some((v, rest)) => r matches Ok(a) && attrs_view(a@) == v && attrs_wf(a@) && final(toks)@
                == rest,
            None => r is Err,
        },
        r is Ok ==> is_suffix(final(toks)@, old(toks)@),
    decreases seq_size(old(toks)@), 5int,
{
    let ghost ts0 = old(toks)@;
    let mut attrs: Vec<Attribute> = Vec::new();
    proof {
        lemma_skip_size(ts0, 0);
        assert(skip(ts0, 0) =~= ts0);
        assert(attrs_view(attrs@) =~= Seq::empty());
    }
    if punct_at(toks, 0, '#') {
        take(toks);
        proof {
            lemma_skip_size(ts0, 1);
        }
        let v = read_node(toks, Mode::Name)?;
        let a = Attribute {
            name: AttributeName::Normal(single_ident_name("id")),
            kind: AttributeKind::Value { value: v, toggle: None },
        };
        proof {
            lemma_attrs_push(attrs@, a);
            lemma_suffix_trans(toks@, skip(ts0, 1), ts0);
            assert(attrs_view(attrs@.push(a)) =~= seq![super::grammar::id_attr(node_view(v))]);
        }
        attrs.push(a);
    }
    Ok(attrs)
}

/// A Maud element after its name.
pub fn read_maud_element(toks: &mut Vec<TokenTree>, name: UnquotedName) -> (r: Result<
    ElementNode,
    ParseError,
>)
    requires
        name.is_plain(),
    ensures
        match s_maud_element(old(toks)@, name_view(name)) {
            Some((v, rest)) => r matches Ok(n) && node_view(n) == v && node_wf(n) && final(toks)@
                == rest,
            None => r is Err,
        },
        r is Ok ==> is_suffix(final(toks)@, old(toks)@),
    decreases seq_size(old(toks)@), 6int,
{
    let ghost ts0 = old(toks)@;
    let mut attrs = read_maud_id(toks)?;
    let ghost r1 = toks@;
    let ghost ids = attrs_view(attrs@);
    proof {
        lemma_suffix_size(r1, ts0);
    }
    let cs = read_classes(toks)?;
    let ghost r2 = toks@;
    let ghost csv = classes_view(cs@);
    if cs.len() > 0 {
        let a = Attribute {
            name: AttributeName::Normal(single_ident_name("class")),
            kind: AttributeKind::ClassList(cs),
        };
        proof {
            lemma_attrs_push(attrs@, a);
        }
        attrs.push(a);
    }
    proof {
        assert(attrs_view(attrs@) =~= ids + super::grammar::class_attr(csv));
        lemma_suffix_trans(r2, r1, ts0);
        lemma_suffix_size(r2, ts0);
    }
    let attrs = read_maud_attrs(toks, attrs)?;
    let ghost r3 = toks@;
    proof {
        lemma_suffix_trans(r3, r2, ts0);
        lemma_suffix_size(r3, ts0);
    }
    let body = read_maud_body(toks)?;
    proof {
        lemma_suffix_trans(toks@, r3, ts0);
    }
    Ok(ElementNode::Element(Element { name, attrs, body }))
}

/// A Maud component after its name.
pub fn read_maud_component(toks: &mut Vec<TokenTree>, name: String) -> (r: Result<
    ElementNode,
    ParseError,
>)
    ensures
        match s_maud_component(old(toks)@, name@) {
            Some((v, rest)) => r matches Ok(n) && node_view(n) == v && node_wf(n) && final(toks)@
                == rest,
            None => r is Err,
        },
        r is Ok ==> is_suffix(final(toks)@, old(toks)@),
    decreases seq_size(old(toks)@), 6int,
{
    let ghost ts0 = old(toks)@;
    let attrs = read_comp_attrs(toks, true)?;
    let ghost r1 = toks@;
    let dotdot = joint_punct_at(toks, 0, '.') && punct_at(toks, 1, '.');
    if dotdot {
        drop_front(toks, 2);
    }
    let ghost r2 = toks@;
    proof {
        if dotdot {
            lemma_skip_size(r1, 2);
        }
        lemma_skip_size(r1, 0);
        assert(skip(r1, 0) =~= r1);
        lemma_suffix_trans(r2, r1, ts0);
        lemma_suffix_size(r2, ts0);
    }
    let body = read_maud_body(toks)?;
    proof {
        lemma_suffix_trans(toks@, r2, ts0);
    }
    Ok(ElementNode::Component(Component { name, attrs, dotdot, body }))
}

/// Maud `.value[toggle]` class shorthands.
#[verifier::loop_isolation(false)]
pub fn read_classes(toks: &mut Vec<TokenTree>) -> (r: Result<Vec<Class>, ParseError>)
    ensures
        match s_classes(old(toks)@, Seq::empty()) {
            Some((v, rest)) => r matches Ok(cs) && classes_view(cs@) == v && classes_wf(cs@)
                && final(toks)@ == rest,
            None => r is Err,
        },
        r is Ok ==> is_suffix(final(toks)@, old(toks)@),
    decreases seq_size(old(toks)@), 5int,
{
    let ghost ts0 = old(toks)@;
    let mut acc: Vec<Class> = Vec::new();
    proof {
        lemma_skip_size(ts0, 0);
        assert(skip(ts0, 0) =~= ts0);
        assert(classes_view(acc@) =~= Seq::empty());
    }
    loop
        invariant
            s_classes(toks@, classes_view(acc@)) == s_classes(ts0, Seq::empty()),
            is_suffix(toks@, ts0),
            classes_wf(acc@),
        decreases toks@.len(),
    {
        if !punct_at(toks, 0, '.') {
            return Ok(acc);
        }
        let ghost cur = toks@;
        take(toks);
        proof {
            lemma_skip_size(cur, 1);
            lemma_suffix_size(cur, ts0);
            lemma_suffix_trans(skip(cur, 1), cur, ts0);
        }
        let value = read_node(toks, Mode::Name)?;
        let ghost r1 = toks@;
        let toggle = read_toggle(toks)?;
        let c = Class { value, toggle };
        proof {
            lemma_suffix_trans(toks@, r1, skip(cur, 1));
            lemma_suffix_trans(toks@, skip(cur, 1), cur);
            lemma_suffix_size(toks@, cur);
            lemma_suffix_trans(toks@, cur, ts0);
            lemma_classes_push(acc@, c);
        }
        acc.push(c);
    }
}

/// Maud attributes up to `;` or a block, after `acc`.
#[verifier::loop_isolation(false)]
pub fn read_maud_attrs(toks: &mut Vec<TokenTree>, acc: Vec<Attribute>) -> (r: Result<
    Vec<Attribute>,
    ParseError,
>)
    requires
        attrs_wf(acc@),
    ensures
        match s_maud_attrs(old(toks)@, attrs_view(acc@)) {
            Some((v, rest)) => r matches Ok(a) && attrs_view(a@) == v && attrs_wf(a@) && final(toks)@
                == rest,
            None => r is Err,
        },
        r is Ok ==> is_suffix(final(toks)@, old(toks)@),
    decreases seq_size(old(toks)@), 5int,
{
    let ghost ts0 = old(toks)@;
    let ghost acc0 = acc@;
    let mut acc = acc;
    proof {
        lemma_skip_size(ts0, 0);
        assert(skip(ts0, 0) =~= ts0);
    }
    loop
        invariant
            s_maud_attrs(toks@, attrs_view(acc@)) == s_maud_attrs(ts0, attrs_view(acc0)),
            is_suffix(toks@, ts0),
            attrs_wf(acc@),
        decreases toks@.len(),
    {
        if punct_at(toks, 0, ';') || group_at(toks, 0, Delimiter::Brace) {
            return Ok(acc);
        }
        let ghost cur = toks@;
        proof {
            lemma_suffix_size(cur, ts0);
        }
        let a = read_attr(toks, true)?;
        proof {
            lemma_suffix_size(toks@, cur);
            lemma_suffix_trans(toks@, cur, ts0);
            lemma_attrs_push(acc@, a);
        }
        acc.push(a);
    }
}

/// A Maud body: `;`, or a block of children.
pub fn read_maud_body(toks: &mut Vec<TokenTree>) -> (r: Result<ElementBody, ParseError>)
    ensures
        match s_maud_body(old(toks)@) {
            Some((v, rest)) => r matches Ok(b) && body_view(b) == v && body_wf(b) && final(toks)@
                == rest,
            None => r is Err,
        },
        r is Ok ==> is_suffix(final(toks)@, old(toks)@) && final(toks)@.len() < old(toks)@.len(),
    decreases seq_size(old(toks)@), 5int,
{
    let ghost ts0 = old(toks)@;
    if punct_at(toks, 0, ';') {
        take(toks);
        proof {
            lemma_skip_size(ts0, 1);
        }
        Ok(ElementBody::Void)
    } else if group_at(toks, 0, Delimiter::Brace) {
        proof {
            lemma_skip_size(ts0, 1);
            lemma_group_size(ts0);
        }
        let mut inner = take_group(toks);
        let children = read_nodes(&mut inner, Mode::Maud)?;
        Ok(ElementBody::Normal { children, closing_name: None })
    } else {
        Err(unexpected(toks))
    }
}

/// An attribute.
pub fn read_attr(toks: &mut Vec<TokenTree>, maud: bool) -> (r: Result<Attribute, ParseError>)
    ensures
        match s_attr(old(toks)@, maud) {
            Some((v, rest)) => r matches Ok(a) && attr_view(a) == v && attr_wf(a) && final(toks)@
                == rest,
            None => r is Err,
        },
        r is Ok ==> is_suffix(final(toks)@, old(toks)@) && final(toks)@.len() < old(toks)@.len(),
    decreases seq_size(old(toks)@), 4int,
{
    let ghost ts0 = old(toks)@;
    let name = read_attr_name(toks)?;
    let ghost r1 = toks@;
    if punct_at(toks, 0, '=') {
        take(toks);
        let ghost r2 = toks@;
        proof {
            lemma_skip_size(r1, 1);
            lemma_suffix_trans(r2, r1, ts0);
            lemma_suffix_size(r2, ts0);
        }
        if maud && group_at(toks, 0, Delimiter::Bracket) {
            let t = read_toggle(toks)?;
            proof {
                lemma_suffix_trans(toks@, r2, ts0);
            }
            match t {
                Some(t) => Ok(Attribute { name, kind: AttributeKind::Option(t) }),
                None => Err(unexpected(toks)),
            }
        } else {
            let mode = if maud {
                Mode::Value
            } else {
                Mode::Name
            };
            let value = read_node(toks, mode)?;
            let ghost r3 = toks@;
            proof {
                lemma_suffix_trans(r3, r2, ts0);
            }
            if maud {
                let toggle = read_toggle(toks)?;
                proof {
                    lemma_suffix_trans(toks@, r3, ts0);
                }
                Ok(Attribute { name, kind: AttributeKind::Value { value, toggle } })
            } else {
                Ok(Attribute { name, kind: AttributeKind::Value { value, toggle: None } })
            }
        }
    } else if maud {
        let toggle = read_toggle(toks)?;
        proof {
            lemma_suffix_trans(toks@, r1, ts0);
        }
        Ok(Attribute { name, kind: AttributeKind::Empty(toggle) })
    } else {
        Ok(Attribute { name, kind: AttributeKind::Empty(None) })
    }
}

// ---------------------------------------------------------------------------
// rsx elements and components

/// The fragment a token stands for in a name, the token left in place.
fn peek_frag(t: &TokenTree) -> (r: Option<NameFragment>)
    ensures
        match s_frag(*t) {
            Some(f) => r matches Some(x) && frag_view(x) == f,
            None => r is None,
        },
{
    match t {
        TokenTree::Ident(s) => Some(NameFragment::Ident(s.clone())),
        TokenTree::Literal(l) => if same_lit_kind(l.kind, LitKind::Int) && l.suffix.as_str().unicode_len()
            == 0 {
            Some(NameFragment::Number(l.text.clone()))
        } else {
            None
        },
        TokenTree::Punct(c, _) => if *c == '-' {
            Some(NameFragment::Hyphen)
        } else if *c == ':' {
            Some(NameFragment::Colon)
        } else if *c == '.' {
            Some(NameFragment::Dot)
        } else {
            None
        },
        _ => None,
    }
}

/// The name that starts at token `start`, the tokens left in place, and
/// where it ends.
#[verifier::loop_isolation(false)]
fn peek_name(toks: &Vec<TokenTree>, start: usize) -> (r: Option<(UnquotedName, usize)>)
    requires
        start <= toks@.len(),
    ensures
        match s_name(skip(toks@, start as int)) {
            Some((v, rest)) => r matches Some((n, end)) && name_view(n) == v && start <= end
                <= toks@.len() && rest == skip(toks@, end as int),
            None => r is None,
        },
{
    let ghost ts = skip(toks@, start as int);
    let len = toks.len();
    if !(ident_at(toks, start) || lit_at(toks, start, LitKind::Int)) {
        return None;
    }
    assert(ts[0] == toks@[start as int]);
    let first = match peek_frag(&toks[start]) {
        Some(f) => f,
        None => {
            return None;
        },
    };
    let mut acc: Vec<NameFragment> = Vec::new();
    acc.push(first);
    let mut i: usize = start + 1;
    proof {
        assert(frags_view(acc@) =~= seq![frag_view(first)]);
        assert(skip(ts, 1) =~= skip(toks@, i as int));
    }
    loop
        invariant
            start < i <= toks@.len(),
            len == toks@.len(),
            acc@.len() > 0,
            s_name_tail(skip(toks@, i as int), frags_view(acc@), false) == s_name(ts),
        decreases toks@.len() - i,
    {
        let ghost av = frags_view(acc@);
        let last_punct = acc[acc.len() - 1].is_punct();
        proof {
            assert(av.last() == frag_view(acc@.last()));
        }
        let goes_on = punct_at(toks, i, '-') || (last_punct && (ident_at(toks, i) || lit_at(
            toks,
            i,
            LitKind::Int,
        )));
        if !goes_on {
            proof {
                if i < toks@.len() {
                    assert(skip(toks@, i as int)[0] == toks@[i as int]);
                }
            }
            return Some((UnquotedName(acc), i));
        }
        proof {
            assert(skip(toks@, i as int)[0] == toks@[i as int]);
            assert(skip(skip(toks@, i as int), 1) =~= skip(toks@, i + 1));
        }
        match peek_frag(&toks[i]) {
            Some(f) => {
                acc.push(f);
                proof {
                    assert(frags_view(acc@) =~= av.push(frag_view(f)));
                }
                i += 1;
            },
            None => {
                return None;
            },
        }
    }
}

/// Whether two fragments are the same.
fn same_frag(a: &NameFragment, b: &NameFragment) -> (r: bool)
    ensures
        r == (frag_view(*a) == frag_view(*b)),
{
    match (a, b) {
        (NameFragment::Ident(x), NameFragment::Ident(y)) => str_eq(x.as_str(), y.as_str()),
        (NameFragment::Number(x), NameFragment::Number(y)) => str_eq(x.as_str(), y.as_str()),
        (NameFragment::Hyphen, NameFragment::Hyphen) => true,
        (NameFragment::Colon, NameFragment::Colon) => true,
        (NameFragment::Dot, NameFragment::Dot) => true,
        _ => false,
    }
}

/// Whether two names are the same.
fn same_name(a: &UnquotedName, b: &UnquotedName) -> (r: bool)
    ensures
        r == (name_view(*a) == name_view(*b)),
{
    if a.0.len() != b.0.len() {
        assert(name_view(*a).len() != name_view(*b).len());
        return false;
    }
    let n = a.0.len();
    let mut i: usize = 0;
    while i < n
        invariant
            n == a.0@.len(),
            n == b.0@.len(),
            i <= n,
            forall|j: int| 0 <= j < i ==> name_view(*a)[j] == name_view(*b)[j],
        decreases n - i,
    {
        if !same_frag(&a.0[i], &b.0[i]) {
            assert(name_view(*a)[i as int] != name_view(*b)[i as int]);
            return false;
        }
        i += 1;
    }
    assert(name_view(*a) =~= name_view(*b));
    true
}

/// A void element or component followed by the nodes that were read as its
/// children before its closing tag turned out to be missing.
fn unclosed_group(el: ElementNode, children: Vec<ElementNode>) -> (r: ElementNode)
    requires
        node_wf(el),
        nodes_wf(children@),
    ensures
        node_view(r) == unclosed(node_view(el), nodes_view(children@)),
        node_wf(r),
{
    let ghost cs = children@;
    let mut v: Vec<ElementNode> = Vec::new();
    proof {
        lemma_nodes_push(v@, el);
        assert(v@.push(el) =~= seq![el]);
        assert(nodes_view(v@) =~= Seq::empty());
    }
    v.push(el);
    let mut c = children;
    v.append(&mut c);
    proof {
        lemma_nodes_concat(seq![el], cs);
        assert(nodes_view(seq![el]) =~= seq![node_view(el)]);
    }
    ElementNode::Group(v)
}

/// rsx attributes up to `>` or `/>`.
#[verifier::loop_isolation(false)]
pub fn read_rsx_attrs(toks: &mut Vec<TokenTree>) -> (r: Result<Vec<Attribute>, ParseError>)
    ensures
        match s_rsx_attrs(old(toks)@, Seq::empty()) {
            Some((v, rest)) => r matches Ok(a) && attrs_view(a@) == v && attrs_wf(a@) && final(toks)@
                == rest,
            None => r is Err,
        },
        r is Ok ==> is_suffix(final(toks)@, old(toks)@),
    decreases seq_size(old(toks)@), 5int,
{
    let ghost ts0 = old(toks)@;
    let mut acc: Vec<Attribute> = Vec::new();
    proof {
        lemma_skip_size(ts0, 0);
        assert(skip(ts0, 0) =~= ts0);
        assert(attrs_view(acc@) =~= Seq::empty());
    }
    loop
        invariant
            s_rsx_attrs(toks@, attrs_view(acc@)) == s_rsx_attrs(ts0, Seq::empty()),
            is_suffix(toks@, ts0),
            attrs_wf(acc@),
        decreases toks@.len(),
    {
        if punct_at(toks, 0, '>') || (punct_at(toks, 0, '/') && punct_at(toks, 1, '>')) {
            return Ok(acc);
        }
        let ghost cur = toks@;
        proof {
            lemma_suffix_size(cur, ts0);
        }
        let a = read_attr(toks, false)?;
        proof {
            lemma_suffix_size(toks@, cur);
            lemma_suffix_trans(toks@, cur, ts0);
            lemma_attrs_push(acc@, a);
        }
        acc.push(a);
    }
}

/// An rsx element after `<` and its name.
pub fn read_rsx_element(toks: &mut Vec<TokenTree>, name: UnquotedName) -> (r: Result<
    ElementNode,
    ParseError,
>)
    requires
        name.is_plain(),
    ensures
        match s_rsx_element(old(toks)@, name_view(name)) {
            Some((v, rest)) => r matches Ok(n) && node_view(n) == v && node_wf(n) && final(toks)@
                == rest,
            None => r is Err,
        },
        r is Ok ==> is_suffix(final(toks)@, old(toks)@),
    decreases seq_size(old(toks)@), 6int,
{
    let ghost ts0 = old(toks)@;
    let attrs = read_rsx_attrs(toks)?;
    let ghost r1 = toks@;
    if punct_at(toks, 0, '/') && punct_at(toks, 1, '>') {
        drop_front(toks, 2);
        proof {
            lemma_skip_size(r1, 2);
            lemma_suffix_trans(toks@, r1, ts0);
        }
        return Ok(ElementNode::Element(Element { name, attrs, body: ElementBody::Void }));
    }
    if !punct_at(toks, 0, '>') {
        return Err(unexpected(toks));
    }
    take(toks);
    let ghost r1b = toks@;
    proof {
        lemma_skip_size(r1, 1);
        lemma_suffix_trans(r1b, r1, ts0);
        lemma_suffix_size(r1b, ts0);
    }
    let (children, closed) = read_rsx_children(toks)?;
    let ghost r2 = toks@;
    proof {
        lemma_suffix_trans(r2, r1b, ts0);
    }
    if !closed {
        let void = ElementNode::Element(Element { name, attrs, body: ElementBody::Void });
        return Ok(unclosed_group(void, children));
    }
    match peek_name(toks, 2) {
        None => Err(unexpected(toks)),
        Some((closing, end)) => {
            if same_name(&closing, &name) {
                if punct_at(toks, end, '>') {
                    drop_front(toks, end);
                    take(toks);
                    proof {
                        assert(skip(skip(r2, end as int), 1) =~= skip(r2, end + 1));
                        lemma_skip_size(r2, end + 1);
                        lemma_suffix_trans(toks@, r2, ts0);
                    }
                    Ok(
                        ElementNode::Element(
                            Element {
                                name,
                                attrs,
                                body: ElementBody::Normal { children, closing_name: Some(closing) },
                            },
                        ),
                    )
                } else {
                    proof {
                        if end < r2.len() {
                            assert(skip(r2, end as int)[0] == r2[end as int]);
                        }
                    }
                    Err(unexpected(toks))
                }
            } else {
                let void = ElementNode::Element(Element { name, attrs, body: ElementBody::Void });
                Ok(unclosed_group(void, children))
            }
        },
    }
}

/// An rsx component after `<` and its name.
pub fn read_rsx_component(toks: &mut Vec<TokenTree>, name: String) -> (r: Result<
    ElementNode,
    ParseError,
>)
    ensures
        match s_rsx_component(old(toks)@, name@) {
            Some((v, rest)) => r matches Ok(n) && node_view(n) == v && node_wf(n) && final(toks)@
                == rest,
            None => r is Err,
        },
        r is Ok ==> is_suffix(final(toks)@, old(toks)@),
    decreases seq_size(old(toks)@), 6int,
{
    let ghost ts0 = old(toks)@;
    let attrs = read_comp_attrs(toks, false)?;
    let ghost r0 = toks@;
    let dotdot = joint_punct_at(toks, 0, '.') && punct_at(toks, 1, '.');
    if dotdot {
        drop_front(toks, 2);
    }
    let ghost r1 = toks@;
    proof {
        if dotdot {
            lemma_skip_size(r0, 2);
        }
        lemma_skip_size(r0, 0);
        assert(skip(r0, 0) =~= r0);
        lemma_suffix_trans(r1, r0, ts0);
    }
    if punct_at(toks, 0, '/') && punct_at(toks, 1, '>') {
        drop_front(toks, 2);
        proof {
            lemma_skip_size(r1, 2);
            lemma_suffix_trans(toks@, r1, ts0);
        }
        return Ok(ElementNode::Component(Component { name, attrs, dotdot, body: ElementBody::Void }));
    }
    if !punct_at(toks, 0, '>') {
        return Err(unexpected(toks));
    }
    take(toks);
    let ghost r1b = toks@;
    proof {
        lemma_skip_size(r1, 1);
        lemma_suffix_trans(r1b, r1, ts0);
        lemma_suffix_size(r1b, ts0);
    }
    let (children, closed) = read_rsx_children(toks)?;
    let ghost r2 = toks@;
    proof {
        lemma_suffix_trans(r2, r1b, ts0);
    }
    if !closed {
        let void = ElementNode::Component(Component { name, attrs, dotdot, body: ElementBody::Void });
        return Ok(unclosed_group(void, children));
    }
    if !ident_at(toks, 2) {
        return Err(unexpected(toks));
    }
    let same = match &toks[2] {
        TokenTree::Ident(s) => str_eq(s.as_str(), name.as_str()),
        _ => false,
    };
    if same {
        if punct_at(toks, 3, '>') {
            drop_front(toks, 4);
            proof {
                lemma_skip_size(r2, 4);
                lemma_suffix_trans(toks@, r2, ts0);
            }
            let closing = single_ident_name(name.as_str());
            Ok(
                ElementNode::Component(
                    Component {
                        name,
                        attrs,
                        dotdot,
                        body: ElementBody::Normal { children, closing_name: Some(closing) },
                    },
                ),
            )
        } else {
            Err(unexpected(toks))
        }
    } else {
        let void = ElementNode::Component(Component { name, attrs, dotdot, body: ElementBody::Void });
        Ok(unclosed_group(void, children))
    }
}

// ---------------------------------------------------------------------------
// Control flow

/// Control flow after its `@`.
pub fn read_control(toks: &mut Vec<TokenTree>, m: Mode) -> (r: Result<Control, ParseError>)
    ensures
        match s_control(old(toks)@, m) {
            Some((v, rest)) => r matches Ok(c) && control_view(c) == v && control_wf(c) && final(toks)@ == rest,
            None => r is Err,
        },
        r is Ok ==> is_suffix(final(toks)@, old(toks)@) && final(toks)@.len() < old(toks)@.len(),
    decreases seq_size(old(toks)@), 5int,
{
    let ghost ts0 = old(toks)@;
    if toks.len() == 0 {
        return Err(unexpected(toks));
    }
    if word_at(toks, 0, "let") {
        let t = take(toks);
        let mut acc: Vec<TokenTree> = Vec::new();
        acc.push(t);
        proof {
            assert(acc@ =~= seq![ts0[0]]);
            lemma_skip_size(ts0, 1);
        }
        let code = read_until_semi(toks, acc)?;
        proof {
            lemma_suffix_trans(toks@, skip(ts0, 1), ts0);
        }
        Ok(Control::Let(code))
    } else if word_at(toks, 0, "if") {
        let i = read_if(toks, m)?;
        Ok(Control::If(i))
    } else if word_at(toks, 0, "for") {
        read_for(toks, m)
    } else if word_at(toks, 0, "while") {
        read_while(toks, m)
    } else if word_at(toks, 0, "match") {
        read_match(toks, m)
    } else {
        Err(unexpected(toks))
    }
}

/// A block `{ ... }` of nodes.
pub fn read_block(toks: &mut Vec<TokenTree>, m: Mode) -> (r: Result<Vec<ElementNode>, ParseError>)
    ensures
        match s_block(old(toks)@, m) {
            Some((v, rest)) => r matches Ok(ns) && nodes_view(ns@) == v && nodes_wf(ns@)
                && final(toks)@ == rest,
            None => r is Err,
        },
        r is Ok ==> is_suffix(final(toks)@, old(toks)@) && final(toks)@.len() < old(toks)@.len(),
    decreases seq_size(old(toks)@), 2int,
{
    let ghost ts0 = old(toks)@;
    if !group_at(toks, 0, Delimiter::Brace) {
        return Err(unexpected(toks));
    }
    proof {
        lemma_group_size(ts0);
        lemma_skip_size(ts0, 1);
    }
    let mut inner = take_group(toks);
    read_nodes(&mut inner, m)
}

/// `if cond { ... }` and its `@else` branch.
pub fn read_if(toks: &mut Vec<TokenTree>, m: Mode) -> (r: Result<If, ParseError>)
    requires
        old(toks)@.len() > 0,
    ensures
        match s_if(old(toks)@, m) {
            Some((v, rest)) => r matches Ok(i) && if_view(i) == v && if_wf(i) && final(toks)@ == rest,
            None => r is Err,
        },
        r is Ok ==> is_suffix(final(toks)@, old(toks)@) && final(toks)@.len() < old(toks)@.len(),
    decreases seq_size(old(toks)@), 3int,
{
    let ghost ts0 = old(toks)@;
    take(toks);
    proof {
        lemma_skip_size(ts0, 1);
    }
    let cond = read_until_brace(toks)?;
    let ghost r1 = toks@;
    if cond.len() == 0 {
        return Err(unexpected(toks));
    }
    proof {
        lemma_suffix_trans(r1, skip(ts0, 1), ts0);
        lemma_suffix_size(r1, ts0);
    }
    let then_block = read_block(toks, m)?;
    let ghost r2 = toks@;
    proof {
        lemma_suffix_trans(r2, r1, ts0);
    }
    if punct_at(toks, 0, '@') && word_at(toks, 1, "else") {
        drop_front(toks, 2);
        proof {
            lemma_skip_size(r2, 2);
            lemma_suffix_trans(toks@, r2, ts0);
            lemma_suffix_size(toks@, ts0);
        }
        let ghost r3 = toks@;
        let e = read_else(toks, m)?;
        proof {
            lemma_suffix_trans(toks@, r3, ts0);
        }
        Ok(If { cond, then_block, else_branch: Some(Box::new(e)) })
    } else {
        Ok(If { cond, then_block, else_branch: None })
    }
}

/// What follows `@else`.
pub fn read_else(toks: &mut Vec<TokenTree>, m: Mode) -> (r: Result<ControlIfOrBlock, ParseError>)
    ensures
        match s_else(old(toks)@, m) {
            Some((v, rest)) => r matches Ok(b) && else_view(b) == v && match b {
                ControlIfOrBlock::If(j) => if_wf(j),
                ControlIfOrBlock::Block(ns) => nodes_wf(ns@),
            } && final(toks)@ == rest,
            None => r is Err,
        },
        r is Ok ==> is_suffix(final(toks)@, old(toks)@) && final(toks)@.len() < old(toks)@.len(),
    decreases seq_size(old(toks)@), 4int,
{
    if word_at(toks, 0, "if") {
        let i = read_if(toks, m)?;
        Ok(ControlIfOrBlock::If(i))
    } else {
        let ns = read_block(toks, m)?;
        Ok(ControlIfOrBlock::Block(ns))
    }
}

/// `for pat in expr { ... }`
pub fn read_for(toks: &mut Vec<TokenTree>, m: Mode) -> (r: Result<Control, ParseError>)
    requires
        old(toks)@.len() > 0,
    ensures
        match s_for(old(toks)@, m) {
            Some((v, rest)) => r matches Ok(c) && control_view(c) == v && control_wf(c) && final(toks)@ == rest,
            None => r is Err,
        },
        r is Ok ==> is_suffix(final(toks)@, old(toks)@) && final(toks)@.len() < old(toks)@.len(),
    decreases seq_size(old(toks)@), 3int,
{
    let ghost ts0 = old(toks)@;
    take(toks);
    proof {
        lemma_skip_size(ts0, 1);
    }
    let pat = read_until_word(toks, "in")?;
    let ghost r1 = toks@;
    let expr = read_until_brace(toks)?;
    let ghost r2 = toks@;
    if pat.len() == 0 || expr.len() == 0 {
        return Err(unexpected(toks));
    }
    proof {
        lemma_suffix_trans(r1, skip(ts0, 1), ts0);
        lemma_suffix_trans(r2, r1, ts0);
        lemma_suffix_size(r2, ts0);
    }
    let body = read_block(toks, m)?;
    proof {
        lemma_suffix_trans(toks@, r2, ts0);
    }
    Ok(Control::For { pat, expr, body })
}

/// `while cond { ... }`
pub fn read_while(toks: &mut Vec<TokenTree>, m: Mode) -> (r: Result<Control, ParseError>)
    requires
        old(toks)@.len() > 0,
    ensures
        match s_while(old(toks)@, m) {
            Some((v, rest)) => r matches Ok(c) && control_view(c) == v && control_wf(c) && final(toks)@ == rest,
            None => r is Err,
        },
        r is Ok ==> is_suffix(final(toks)@, old(toks)@) && final(toks)@.len() < old(toks)@.len(),
    decreases seq_size(old(toks)@), 3int,
{
    let ghost ts0 = old(toks)@;
    take(toks);
    proof {
        lemma_skip_size(ts0, 1);
    }
    let cond = read_until_brace(toks)?;
    let ghost r1 = toks@;
    if cond.len() == 0 {
        return Err(unexpected(toks));
    }
    proof {
        lemma_suffix_trans(r1, skip(ts0, 1), ts0);
        lemma_suffix_size(r1, ts0);
    }
    let body = read_block(toks, m)?;
    proof {
        lemma_suffix_trans(toks@, r1, ts0);
    }
    Ok(Control::While { cond, body })
}

/// `match expr { arms }`
pub fn read_match(toks: &mut Vec<TokenTree>, m: Mode) -> (r: Result<Control, ParseError>)
    requires
        old(toks)@.len() > 0,
    ensures
        match s_match(old(toks)@, m) {
            Some((v, rest)) => r matches Ok(c) && control_view(c) == v && control_wf(c) && final(toks)@ == rest,
            None => r is Err,
        },
        r is Ok ==> is_suffix(final(toks)@, old(toks)@) && final(toks)@.len() < old(toks)@.len(),
    decreases seq_size(old(toks)@), 3int,
{
    let ghost ts0 = old(toks)@;
    take(toks);
    proof {
        lemma_skip_size(ts0, 1);
    }
    let expr = read_until_brace(toks)?;
    let ghost r1 = toks@;
    if expr.len() == 0 {
        return Err(unexpected(toks));
    }
    proof {
        lemma_suffix_trans(r1, skip(ts0, 1), ts0);
        lemma_suffix_group_size(r1, ts0);
        lemma_skip_size(r1, 1);
        lemma_suffix_trans(skip(r1, 1), r1, ts0);
    }
    let mut inner = take_group(toks);
    let arms = read_arms(&mut inner, m)?;
    Ok(Control::Match { expr, arms })
}

/// Match arms up to the end of the tokens.
#[verifier::loop_isolation(false)]
pub fn read_arms(toks: &mut Vec<TokenTree>, m: Mode) -> (r: Result<Vec<MatchNodeArm>, ParseError>)
    ensures
        match s_arms(old(toks)@, Seq::empty(), m) {
            Some((v, rest)) => r matches Ok(a) && arms_view(a@) == v && arms_wf(a@) && final(toks)@
                == rest,
            None => r is Err,
        },
        r is Ok ==> is_suffix(final(toks)@, old(toks)@),
    decreases seq_size(old(toks)@), 3int,
{
    let ghost ts0 = old(toks)@;
    let mut acc: Vec<MatchNodeArm> = Vec::new();
    proof {
        lemma_skip_size(ts0, 0);
        assert(skip(ts0, 0) =~= ts0);
        assert(arms_view(acc@) =~= Seq::empty());
    }
    loop
        invariant
            s_arms(toks@, arms_view(acc@), m) == s_arms(ts0, Seq::empty(), m),
            is_suffix(toks@, ts0),
            arms_wf(acc@),
        decreases toks@.len(),
    {
        if toks.len() == 0 {
            return Ok(acc);
        }
        let ghost cur = toks@;
        proof {
            lemma_suffix_size(cur, ts0);
        }
        let a = read_arm(toks, m)?;
        proof {
            lemma_suffix_size(toks@, cur);
            lemma_suffix_trans(toks@, cur, ts0);
            lemma_arms_push(acc@, a);
        }
        acc.push(a);
    }
}

/// A match arm, with its optional trailing `,`.
pub fn read_arm(toks: &mut Vec<TokenTree>, m: Mode) -> (r: Result<MatchNodeArm, ParseError>)
    ensures
        match s_arm(old(toks)@, m) {
            Some((v, rest)) => r matches Ok(a) && arm_view(a) == v && match a.body {
                MatchNodeArmBody::Block(ns) => nodes_wf(ns@),
                MatchNodeArmBody::Node(n) => node_wf(*n),
            } && final(toks)@ == rest,
            None => r is Err,
        },
        r is Ok ==> is_suffix(final(toks)@, old(toks)@) && final(toks)@.len() < old(toks)@.len(),
    decreases seq_size(old(toks)@), 2int,
{
    let ghost ts0 = old(toks)@;
    let pat = read_until_arrow(toks)?;
    let ghost r1 = toks@;
    if pat.len() == 0 {
        return Err(unexpected(toks));
    }
    proof {
        lemma_suffix_size(r1, ts0);
    }
    let body = if group_at(toks, 0, Delimiter::Brace) {
        let ns = read_block(toks, m)?;
        MatchNodeArmBody::Block(ns)
    } else {
        let n = read_node(toks, m)?;
        MatchNodeArmBody::Node(Box::new(n))
    };
    let ghost r2 = toks@;
    proof {
        lemma_suffix_trans(r2, r1, ts0);
    }
    if punct_at(toks, 0, ',') {
        take(toks);
        proof {
            lemma_skip_size(r2, 1);
            lemma_suffix_trans(toks@, r2, ts0);
        }
    }
    Ok(MatchNodeArm { pat, body })
}

} // verus!
