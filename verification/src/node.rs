//! The parsed form of a template, and how each part of it is generated.
use vstd::prelude::*;

use crate::generate::{
    merge_parts, statements_view, Context, ElementCheck, ElementCheckV, ElementKind, Generator,
    MatchArm, MatchArmV, PartV, Statement, StatementV, Stmt, StmtV, ComponentField, escape_in,
};
use crate::names::{AttributeName, Literal, UnquotedName};
use crate::tokens::TokenTree;

verus! {

/// A condition in brackets that switches an attribute or a class on.
#[derive(Debug)]
pub struct Toggle {
    /// The condition's tokens.
    pub expr: Vec<TokenTree>,
}

/// One class of a class list, with its toggle.
#[derive(Debug)]
pub struct Class {
    /// The class name.
    pub value: ElementNode,
    /// When present, the class is only added if the condition holds.
    pub toggle: Option<Toggle>,
}

/// How an attribute is given.
#[derive(Debug)]
pub enum AttributeKind {
    /// `name=value`, optionally toggled: `name=value[cond]`.
    Value { value: ElementNode, toggle: Option<Toggle> },
    /// `name`, optionally toggled: `name[cond]`.
    Empty(Option<Toggle>),
    /// `name=[option]`: present with the value of `Some`, absent for `None`.
    Option(Toggle),
    /// The classes of the Maud `.a.b` shorthand.
    ClassList(Vec<Class>),
}

/// An attribute of an element.
#[derive(Debug)]
pub struct Attribute {
    /// Its name.
    pub name: AttributeName,
    /// How it is given.
    pub kind: AttributeKind,
}

/// The body of an element or component.
#[derive(Debug)]
pub enum ElementBody {
    /// Children and closing tag; `closing_name` is the name written in the
    /// closing tag, when the syntax writes one.
    Normal { children: Vec<ElementNode>, closing_name: Option<UnquotedName> },
    /// No children and no closing tag.
    Void,
}

/// An element.
#[derive(Debug)]
pub struct Element {
    /// Its name.
    pub name: UnquotedName,
    /// Its attributes, in order.
    pub attrs: Vec<Attribute>,
    /// Its body.
    pub body: ElementBody,
}

/// A field of a component and the tokens of its value.
#[derive(Debug)]
pub struct ComponentAttribute {
    /// The field's name.
    pub name: String,
    /// The value: a literal, an identifier or a parenthesized expression.
    pub value: Vec<TokenTree>,
}

/// A component: a value built from its fields and rendered.
#[derive(Debug)]
pub struct Component {
    /// The component's type name.
    pub name: String,
    /// Its fields.
    pub attrs: Vec<ComponentAttribute>,
    /// Whether `..` asks for the other fields' defaults.
    pub dotdot: bool,
    /// Its children, passed as the `children` field.
    pub body: ElementBody,
}

/// What follows `@else`.
#[derive(Debug)]
pub enum ControlIfOrBlock {
    /// `@else if ...`
    If(If),
    /// `@else { ... }`
    Block(Vec<ElementNode>),
}

/// `@if cond { ... } @else ...`
#[derive(Debug)]
pub struct If {
    /// The condition's tokens.
    pub cond: Vec<TokenTree>,
    /// The nodes rendered when it holds.
    pub then_block: Vec<ElementNode>,
    /// What is rendered otherwise.
    pub else_branch: Option<Box<ControlIfOrBlock>>,
}

/// The body of a match arm.
#[derive(Debug)]
pub enum MatchNodeArmBody {
    /// `pat => { ... }`
    Block(Vec<ElementNode>),
    /// `pat => node,`
    Node(Box<ElementNode>),
}

/// An arm of `@match`.
#[derive(Debug)]
pub struct MatchNodeArm {
    /// The pattern, with its guard.
    pub pat: Vec<TokenTree>,
    /// What the arm renders.
    pub body: MatchNodeArmBody,
}

/// A control-flow node.
#[derive(Debug)]
pub enum Control {
    /// `@let ...;`, kept as its tokens without the `@`.
    Let(Vec<TokenTree>),
    /// `@if`
    If(If),
    /// `@for pat in expr { ... }`
    For { pat: Vec<TokenTree>, expr: Vec<TokenTree>, body: Vec<ElementNode> },
    /// `@while cond { ... }`
    While { cond: Vec<TokenTree>, body: Vec<ElementNode> },
    /// `@match expr { arms }`
    Match { expr: Vec<TokenTree>, arms: Vec<MatchNodeArm> },
}

/// A node of a template, in an element's content or in an attribute value.
#[derive(Debug)]
pub enum ElementNode {
    /// `<!DOCTYPE html>`
    Doctype,
    /// An element.
    Element(Element),
    /// A component.
    Component(Component),
    /// A literal, rendered escaped.
    Literal(Literal),
    /// Control flow.
    Control(Control),
    /// A parenthesized expression, whose value is rendered.
    Expr(Vec<TokenTree>),
    /// Nodes grouped together.
    Group(Vec<ElementNode>),
    /// An unquoted name used as a value, as in Maud's `.item` class.
    Name(UnquotedName),
}

/// A node of an attribute value: the same nodes as in content.
pub type AttributeValueNode = ElementNode;

/// A whole template.
#[derive(Debug)]
pub struct Document {
    /// Its nodes, in order.
    pub nodes: Vec<ElementNode>,
}

/// What generating something produces: parts and element checks.
pub ghost struct Gen {
    pub parts: Seq<PartV>,
    pub checks: Seq<ElementCheckV>,
}

/// Nothing generated.
pub open spec fn gen_empty() -> Gen {
    Gen { parts: Seq::empty(), checks: Seq::empty() }
}

/// Parts only.
pub open spec fn gen_parts(parts: Seq<PartV>) -> Gen {
    Gen { parts, checks: Seq::empty() }
}

/// One generation after the other.
pub open spec fn gen_join(a: Gen, b: Gen) -> Gen {
    Gen { parts: a.parts + b.parts, checks: a.checks + b.checks }
}

/// Static text as a part.
pub open spec fn text_part(s: Seq<char>) -> Seq<PartV> {
    seq![PartV::Static(s)]
}

/// The static parts of a name, one per fragment.
pub open spec fn name_parts(name: UnquotedName) -> Seq<PartV> {
    Seq::new(name.0@.len(), |i: int| PartV::Static(name.0@[i].text()))
}

/// The static parts of an attribute name.
pub open spec fn attr_name_parts(name: AttributeName) -> Seq<PartV> {
    match name {
        AttributeName::Data { rest } => text_part("data"@) + text_part("-"@) + name_parts(rest),
        AttributeName::Namespace { namespace, rest } => name_parts(namespace) + text_part(":"@)
            + name_parts(rest),
        AttributeName::Symbol { symbol, rest } => text_part(symbol.text()) + name_parts(rest),
        AttributeName::Normal(name) => name_parts(name),
        AttributeName::Quoted(s) => text_part(s@),
    }
}

/// Whether some node is control flow.
pub open spec fn has_control(nodes: Seq<ElementNode>) -> bool {
    exists|i: int| 0 <= i < nodes.len() && (#[trigger] nodes[i]) is Control
}

/// A condition in parentheses, as toggles are written in generated code.
pub open spec fn toggle_if(cond: Vec<TokenTree>, then_block: Seq<StatementV>) -> PartV {
    PartV::Dynamic(StmtV::If { cond, paren: true, then_block, else_branch: None })
}

/// A block of generated statements, as a nested generation.
pub open spec fn block_of(inner: Gen) -> Seq<StatementV> {
    merge_parts(inner.parts)
}

/// The well-formedness that generation needs: element names and checked
/// attribute names are plain names.
pub open spec fn node_wf(n: ElementNode) -> bool
    decreases n,
{
    match n {
        ElementNode::Element(e) => e.name.is_plain() && attrs_wf(e.attrs@) && body_wf(e.body),
        ElementNode::Component(c) => body_wf(c.body),
        ElementNode::Control(c) => control_wf(c),
        ElementNode::Group(ns) => nodes_wf(ns@),
        _ => true,
    }
}

/// Well-formedness of nodes.
pub open spec fn nodes_wf(ns: Seq<ElementNode>) -> bool
    decreases ns,
{
    if ns.len() == 0 {
        true
    } else {
        nodes_wf(ns.drop_last()) && node_wf(ns.last())
    }
}

/// Well-formedness of a body.
pub open spec fn body_wf(b: ElementBody) -> bool
    decreases b,
{
    match b {
        ElementBody::Normal { children, .. } => nodes_wf(children@),
        ElementBody::Void => true,
    }
}

/// Well-formedness of attributes.
pub open spec fn attrs_wf(attrs: Seq<Attribute>) -> bool
    decreases attrs,
{
    if attrs.len() == 0 {
        true
    } else {
        attrs_wf(attrs.drop_last()) && attr_wf(attrs.last())
    }
}

/// Well-formedness of an attribute.
pub open spec fn attr_wf(a: Attribute) -> bool
    decreases a,
{
    a.name.well_formed() && match a.kind {
        AttributeKind::Value { value, .. } => node_wf(value),
        AttributeKind::ClassList(cs) => classes_wf(cs@),
        _ => true,
    }
}

/// Well-formedness of classes.
pub open spec fn classes_wf(cs: Seq<Class>) -> bool
    decreases cs,
{
    if cs.len() == 0 {
        true
    } else {
        classes_wf(cs.drop_last()) && node_wf(cs.last().value)
    }
}

/// Well-formedness of control flow.
pub open spec fn control_wf(c: Control) -> bool
    decreases c,
{
    match c {
        Control::Let(_) => true,
        Control::If(i) => if_wf(i),
        Control::For { body, .. } => nodes_wf(body@),
        Control::While { body, .. } => nodes_wf(body@),
        Control::Match { arms, .. } => arms_wf(arms@),
    }
}

/// Well-formedness of an `@if`.
pub open spec fn if_wf(i: If) -> bool
    decreases i,
{
    nodes_wf(i.then_block@) && match i.else_branch {
        None => true,
        Some(b) => match *b {
            ControlIfOrBlock::If(j) => if_wf(j),
            ControlIfOrBlock::Block(ns) => nodes_wf(ns@),
        },
    }
}

/// Well-formedness of match arms.
pub open spec fn arms_wf(arms: Seq<MatchNodeArm>) -> bool
    decreases arms,
{
    if arms.len() == 0 {
        true
    } else {
        arms_wf(arms.drop_last()) && match arms.last().body {
            MatchNodeArmBody::Block(ns) => nodes_wf(ns@),
            MatchNodeArmBody::Node(n) => node_wf(*n),
        }
    }
}

/// What generating a node produces, in value context `ctx` for a generator
/// of context `g`.
pub open spec fn node_gen(n: ElementNode, ctx: Context, g: Context) -> Gen
    decreases n, 0int,
{
    match n {
        ElementNode::Doctype => gen_parts(
            text_part("<"@) + text_part("!"@) + text_part("DOCTYPE"@) + text_part(" "@)
                + text_part("html"@) + text_part(">"@),
        ),
        ElementNode::Element(e) => element_gen(e, g),
        ElementNode::Component(c) => component_gen(c, g),
        ElementNode::Literal(l) => gen_parts(text_part(escape_in(ctx, l.text()))),
        ElementNode::Control(c) => control_gen(c, ctx, g),
        ElementNode::Expr(e) => gen_parts(
            seq![PartV::Dynamic(StmtV::Render { expr: e, context: ctx, buffer: g })],
        ),
        ElementNode::Group(ns) => nodes_gen(ns@, ctx, g),
        ElementNode::Name(name) => gen_parts(name_parts(name)),
    }
}

/// What generating nodes one after the other produces.
pub open spec fn all_gen(ns: Seq<ElementNode>, ctx: Context, g: Context) -> Gen
    decreases ns, 0int,
{
    if ns.len() == 0 {
        gen_empty()
    } else {
        gen_join(all_gen(ns.drop_last(), ctx, g), node_gen(ns.last(), ctx, g))
    }
}

/// What generating a list of nodes produces: in a block of its own when it
/// holds control flow (so that `@let` bindings stay local).
pub open spec fn nodes_gen(ns: Seq<ElementNode>, ctx: Context, g: Context) -> Gen
    decreases ns, 1int,
{
    if has_control(ns) {
        let inner = all_gen(ns, ctx, g);
        Gen {
            parts: seq![PartV::Dynamic(StmtV::Block(block_of(inner)))],
            checks: inner.checks,
        }
    } else {
        all_gen(ns, ctx, g)
    }
}

/// What generating a body's children produces, with the closing tag.
pub open spec fn body_gen(b: ElementBody, name: UnquotedName, g: Context) -> Gen
    decreases b, 0int,
{
    match b {
        ElementBody::Normal { children, closing_name } => {
            let closing = match closing_name {
                Some(c) => c,
                None => name,
            };
            gen_join(
                nodes_gen(children@, Context::Node, g),
                gen_parts(text_part("</"@) + name_parts(closing) + text_part(">"@)),
            )
        },
        ElementBody::Void => gen_empty(),
    }
}

/// The kind of an element by its body.
pub open spec fn body_kind(b: ElementBody) -> ElementKind {
    match b {
        ElementBody::Normal { .. } => ElementKind::Normal,
        ElementBody::Void => ElementKind::Void,
    }
}

/// The attribute checks of attributes, in order (`data-` ones have none).
pub open spec fn attr_checks(attrs: Seq<Attribute>) -> Seq<(crate::generate::AttributeCheckKind, Seq<char>)>
    decreases attrs.len(),
{
    if attrs.len() == 0 {
        Seq::empty()
    } else {
        attr_checks(attrs.drop_last()) + match attrs.last().name.spec_check() {
            Some(c) => seq![c],
            None => Seq::empty(),
        }
    }
}

/// What generating an element produces: its opening tag with attributes,
/// its children and closing tag, then its check.
pub open spec fn element_gen(e: Element, g: Context) -> Gen
    decreases e, 0int,
{
    let opening = gen_join(
        gen_parts(text_part("<"@) + name_parts(e.name)),
        attrs_gen(e.attrs@, g),
    );
    let body = body_gen(e.body, e.name, g);
    let all = gen_join(gen_join(opening, gen_parts(text_part(">"@))), body);
    Gen {
        parts: all.parts,
        checks: all.checks.push(
            ElementCheckV {
                ident: e.name.spec_ident_string(),
                kind: body_kind(e.body),
                attributes: attr_checks(e.attrs@),
            },
        ),
    }
}

/// What generating attributes produces.
pub open spec fn attrs_gen(attrs: Seq<Attribute>, g: Context) -> Gen
    decreases attrs, 0int,
{
    if attrs.len() == 0 {
        gen_empty()
    } else {
        gen_join(attrs_gen(attrs.drop_last(), g), attr_gen(attrs.last(), g))
    }
}

/// ` name="` of an attribute.
pub open spec fn attr_open(name: AttributeName) -> Seq<PartV> {
    text_part(" "@) + attr_name_parts(name) + text_part("=\""@)
}

/// What generating an attribute produces.
pub open spec fn attr_gen(a: Attribute, g: Context) -> Gen
    decreases a, 0int,
{
    match a.kind {
        AttributeKind::Value { value, toggle } => {
            let v = node_gen(value, Context::AttributeValue, g);
            let inner = gen_join(gen_join(gen_parts(attr_open(a.name)), v), gen_parts(text_part("\""@)));
            match toggle {
                Some(t) => Gen { parts: seq![toggle_if(t.expr, block_of(inner))], checks: inner.checks },
                None => inner,
            }
        },
        AttributeKind::Empty(Some(t)) => gen_parts(
            seq![toggle_if(t.expr, merge_parts(text_part(" "@) + attr_name_parts(a.name)))],
        ),
        AttributeKind::Empty(None) => gen_parts(text_part(" "@) + attr_name_parts(a.name)),
        AttributeKind::Option(t) => gen_parts(
            seq![
                PartV::Dynamic(
                    StmtV::IfSome {
                        option: t.expr,
                        then_block: merge_parts(
                            attr_open(a.name) + seq![
                                PartV::Dynamic(
                                    StmtV::RenderValue { context: Context::AttributeValue, buffer: g },
                                ),
                            ] + text_part("\""@),
                        ),
                    },
                ),
            ],
        ),
        AttributeKind::ClassList(cs) => gen_join(
            gen_join(gen_parts(attr_open(a.name)), classes_gen(cs@, g)),
            gen_parts(text_part("\""@)),
        ),
    }
}

/// What generating classes produces: separated by spaces, each toggled one
/// in a conditional of its own.
pub open spec fn classes_gen(cs: Seq<Class>, g: Context) -> Gen
    decreases cs, 0int,
{
    if cs.len() == 0 {
        gen_empty()
    } else {
        let c = cs.last();
        let sep = if cs.len() > 1 { gen_parts(text_part(" "@)) } else { gen_empty() };
        let inner = gen_join(sep, node_gen(c.value, Context::AttributeValue, g));
        let this = match c.toggle {
            Some(t) => Gen { parts: seq![toggle_if(t.expr, block_of(inner))], checks: inner.checks },
            None => inner,
        };
        gen_join(classes_gen(cs.drop_last(), g), this)
    }
}

/// What generating control flow produces.
pub open spec fn control_gen(c: Control, ctx: Context, g: Context) -> Gen
    decreases c, 0int,
{
    match c {
        Control::Let(t) => gen_parts(seq![PartV::Dynamic(StmtV::Code(t))]),
        Control::If(i) => {
            let (s, checks) = if_gen(i, ctx, g);
            Gen { parts: seq![PartV::Dynamic(s)], checks }
        },
        Control::For { pat, expr, body } => {
            let inner = all_gen(body@, ctx, g);
            Gen {
                parts: seq![PartV::Dynamic(StmtV::For { pat, expr, body: block_of(inner) })],
                checks: inner.checks,
            }
        },
        Control::While { cond, body } => {
            let inner = all_gen(body@, ctx, g);
            Gen {
                parts: seq![PartV::Dynamic(StmtV::While { cond, body: block_of(inner) })],
                checks: inner.checks,
            }
        },
        Control::Match { expr, arms } => {
            let (a, checks) = arms_gen(arms@, ctx, g);
            Gen { parts: seq![PartV::Dynamic(StmtV::Match { expr, arms: a })], checks }
        },
    }
}

/// The statement an `@if` becomes, and the checks of its branches.
pub open spec fn if_gen(i: If, ctx: Context, g: Context) -> (StmtV, Seq<ElementCheckV>)
    decreases i, 0int,
{
    let then_inner = all_gen(i.then_block@, ctx, g);
    let (else_branch, else_checks) = match i.else_branch {
        None => (None, Seq::empty()),
        Some(b) => match *b {
            ControlIfOrBlock::If(j) => {
                let (s, c) = if_gen(j, ctx, g);
                (Some(Box::new(s)), c)
            },
            ControlIfOrBlock::Block(ns) => {
                let inner = all_gen(ns@, ctx, g);
                (Some(Box::new(StmtV::Block(block_of(inner)))), inner.checks)
            },
        },
    };
    (
        StmtV::If { cond: i.cond, paren: false, then_block: block_of(then_inner), else_branch },
        then_inner.checks + else_checks,
    )
}

/// The arms a `@match` becomes, and the checks of their bodies.
pub open spec fn arms_gen(arms: Seq<MatchNodeArm>, ctx: Context, g: Context) -> (
    Seq<MatchArmV>,
    Seq<ElementCheckV>,
)
    decreases arms, 0int,
{
    if arms.len() == 0 {
        (Seq::empty(), Seq::empty())
    } else {
        let (prev, prev_checks) = arms_gen(arms.drop_last(), ctx, g);
        let a = arms.last();
        let inner = match a.body {
            MatchNodeArmBody::Block(ns) => all_gen(ns@, ctx, g),
            MatchNodeArmBody::Node(n) => node_gen(*n, ctx, g),
        };
        (prev.push(MatchArmV { pat: a.pat, body: block_of(inner) }), prev_checks + inner.checks)
    }
}

/// What generating a component produces: the rendering of the value built
/// from its fields, its children becoming a lazily rendered field.
pub open spec fn component_gen(c: Component, g: Context) -> Gen
    decreases c, 0int,
{
    let (children, checks) = match c.body {
        ElementBody::Normal { children, .. } => {
            let inner = nodes_gen(children@, Context::Node, g);
            (Some(block_of(inner)), inner.checks)
        },
        ElementBody::Void => (None, Seq::empty()),
    };
    Gen {
        parts: seq![
            PartV::Dynamic(
                StmtV::Component {
                    name: c.name@,
                    fields: c.attrs@.map_values(|a: ComponentAttribute| (a.name@, a.value)),
                    children,
                    default: c.dotdot,
                    buffer: g,
                },
            ),
        ],
        checks,
    }
}

/// `after` is `before` with `out` generated.
pub open spec fn extended(before: Generator, after: Generator, out: Gen) -> bool {
    &&& after.parts_v() == before.parts_v() + out.parts
    &&& after.checks_v() == before.checks_v() + out.checks
    &&& after.lazy == before.lazy
    &&& after.context == before.context
}

/// Generating nothing, then `a`, then `b`, is generating their join.
pub proof fn lemma_extended_trans(g0: Generator, g1: Generator, g2: Generator, a: Gen, b: Gen)
    requires
        extended(g0, g1, a),
        extended(g1, g2, b),
    ensures
        extended(g0, g2, gen_join(a, b)),
{
    assert(g2.parts_v() =~= g0.parts_v() + (a.parts + b.parts));
    assert(g2.checks_v() =~= g0.checks_v() + (a.checks + b.checks));
}

/// Every node of well-formed nodes is well-formed.
pub proof fn lemma_nodes_wf(ns: Seq<ElementNode>)
    requires
        nodes_wf(ns),
    ensures
        forall|i: int| 0 <= i < ns.len() ==> node_wf(#[trigger] ns[i]),
    decreases ns.len(),
{
    if ns.len() > 0 {
        lemma_nodes_wf(ns.drop_last());
        assert forall|i: int| 0 <= i < ns.len() implies node_wf(#[trigger] ns[i]) by {
            if i < ns.len() - 1 {
                assert(ns.drop_last()[i] == ns[i]);
            }
        }
    }
}

/// Every attribute of well-formed attributes is well-formed.
pub proof fn lemma_attrs_wf(attrs: Seq<Attribute>)
    requires
        attrs_wf(attrs),
    ensures
        forall|i: int| 0 <= i < attrs.len() ==> attr_wf(#[trigger] attrs[i]),
    decreases attrs.len(),
{
    if attrs.len() > 0 {
        lemma_attrs_wf(attrs.drop_last());
        assert forall|i: int| 0 <= i < attrs.len() implies attr_wf(#[trigger] attrs[i]) by {
            if i < attrs.len() - 1 {
                assert(attrs.drop_last()[i] == attrs[i]);
            }
        }
    }
}

/// Every class of well-formed classes has a well-formed value.
pub proof fn lemma_classes_wf(cs: Seq<Class>)
    requires
        classes_wf(cs),
    ensures
        forall|i: int| 0 <= i < cs.len() ==> node_wf(#[trigger] cs[i].value),
    decreases cs.len(),
{
    if cs.len() > 0 {
        lemma_classes_wf(cs.drop_last());
        assert forall|i: int| 0 <= i < cs.len() implies node_wf(#[trigger] cs[i].value) by {
            if i < cs.len() - 1 {
                assert(cs.drop_last()[i] == cs[i]);
            }
        }
    }
}

/// Every arm of well-formed arms has a well-formed body.
pub proof fn lemma_arms_wf(arms: Seq<MatchNodeArm>)
    requires
        arms_wf(arms),
    ensures
        forall|i: int| 0 <= i < arms.len() ==> match (#[trigger] arms[i]).body {
            MatchNodeArmBody::Block(ns) => nodes_wf(ns@),
            MatchNodeArmBody::Node(n) => node_wf(*n),
        },
    decreases arms.len(),
{
    if arms.len() > 0 {
        lemma_arms_wf(arms.drop_last());
        assert forall|i: int| 0 <= i < arms.len() implies match (#[trigger] arms[i]).body {
            MatchNodeArmBody::Block(ns) => nodes_wf(ns@),
            MatchNodeArmBody::Node(n) => node_wf(*n),
        } by {
            if i < arms.len() - 1 {
                assert(arms.drop_last()[i] == arms[i]);
            }
        }
    }
}

/// Appends the fragments of a name as static text.
pub fn push_name(g: &mut Generator, name: &UnquotedName)
    ensures
        extended(*old(g), *final(g), gen_parts(name_parts(*name))),
{
    let lits = name.lits();
    g.push_lits(lits);
    assert(lits@.map_values(|l: String| PartV::Static(l@)) =~= name_parts(*name));
    assert(g.checks_v() =~= old(g).checks_v() + Seq::empty());
}

/// Appends the text of an attribute name as static text.
pub fn push_attribute_name(g: &mut Generator, name: &AttributeName)
    ensures
        extended(*old(g), *final(g), gen_parts(attr_name_parts(*name))),
{
    match name {
        AttributeName::Data { rest } => {
            g.push_str("data");
            g.push_str("-");
            push_name(g, rest);
            assert(g.parts_v() =~= old(g).parts_v() + attr_name_parts(*name));
        },
        AttributeName::Namespace { namespace, rest } => {
            push_name(g, namespace);
            g.push_str(":");
            push_name(g, rest);
            assert(g.parts_v() =~= old(g).parts_v() + attr_name_parts(*name));
        },
        AttributeName::Symbol { symbol, rest } => {
            let lit = symbol.lit();
            g.push_part(crate::generate::Part::Static(lit));
            push_name(g, rest);
            assert(g.parts_v() =~= old(g).parts_v() + attr_name_parts(*name));
        },
        AttributeName::Normal(n) => {
            push_name(g, n);
        },
        AttributeName::Quoted(s) => {
            g.push_part(crate::generate::Part::Static(s.clone()));
            assert(g.parts_v() =~= old(g).parts_v() + attr_name_parts(*name));
        },
    }
    assert(g.checks_v() =~= old(g).checks_v() + Seq::empty());
}

impl ElementNode {
    /// Generates this node in value context `ctx`.
    pub fn generate(self, ctx: Context, g: &mut Generator)
        requires
            node_wf(self),
        ensures
            extended(*old(g), *final(g), node_gen(self, ctx, old(g).context)),
        decreases self, 0int,
    {
        let ghost me = self;
        match self {
            ElementNode::Doctype => {
                g.push_str("<");
                g.push_str("!");
                g.push_str("DOCTYPE");
                g.push_str(" ");
                g.push_str("html");
                g.push_str(">");
                assert(g.parts_v() =~= old(g).parts_v() + node_gen(me, ctx, old(g).context).parts);
                assert(g.checks_v() =~= old(g).checks_v() + Seq::empty());
            },
            ElementNode::Element(e) => e.generate(g),
            ElementNode::Component(c) => c.generate(g),
            ElementNode::Literal(l) => {
                let text = l.lit_str();
                g.push_escaped_lit(ctx, text.as_str());
                assert(g.parts_v() =~= old(g).parts_v() + node_gen(me, ctx, old(g).context).parts);
                assert(g.checks_v() =~= old(g).checks_v() + Seq::empty());
            },
            ElementNode::Control(c) => c.generate(ctx, g),
            ElementNode::Expr(e) => {
                g.push_expr(ctx, e);
                assert(g.parts_v() =~= old(g).parts_v() + node_gen(me, ctx, old(g).context).parts);
                assert(g.checks_v() =~= old(g).checks_v() + Seq::empty());
            },
            ElementNode::Group(ns) => generate_nodes(ns, ctx, g),
            ElementNode::Name(name) => push_name(g, &name),
        }
    }
}

/// Generates nodes one after the other.
#[verifier::loop_isolation(false)]
pub fn generate_all(nodes: Vec<ElementNode>, ctx: Context, g: &mut Generator)
    requires
        nodes_wf(nodes@),
    ensures
        extended(*old(g), *final(g), all_gen(nodes@, ctx, old(g).context)),
    decreases nodes@, 0int,
{
    let ghost all = nodes@;
    let ghost gc = old(g).context;
    proof {
        lemma_nodes_wf(all);
        assert(all.take(0) =~= Seq::<ElementNode>::empty());
        assert(g.parts_v() =~= old(g).parts_v() + gen_empty().parts);
        assert(g.checks_v() =~= old(g).checks_v() + gen_empty().checks);
    }
    let mut nodes = nodes;
    let ghost k: int = 0;
    while nodes.len() > 0
        invariant
            0 <= k <= all.len(),
            nodes@ == all.skip(k),
            forall|i: int| 0 <= i < all.len() ==> node_wf(#[trigger] all[i]),
            gc == old(g).context,
            extended(*old(g), *g, all_gen(all.take(k), ctx, gc)),
        decreases nodes.len(),
    {
        let ghost before = *g;
        let n = nodes.remove(0);
        proof {
            assert(n == all[k]);
            assert(nodes@ =~= all.skip(k + 1));
            assert(decreases_to!(all => all[k]));
        }
        n.generate(ctx, g);
        proof {
            assert(all.take(k + 1).drop_last() =~= all.take(k));
            assert(all.take(k + 1).last() == all[k]);
            lemma_extended_trans(*old(g), before, *g, all_gen(all.take(k), ctx, gc), node_gen(all[k], ctx, gc));
            k = k + 1;
        }
    }
    assert(all.take(k) =~= all);
}

/// Generates a list of nodes; when it holds control flow, in a block of its
/// own.
pub fn generate_nodes(nodes: Vec<ElementNode>, ctx: Context, g: &mut Generator)
    requires
        nodes_wf(nodes@),
    ensures
        extended(*old(g), *final(g), nodes_gen(nodes@, ctx, old(g).context)),
    decreases nodes@, 1int,
{
    let n = nodes.len();
    let mut control = false;
    let mut i: usize = 0;
    while i < n
        invariant
            n == nodes@.len(),
            i <= n,
            control == exists|j: int| 0 <= j < i && (#[trigger] nodes@[j]) is Control,
        decreases n - i,
    {
        if let ElementNode::Control(_) = &nodes[i] {
            control = true;
        }
        i += 1;
    }
    if control {
        let ghost all = nodes@;
        let mut sub = g.sub_block();
        let ghost sub0 = sub;
        generate_all(nodes, ctx, &mut sub);
        let stmts = g.end_block(sub);
        g.push_stmt(Stmt::Block(stmts));
        proof {
            assert(sub.parts_v() =~= all_gen(all, ctx, old(g).context).parts);
            assert(sub.checks_v() =~= all_gen(all, ctx, old(g).context).checks);
            assert(g.parts_v() =~= old(g).parts_v() + nodes_gen(all, ctx, old(g).context).parts);
        }
    } else {
        generate_all(nodes, ctx, g);
    }
}

impl Element {
    /// Generates this element: opening tag, attributes, children, closing
    /// tag, and its check.
    #[verifier::loop_isolation(false)]
    pub fn generate(self, g: &mut Generator)
        requires
            node_wf(ElementNode::Element(self)),
        ensures
            extended(*old(g), *final(g), element_gen(self, old(g).context)),
        decreases self, 0int,
    {
        let ghost me = self;
        let ghost gc = old(g).context;
        let Element { name, attrs, body } = self;
        let kind = match &body {
            ElementBody::Normal { .. } => ElementKind::Normal,
            ElementBody::Void => ElementKind::Void,
        };
        let mut check = ElementCheck::new(name.ident_string(), kind);
        g.push_str("<");
        push_name(g, &name);
        let ghost g1 = *g;
        proof {
            assert(extended(*old(g), g1, gen_parts(text_part("<"@) + name_parts(name)))) by {
                assert(g1.parts_v() =~= old(g).parts_v() + (text_part("<"@) + name_parts(name)));
                assert(g1.checks_v() =~= old(g).checks_v() + Seq::empty());
            }
        }
        // attributes
        let ghost all = attrs@;
        proof {
            lemma_attrs_wf(all);
            assert(all.take(0) =~= Seq::<Attribute>::empty());
            assert(g.parts_v() =~= g1.parts_v() + gen_empty().parts);
            assert(g.checks_v() =~= g1.checks_v() + gen_empty().checks);
            assert(check@.attributes =~= attr_checks(all.take(0)));
        }
        let mut attrs = attrs;
        let ghost k: int = 0;
        while attrs.len() > 0
            invariant
                0 <= k <= all.len(),
                attrs@ == all.skip(k),
                forall|i: int| 0 <= i < all.len() ==> attr_wf(#[trigger] all[i]),
                gc == g1.context,
                extended(g1, *g, attrs_gen(all.take(k), gc)),
                check@.attributes == attr_checks(all.take(k)),
                check@.ident == name.spec_ident_string(),
                check@.kind == kind,
            decreases attrs.len(),
        {
            let ghost before = *g;
            let a = attrs.remove(0);
            proof {
                assert(a == all[k]);
                assert(attrs@ =~= all.skip(k + 1));
                assert(all.take(k + 1).drop_last() =~= all.take(k));
                assert(all.take(k + 1).last() == all[k]);
            }
            proof {
                assert(decreases_to!(me => me.attrs));
                assert(decreases_to!(me.attrs => me.attrs@));
                assert(decreases_to!(me.attrs@ => me.attrs@[k]));
            }
            let c = a.name.check();
            a.generate(g);
            if let Some(c) = c {
                check.push_attribute(c);
            }
            proof {
                lemma_extended_trans(g1, before, *g, attrs_gen(all.take(k), gc), attr_gen(all[k], gc));
                k = k + 1;
            }
        }
        proof {
            assert(all.take(k) =~= all);
            lemma_extended_trans(*old(g), g1, *g, gen_parts(text_part("<"@) + name_parts(name)), attrs_gen(all, gc));
        }
        let ghost g2 = *g;
        g.push_str(">");
        proof {
            assert(extended(g2, *g, gen_parts(text_part(">"@)))) by {
                assert(g.parts_v() =~= g2.parts_v() + text_part(">"@));
                assert(g.checks_v() =~= g2.checks_v() + Seq::empty());
            }
            lemma_extended_trans(*old(g), g2, *g, gen_join(gen_parts(text_part("<"@) + name_parts(name)), attrs_gen(all, gc)), gen_parts(text_part(">"@)));
        }
        let ghost g3 = *g;
        match body {
            ElementBody::Normal { children, closing_name } => {
                generate_nodes(children, Context::Node, g);
                g.push_str("</");
                match &closing_name {
                    Some(c) => push_name(g, c),
                    None => push_name(g, &name),
                }
                g.push_str(">");
                proof {
                    let closing = match closing_name { Some(c) => c, None => name };
                    let ng = nodes_gen(children@, Context::Node, gc);
                    assert(g.parts_v() =~= g3.parts_v() + body_gen(me.body, name, gc).parts);
                    assert(g.checks_v() =~= g3.checks_v() + body_gen(me.body, name, gc).checks);
                }
            },
            ElementBody::Void => {
                proof {
                    assert(g.parts_v() =~= g3.parts_v() + body_gen(me.body, name, gc).parts);
                    assert(g.checks_v() =~= g3.checks_v() + body_gen(me.body, name, gc).checks);
                }
            },
        }
        proof {
            lemma_extended_trans(*old(g), g3, *g,
                gen_join(gen_join(gen_parts(text_part("<"@) + name_parts(name)), attrs_gen(all, gc)), gen_parts(text_part(">"@))),
                body_gen(me.body, name, gc));
        }
        let ghost g4 = *g;
        g.record_element(check);
        proof {
            assert(g.parts_v() =~= old(g).parts_v() + element_gen(me, gc).parts);
            assert(g.checks_v() =~= old(g).checks_v() + element_gen(me, gc).checks);
        }
    }
}

impl Attribute {
    /// Generates this attribute.
    pub fn generate(self, g: &mut Generator)
        requires
            attr_wf(self),
        ensures
            extended(*old(g), *final(g), attr_gen(self, old(g).context)),
        decreases self, 0int,
    {
        let ghost me = self;
        let ghost gc = old(g).context;
        let Attribute { name, kind } = self;
        match kind {
            AttributeKind::Value { value, toggle } => {
                match toggle {
                    Some(t) => {
                        let mut sub = g.sub_block();
                        let ghost s0 = sub;
                        sub.push_str(" ");
                        push_attribute_name(&mut sub, &name);
                        sub.push_str("=\"");
                        value.generate(Context::AttributeValue, &mut sub);
                        sub.push_str("\"");
                        let stmts = g.end_block(sub);
                        g.push_stmt(Stmt::If { cond: t.expr, paren: true, then_block: stmts, else_branch: None });
                        proof {
                            let v = node_gen(value, Context::AttributeValue, gc);
                            let inner = gen_join(gen_join(gen_parts(attr_open(name)), v), gen_parts(text_part("\""@)));
                            assert(sub.parts_v() =~= inner.parts);
                            assert(sub.checks_v() =~= inner.checks);
                            assert(g.parts_v() =~= old(g).parts_v() + attr_gen(me, gc).parts);
                            assert(g.checks_v() =~= old(g).checks_v() + attr_gen(me, gc).checks);
                        }
                    },
                    None => {
                        g.push_str(" ");
                        push_attribute_name(g, &name);
                        g.push_str("=\"");
                        let ghost g1 = *g;
                        value.generate(Context::AttributeValue, g);
                        let ghost g2 = *g;
                        g.push_str("\"");
                        proof {
                            assert(g.parts_v() =~= old(g).parts_v() + attr_gen(me, gc).parts);
                            assert(g.checks_v() =~= old(g).checks_v() + attr_gen(me, gc).checks);
                        }
                    },
                }
            },
            AttributeKind::Empty(Some(t)) => {
                let mut sub = g.sub_block();
                sub.push_str(" ");
                push_attribute_name(&mut sub, &name);
                let stmts = g.end_block(sub);
                g.push_stmt(Stmt::If { cond: t.expr, paren: true, then_block: stmts, else_branch: None });
                proof {
                    assert(sub.parts_v() =~= text_part(" "@) + attr_name_parts(name));
                    assert(g.parts_v() =~= old(g).parts_v() + attr_gen(me, gc).parts);
                    assert(g.checks_v() =~= old(g).checks_v() + attr_gen(me, gc).checks);
                }
            },
            AttributeKind::Empty(None) => {
                g.push_str(" ");
                push_attribute_name(g, &name);
                proof {
                    assert(g.parts_v() =~= old(g).parts_v() + attr_gen(me, gc).parts);
                    assert(g.checks_v() =~= old(g).checks_v() + attr_gen(me, gc).checks);
                }
            },
            AttributeKind::Option(t) => {
                let mut sub = g.sub_block();
                sub.push_str(" ");
                push_attribute_name(&mut sub, &name);
                sub.push_str("=\"");
                let buffer = sub.context;
                sub.push_stmt(Stmt::RenderValue { context: Context::AttributeValue, buffer });
                sub.push_str("\"");
                let stmts = g.end_block(sub);
                g.push_stmt(Stmt::IfSome { option: t.expr, then_block: stmts });
                proof {
                    assert(sub.parts_v() =~= attr_open(name) + seq![
                        PartV::Dynamic(StmtV::RenderValue { context: Context::AttributeValue, buffer: gc }),
                    ] + text_part("\""@));
                    assert(g.parts_v() =~= old(g).parts_v() + attr_gen(me, gc).parts);
                    assert(g.checks_v() =~= old(g).checks_v() + attr_gen(me, gc).checks);
                }
            },
            AttributeKind::ClassList(classes) => {
                g.push_str(" ");
                push_attribute_name(g, &name);
                g.push_str("=\"");
                let ghost g1 = *g;
                generate_classes(classes, g);
                let ghost g2 = *g;
                g.push_str("\"");
                proof {
                    assert(g.parts_v() =~= old(g).parts_v() + attr_gen(me, gc).parts);
                    assert(g.checks_v() =~= old(g).checks_v() + attr_gen(me, gc).checks);
                }
            },
        }
    }
}

/// Generates the classes of a class list.
#[verifier::loop_isolation(false)]
pub fn generate_classes(classes: Vec<Class>, g: &mut Generator)
    requires
        classes_wf(classes@),
    ensures
        extended(*old(g), *final(g), classes_gen(classes@, old(g).context)),
    decreases classes@, 0int,
{
    let ghost all = classes@;
    let ghost gc = old(g).context;
    proof {
        lemma_classes_wf(all);
        assert(all.take(0) =~= Seq::<Class>::empty());
        assert(g.parts_v() =~= old(g).parts_v() + gen_empty().parts);
        assert(g.checks_v() =~= old(g).checks_v() + gen_empty().checks);
    }
    let mut classes = classes;
    let mut first = true;
    let ghost k: int = 0;
    while classes.len() > 0
        invariant
            0 <= k <= all.len(),
            classes@ == all.skip(k),
            first == (k == 0),
            forall|i: int| 0 <= i < all.len() ==> node_wf(#[trigger] all[i].value),
            gc == old(g).context,
            extended(*old(g), *g, classes_gen(all.take(k), gc)),
        decreases classes.len(),
    {
        let ghost before = *g;
        let c = classes.remove(0);
        proof {
            assert(c == all[k]);
            assert(classes@ =~= all.skip(k + 1));
            assert(all.take(k + 1).drop_last() =~= all.take(k));
            assert(all.take(k + 1).last() == all[k]);
            assert(decreases_to!(all => all[k]));
        }
        let ghost cc = c;
        proof {
            assert(decreases_to!(all => all[k]));
            assert(decreases_to!(all[k] => all[k].value));
        }
        let Class { value, toggle } = c;
        let ghost sep = if k > 0 { gen_parts(text_part(" "@)) } else { gen_empty() };
        let ghost inner = gen_join(sep, node_gen(value, Context::AttributeValue, gc));
        let ghost this = match cc.toggle {
            Some(t) => Gen { parts: seq![toggle_if(t.expr, block_of(inner))], checks: inner.checks },
            None => inner,
        };
        match toggle {
            Some(t) => {
                let mut sub = g.sub_block();
                if !first {
                    sub.push_str(" ");
                }
                value.generate(Context::AttributeValue, &mut sub);
                let stmts = g.end_block(sub);
                g.push_stmt(Stmt::If { cond: t.expr, paren: true, then_block: stmts, else_branch: None });
                proof {
                    assert(sub.parts_v() =~= inner.parts);
                    assert(sub.checks_v() =~= inner.checks);
                    assert(g.parts_v() =~= before.parts_v() + seq![toggle_if(t.expr, block_of(inner))]);
                    assert(g.checks_v() =~= before.checks_v() + inner.checks);
                }
            },
            None => {
                let ghost b1 = *g;
                if !first {
                    g.push_str(" ");
                }
                proof {
                    assert(g.parts_v() =~= b1.parts_v() + sep.parts);
                    assert(g.checks_v() =~= b1.checks_v() + sep.checks);
                }
                let ghost b2 = *g;
                value.generate(Context::AttributeValue, g);
                proof {
                    lemma_extended_trans(before, b2, *g, sep, node_gen(value, Context::AttributeValue, gc));
                }
            },
        }
        first = false;
        proof {
            assert(extended(before, *g, this));
            lemma_extended_trans(*old(g), before, *g, classes_gen(all.take(k), gc), this);
            k = k + 1;
        }
    }
    assert(all.take(k) =~= all);
}

/// Generates nodes in a block of their own: the block's statements.
pub fn generate_block(nodes: Vec<ElementNode>, ctx: Context, g: &mut Generator) -> (r: Vec<Statement>)
    requires
        nodes_wf(nodes@),
    ensures
        statements_view(r@) == block_of(all_gen(nodes@, ctx, old(g).context)),
        extended(*old(g), *final(g), Gen { parts: Seq::empty(), checks: all_gen(nodes@, ctx, old(g).context).checks }),
    decreases nodes@, 1int,
{
    let ghost all = nodes@;
    let mut sub = g.sub_block();
    generate_all(nodes, ctx, &mut sub);
    let stmts = g.end_block(sub);
    proof {
        assert(sub.parts_v() =~= all_gen(all, ctx, old(g).context).parts);
        assert(sub.checks_v() =~= all_gen(all, ctx, old(g).context).checks);
        assert(g.parts_v() =~= old(g).parts_v() + Seq::empty());
    }
    stmts
}

impl If {
    /// The statement this `@if` becomes; the checks of its branches are
    /// recorded.
    pub fn to_stmt(self, ctx: Context, g: &mut Generator) -> (r: Stmt)
        requires
            if_wf(self),
        ensures
            crate::generate::stmt_view(r) == if_gen(self, ctx, old(g).context).0,
            extended(*old(g), *final(g), Gen { parts: Seq::empty(), checks: if_gen(self, ctx, old(g).context).1 }),
        decreases self, 0int,
    {
        let ghost me = self;
        let ghost gc = old(g).context;
        let If { cond, then_block, else_branch } = self;
        let then_stmts = generate_block(then_block, ctx, g);
        let ghost g1 = *g;
        let ghost else_v: (Option<Box<StmtV>>, Seq<ElementCheckV>) = match me.else_branch {
            None => (None, Seq::empty()),
            Some(b) => match *b {
                ControlIfOrBlock::If(j) => {
                    let (s, c) = if_gen(j, ctx, gc);
                    (Some(Box::new(s)), c)
                },
                ControlIfOrBlock::Block(ns) => {
                    let inner = all_gen(ns@, ctx, gc);
                    (Some(Box::new(StmtV::Block(block_of(inner)))), inner.checks)
                },
            },
        };
        let else_stmt: Option<Box<Stmt>> = match else_branch {
            None => None,
            Some(b) => {
                match *b {
                    ControlIfOrBlock::If(j) => {
                        let s = j.to_stmt(ctx, g);
                        Some(Box::new(s))
                    },
                    ControlIfOrBlock::Block(ns) => {
                        let stmts = generate_block(ns, ctx, g);
                        Some(Box::new(Stmt::Block(stmts)))
                    },
                }
            },
        };
        proof {
            let ev = match else_stmt {
                Some(ref b) => Some(Box::new(crate::generate::stmt_view(**b))),
                None => None,
            };
            assert(ev == else_v.0);
            assert(g.checks_v() =~= g1.checks_v() + else_v.1);
        }
        let r = Stmt::If { cond, paren: false, then_block: then_stmts, else_branch: else_stmt };
        proof {
            assert(g.parts_v() =~= old(g).parts_v() + Seq::empty());
            assert(g.checks_v() =~= old(g).checks_v() + if_gen(me, ctx, gc).1);
        }
        r
    }
}

impl Control {
    /// Generates this control-flow node.
    pub fn generate(self, ctx: Context, g: &mut Generator)
        requires
            control_wf(self),
        ensures
            extended(*old(g), *final(g), control_gen(self, ctx, old(g).context)),
        decreases self, 0int,
    {
        let ghost me = self;
        let ghost gc = old(g).context;
        match self {
            Control::Let(t) => {
                g.push_stmt(Stmt::Code(t));
                assert(g.parts_v() =~= old(g).parts_v() + control_gen(me, ctx, gc).parts);
                assert(g.checks_v() =~= old(g).checks_v() + Seq::empty());
            },
            Control::If(i) => {
                let s = i.to_stmt(ctx, g);
                let ghost g1 = *g;
                g.push_stmt(s);
                assert(g.parts_v() =~= old(g).parts_v() + control_gen(me, ctx, gc).parts);
                assert(g.checks_v() =~= old(g).checks_v() + control_gen(me, ctx, gc).checks);
            },
            Control::For { pat, expr, body } => {
                let stmts = generate_block(body, ctx, g);
                g.push_stmt(Stmt::For { pat, expr, body: stmts });
                assert(g.parts_v() =~= old(g).parts_v() + control_gen(me, ctx, gc).parts);
                assert(g.checks_v() =~= old(g).checks_v() + control_gen(me, ctx, gc).checks);
            },
            Control::While { cond, body } => {
                let stmts = generate_block(body, ctx, g);
                g.push_stmt(Stmt::While { cond, body: stmts });
                assert(g.parts_v() =~= old(g).parts_v() + control_gen(me, ctx, gc).parts);
                assert(g.checks_v() =~= old(g).checks_v() + control_gen(me, ctx, gc).checks);
            },
            Control::Match { expr, arms } => {
                let out = generate_arms(arms, ctx, g);
                g.push_stmt(Stmt::Match { expr, arms: out });
                assert(g.parts_v() =~= old(g).parts_v() + control_gen(me, ctx, gc).parts);
                assert(g.checks_v() =~= old(g).checks_v() + control_gen(me, ctx, gc).checks);
            },
        }
    }
}

/// Generates the arms of a `@match`.
#[verifier::loop_isolation(false)]
pub fn generate_arms(arms: Vec<MatchNodeArm>, ctx: Context, g: &mut Generator) -> (r: Vec<MatchArm>)
    requires
        arms_wf(arms@),
    ensures
        crate::generate::arms_view(r@) == arms_gen(arms@, ctx, old(g).context).0,
        extended(*old(g), *final(g), Gen { parts: Seq::empty(), checks: arms_gen(arms@, ctx, old(g).context).1 }),
    decreases arms@, 0int,
{
    let ghost all = arms@;
    let ghost gc = old(g).context;
    proof {
        lemma_arms_wf(all);
        assert(all.take(0) =~= Seq::<MatchNodeArm>::empty());
        assert(g.parts_v() =~= old(g).parts_v() + Seq::empty());
        assert(g.checks_v() =~= old(g).checks_v() + Seq::empty());
    }
    let mut arms = arms;
    let mut out: Vec<MatchArm> = Vec::new();
    let ghost k: int = 0;
    while arms.len() > 0
        invariant
            0 <= k <= all.len(),
            arms@ == all.skip(k),
            forall|i: int| 0 <= i < all.len() ==> match (#[trigger] all[i]).body {
                MatchNodeArmBody::Block(ns) => nodes_wf(ns@),
                MatchNodeArmBody::Node(n) => node_wf(*n),
            },
            gc == old(g).context,
            crate::generate::arms_view(out@) == arms_gen(all.take(k), ctx, gc).0,
            extended(*old(g), *g, Gen { parts: Seq::empty(), checks: arms_gen(all.take(k), ctx, gc).1 }),
        decreases arms.len(),
    {
        let ghost before = *g;
        let ghost out0 = out@;
        let a = arms.remove(0);
        proof {
            assert(a == all[k]);
            assert(arms@ =~= all.skip(k + 1));
            assert(all.take(k + 1).drop_last() =~= all.take(k));
            assert(all.take(k + 1).last() == all[k]);
            assert(decreases_to!(all => all[k]));
        }
        let ghost aa = a;
        proof {
            assert(decreases_to!(all => all[k]));
            assert(decreases_to!(all[k] => all[k].body));
            match all[k].body {
                MatchNodeArmBody::Block(ns) => {
                    assert(decreases_to!(all[k].body => ns));
                    assert(decreases_to!(ns => ns@));
                },
                MatchNodeArmBody::Node(n) => {
                    assert(decreases_to!(all[k].body => n));
                },
            }
        }
        let MatchNodeArm { pat, body } = a;
        let ghost inner = match aa.body {
            MatchNodeArmBody::Block(ns) => all_gen(ns@, ctx, gc),
            MatchNodeArmBody::Node(n) => node_gen(*n, ctx, gc),
        };
        let stmts = match body {
            MatchNodeArmBody::Block(ns) => {
                generate_block(ns, ctx, g)
            },
            MatchNodeArmBody::Node(n) => {
                let mut sub = g.sub_block();
                (*n).generate(ctx, &mut sub);
                let stmts = g.end_block(sub);
                proof {
                    assert(sub.parts_v() =~= inner.parts);
                    assert(sub.checks_v() =~= inner.checks);
                    assert(g.parts_v() =~= before.parts_v() + Seq::empty());
                }
                stmts
            },
        };
        out.push(MatchArm { pat, body: stmts });
        proof {
            assert(out@.drop_last() =~= out0);
            assert(g.parts_v() =~= old(g).parts_v() + Seq::empty());
            assert(g.checks_v() =~= old(g).checks_v() + arms_gen(all.take(k + 1), ctx, gc).1);
            k = k + 1;
        }
    }
    assert(all.take(k) =~= all);
    out
}

impl Component {
    /// Generates this component: the rendering of the value built from its
    /// fields and children.
    pub fn generate(self, g: &mut Generator)
        requires
            node_wf(ElementNode::Component(self)),
        ensures
            extended(*old(g), *final(g), component_gen(self, old(g).context)),
        decreases self, 0int,
    {
        let ghost me = self;
        let ghost gc = old(g).context;
        let Component { name, attrs, dotdot, body } = self;
        let ghost all = attrs@;
        let mut attrs = attrs;
        let mut fields: Vec<ComponentField> = Vec::new();
        let ghost k: int = 0;
        while attrs.len() > 0
            invariant
                0 <= k <= all.len(),
                attrs@ == all.skip(k),
                fields@.len() == k,
                fields@.map_values(|f: ComponentField| (f.name@, f.value)) == all.take(k).map_values(
                    |a: ComponentAttribute| (a.name@, a.value),
                ),
            decreases attrs.len(),
        {
            let ghost f0 = fields@;
            let a = attrs.remove(0);
            proof {
                assert(a == all[k]);
                assert(attrs@ =~= all.skip(k + 1));
            }
            let ghost aa = a;
            let ComponentAttribute { name: field_name, value } = a;
            fields.push(ComponentField { name: field_name, value });
            proof {
                assert(fields@[k].name@ == aa.name@);
                assert(fields@[k].value == aa.value);
            }
            proof {
                assert(fields@.map_values(|f: ComponentField| (f.name@, f.value)) =~= all.take(k + 1).map_values(
                    |a: ComponentAttribute| (a.name@, a.value),
                )) by {
                    assert(fields@ =~= f0.push(fields@.last()));
                    assert(all.take(k + 1) =~= all.take(k).push(all[k]));
                    let fm = f0.map_values(|f: ComponentField| (f.name@, f.value));
                    let am = all.take(k).map_values(|a: ComponentAttribute| (a.name@, a.value));
                    assert(fm == am);
                    let fm1 = fields@.map_values(|f: ComponentField| (f.name@, f.value));
                    let am1 = all.take(k + 1).map_values(|a: ComponentAttribute| (a.name@, a.value));
                    assert(fm1.len() == k + 1);
                    assert(am1.len() == k + 1);
                    assert forall|j: int| 0 <= j < k + 1 implies #[trigger] fm1[j] == am1[j] by {
                        if j < k {
                            assert(fm[j] == am[j]);
                            assert(fields@[j] == f0[j]);
                            assert(all.take(k + 1)[j] == all.take(k)[j]);
                        } else {
                            assert(all.take(k + 1)[j] == aa);
                        }
                    }
                }
                k = k + 1;
            }
        }
        assert(all.take(k) =~= all);
        let children = match body {
            ElementBody::Normal { children, .. } => {
                let ghost cs = children@;
                let mut sub = g.sub_block();
                generate_nodes(children, Context::Node, &mut sub);
                let stmts = g.end_block(sub);
                proof {
                    assert(sub.parts_v() =~= nodes_gen(cs, Context::Node, gc).parts);
                    assert(sub.checks_v() =~= nodes_gen(cs, Context::Node, gc).checks);
                }
                Some(stmts)
            },
            ElementBody::Void => None,
        };
        let buffer = g.context;
        g.push_stmt(Stmt::Component { name, fields, children, default: dotdot, buffer });
        proof {
            assert(g.parts_v() =~= old(g).parts_v() + component_gen(me, gc).parts);
            assert(g.checks_v() =~= old(g).checks_v() + component_gen(me, gc).checks);
        }
    }
}

} // verus!
