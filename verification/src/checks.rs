//! Type checking covers a whole template: the code generated for it comes
//! with one element check for each element it holds, wherever the element
//! stands (in content, attribute values, control flow or component
//! children).
use vstd::prelude::*;

use crate::generate::Context;
use crate::node::{
    all_gen, arms_gen, attr_gen, attrs_gen, body_gen, classes_gen, control_gen, element_gen,
    if_gen, node_gen, nodes_gen, Attribute,
    AttributeKind, Class, Control, ControlIfOrBlock, ElementBody, ElementNode, If, MatchNodeArm,
    MatchNodeArmBody,
};

verus! {

/// The number of elements in a node.
pub open spec fn node_elements(n: ElementNode) -> nat
    decreases n, 0int,
{
    match n {
        ElementNode::Element(e) => attrs_elements(e.attrs@) + body_elements(e.body) + 1,
        ElementNode::Component(c) => body_elements(c.body),
        ElementNode::Control(c) => control_elements(c),
        ElementNode::Group(ns) => nodes_elements(ns@),
        _ => 0,
    }
}

/// The number of elements in nodes.
pub open spec fn nodes_elements(ns: Seq<ElementNode>) -> nat
    decreases ns, 0int,
{
    if ns.len() == 0 {
        0
    } else {
        nodes_elements(ns.drop_last()) + node_elements(ns.last())
    }
}

/// The number of elements in a body.
pub open spec fn body_elements(b: ElementBody) -> nat
    decreases b, 0int,
{
    match b {
        ElementBody::Normal { children, .. } => nodes_elements(children@),
        ElementBody::Void => 0,
    }
}

/// The number of elements in the values of attributes.
pub open spec fn attrs_elements(attrs: Seq<Attribute>) -> nat
    decreases attrs, 0int,
{
    if attrs.len() == 0 {
        0
    } else {
        attrs_elements(attrs.drop_last()) + attr_elements(attrs.last())
    }
}

/// The number of elements in the value of an attribute.
pub open spec fn attr_elements(a: Attribute) -> nat
    decreases a, 0int,
{
    match a.kind {
        AttributeKind::Value { value, .. } => node_elements(value),
        AttributeKind::ClassList(cs) => classes_elements(cs@),
        _ => 0,
    }
}

/// The number of elements in the values of classes.
pub open spec fn classes_elements(cs: Seq<Class>) -> nat
    decreases cs, 0int,
{
    if cs.len() == 0 {
        0
    } else {
        classes_elements(cs.drop_last()) + node_elements(cs.last().value)
    }
}

/// The number of elements in control flow.
pub open spec fn control_elements(c: Control) -> nat
    decreases c, 0int,
{
    match c {
        Control::Let(_) => 0,
        Control::If(i) => if_elements(i),
        Control::For { body, .. } => nodes_elements(body@),
        Control::While { body, .. } => nodes_elements(body@),
        Control::Match { arms, .. } => arms_elements(arms@),
    }
}

/// The number of elements in the branches of an `@if`.
pub open spec fn if_elements(i: If) -> nat
    decreases i, 0int,
{
    nodes_elements(i.then_block@) + match i.else_branch {
        None => 0,
        Some(b) => match *b {
            ControlIfOrBlock::If(j) => if_elements(j),
            ControlIfOrBlock::Block(ns) => nodes_elements(ns@),
        },
    }
}

/// The number of elements in match arms.
pub open spec fn arms_elements(arms: Seq<MatchNodeArm>) -> nat
    decreases arms, 0int,
{
    if arms.len() == 0 {
        0
    } else {
        arms_elements(arms.drop_last()) + match arms.last().body {
            MatchNodeArmBody::Block(ns) => nodes_elements(ns@),
            MatchNodeArmBody::Node(n) => node_elements(*n),
        }
    }
}

/// A node's code has one check per element in it.
pub proof fn lemma_node_checks(n: ElementNode, ctx: Context, g: Context)
    ensures
        node_gen(n, ctx, g).checks.len() == node_elements(n),
    decreases n, 1int,
{
    match n {
        ElementNode::Element(e) => lemma_element_checks(e, g),
        ElementNode::Component(c) => match c.body {
            ElementBody::Normal { children, .. } => lemma_nodes_checks(children@, Context::Node, g),
            ElementBody::Void => {},
        },
        ElementNode::Control(c) => lemma_control_checks(c, ctx, g),
        ElementNode::Group(ns) => lemma_nodes_checks(ns@, ctx, g),
        _ => {},
    }
}

/// An element's code has its own check and those of its attributes'
/// values and its children.
pub proof fn lemma_element_checks(e: crate::node::Element, g: Context)
    ensures
        element_gen(e, g).checks.len() == attrs_elements(e.attrs@) + body_elements(e.body) + 1,
    decreases e, 0int,
{
    lemma_attrs_checks(e.attrs@, g);
    lemma_body_checks(e.body, e.name, g);
}

/// Nodes one after the other have the checks of each.
pub proof fn lemma_all_checks(ns: Seq<ElementNode>, ctx: Context, g: Context)
    ensures
        all_gen(ns, ctx, g).checks.len() == nodes_elements(ns),
    decreases ns, 1int,
{
    if ns.len() > 0 {
        lemma_all_checks(ns.drop_last(), ctx, g);
        lemma_node_checks(ns.last(), ctx, g);
    }
}

/// A list of nodes, in a block or not, has the checks of its nodes.
pub proof fn lemma_nodes_checks(ns: Seq<ElementNode>, ctx: Context, g: Context)
    ensures
        nodes_gen(ns, ctx, g).checks.len() == nodes_elements(ns),
    decreases ns, 2int,
{
    lemma_all_checks(ns, ctx, g);
}

/// A body has the checks of its children.
pub proof fn lemma_body_checks(b: ElementBody, name: crate::names::UnquotedName, g: Context)
    ensures
        body_gen(b, name, g).checks.len() == body_elements(b),
    decreases b, 1int,
{
    match b {
        ElementBody::Normal { children, .. } => lemma_nodes_checks(children@, Context::Node, g),
        ElementBody::Void => {},
    }
}

/// Attributes have the checks of their values.
pub proof fn lemma_attrs_checks(attrs: Seq<Attribute>, g: Context)
    ensures
        attrs_gen(attrs, g).checks.len() == attrs_elements(attrs),
    decreases attrs, 1int,
{
    if attrs.len() > 0 {
        lemma_attrs_checks(attrs.drop_last(), g);
        lemma_attr_checks(attrs.last(), g);
    }
}

/// An attribute has the checks of its value.
pub proof fn lemma_attr_checks(a: Attribute, g: Context)
    ensures
        attr_gen(a, g).checks.len() == attr_elements(a),
    decreases a, 1int,
{
    match a.kind {
        AttributeKind::Value { value, .. } => lemma_node_checks(value, Context::AttributeValue, g),
        AttributeKind::ClassList(cs) => lemma_classes_checks(cs@, g),
        _ => {},
    }
}

/// Classes have the checks of their values.
pub proof fn lemma_classes_checks(cs: Seq<Class>, g: Context)
    ensures
        classes_gen(cs, g).checks.len() == classes_elements(cs),
    decreases cs, 1int,
{
    if cs.len() > 0 {
        lemma_classes_checks(cs.drop_last(), g);
        lemma_node_checks(cs.last().value, Context::AttributeValue, g);
    }
}

/// Control flow has the checks of its bodies.
pub proof fn lemma_control_checks(c: Control, ctx: Context, g: Context)
    ensures
        control_gen(c, ctx, g).checks.len() == control_elements(c),
    decreases c, 1int,
{
    match c {
        Control::Let(_) => {},
        Control::If(i) => lemma_if_checks(i, ctx, g),
        Control::For { body, .. } => lemma_all_checks(body@, ctx, g),
        Control::While { body, .. } => lemma_all_checks(body@, ctx, g),
        Control::Match { arms, .. } => lemma_arms_checks(arms@, ctx, g),
    }
}

/// An `@if` has the checks of its branches.
pub proof fn lemma_if_checks(i: If, ctx: Context, g: Context)
    ensures
        if_gen(i, ctx, g).1.len() == if_elements(i),
    decreases i, 1int,
{
    lemma_all_checks(i.then_block@, ctx, g);
    match i.else_branch {
        None => {},
        Some(b) => match *b {
            ControlIfOrBlock::If(j) => lemma_if_checks(j, ctx, g),
            ControlIfOrBlock::Block(ns) => lemma_all_checks(ns@, ctx, g),
        },
    }
}

/// Match arms have the checks of their bodies.
pub proof fn lemma_arms_checks(arms: Seq<MatchNodeArm>, ctx: Context, g: Context)
    ensures
        arms_gen(arms, ctx, g).1.len() == arms_elements(arms),
    decreases arms, 1int,
{
    if arms.len() > 0 {
        lemma_arms_checks(arms.drop_last(), ctx, g);
        match arms.last().body {
            MatchNodeArmBody::Block(ns) => lemma_all_checks(ns@, ctx, g),
            MatchNodeArmBody::Node(n) => lemma_node_checks(*n, ctx, g),
        }
    }
}

} // verus!
