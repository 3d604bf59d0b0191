//! Turning a parsed template into static HTML text and dynamic statements.
use vstd::prelude::*;

use crate::escape::{encode_double_quoted_attribute, encode_text, escape_attr, escape_text};
use crate::text::string_from;
use crate::tokens::TokenTree;

verus! {

/// The context a template, or a part of it, is generated for.
#[derive(Debug, Clone, Copy, PartialEq, Eq)]
pub enum Context {
    /// Complete HTML nodes.
    Node,
    /// An attribute value inside double quotes.
    AttributeValue,
}

/// The kind of an element, checked against the element's definition.
#[derive(Debug, Clone, Copy, PartialEq, Eq)]
pub enum ElementKind {
    /// With closing tag and children.
    Normal,
    /// Without closing tag.
    Void,
}

/// What an attribute name is checked to be.
#[derive(Debug, Clone, Copy, PartialEq, Eq)]
pub enum AttributeCheckKind {
    /// A standard attribute.
    Normal,
    /// An attribute namespace.
    Namespace,
    /// An attribute prefixed by a symbol.
    Symbol,
}

/// A check that an element accepts an attribute.
#[derive(Debug)]
pub struct AttributeCheck {
    /// What the attribute must be.
    pub kind: AttributeCheckKind,
    /// The Rust identifier of the attribute.
    pub ident: String,
}

/// A check that an element exists with the given kind and accepts the given
/// attributes.
#[derive(Debug)]
pub struct ElementCheck {
    /// The Rust identifier of the element.
    pub ident: String,
    /// Whether it is used as a normal or a void element.
    pub kind: ElementKind,
    /// The attributes used on it, in order.
    pub attributes: Vec<AttributeCheck>,
}

/// The abstract value of an [`ElementCheck`].
pub ghost struct ElementCheckV {
    pub ident: Seq<char>,
    pub kind: ElementKind,
    pub attributes: Seq<(AttributeCheckKind, Seq<char>)>,
}

impl AttributeCheck {
    /// The abstract value of this check.
    pub open spec fn view_pair(&self) -> (AttributeCheckKind, Seq<char>) {
        (self.kind, self.ident@)
    }
}

impl ElementCheck {
    /// A check for an element and no attribute yet.
    pub fn new(ident: String, kind: ElementKind) -> (r: Self)
        ensures
            r@ == (ElementCheckV { ident: ident@, kind, attributes: Seq::empty() }),
    {
        let r = ElementCheck { ident, kind, attributes: Vec::new() };
        assert(r.attributes@.map_values(|a: AttributeCheck| a.view_pair()) =~= Seq::empty());
        r
    }

    /// Records an attribute used on the element.
    pub fn push_attribute(&mut self, attr: AttributeCheck)
        ensures
            final(self)@ == (ElementCheckV {
                attributes: old(self)@.attributes.push(attr.view_pair()),
                ..old(self)@
            }),
    {
        self.attributes.push(attr);
        assert(self.attributes@.map_values(|a: AttributeCheck| a.view_pair()) =~= old(
            self,
        ).attributes@.map_values(|a: AttributeCheck| a.view_pair()).push(attr.view_pair()));
    }
}

impl View for ElementCheck {
    type V = ElementCheckV;

    open spec fn view(&self) -> ElementCheckV {
        ElementCheckV {
            ident: self.ident@,
            kind: self.kind,
            attributes: self.attributes@.map_values(|a: AttributeCheck| a.view_pair()),
        }
    }
}

/// A field of a component, with the tokens of its value.
#[derive(Debug)]
pub struct ComponentField {
    /// The field's name.
    pub name: String,
    /// The expression it is set to.
    pub value: Vec<TokenTree>,
}

/// An arm of a generated `match`.
#[derive(Debug)]
pub struct MatchArm {
    /// The pattern, with its guard if any.
    pub pat: Vec<TokenTree>,
    /// What the arm renders.
    pub body: Vec<Statement>,
}

/// A dynamic statement of generated code.
#[derive(Debug)]
pub enum Stmt {
    /// Renders the value of an expression, in context `context`, to the
    /// buffer of context `buffer`.
    Render { expr: Vec<TokenTree>, context: Context, buffer: Context },
    /// Renders the value bound by the enclosing [`Stmt::IfSome`].
    RenderValue { context: Context, buffer: Context },
    /// Statement tokens copied as they are (`let` bindings).
    Code(Vec<TokenTree>),
    /// `if cond { then } else ...`; with `paren`, the condition is put in
    /// parentheses.
    If {
        cond: Vec<TokenTree>,
        paren: bool,
        then_block: Vec<Statement>,
        else_branch: Option<Box<Stmt>>,
    },
    /// `if let Some(value) = (option) { then }`
    IfSome { option: Vec<TokenTree>, then_block: Vec<Statement> },
    /// `for pat in expr { body }`
    For { pat: Vec<TokenTree>, expr: Vec<TokenTree>, body: Vec<Statement> },
    /// `while cond { body }`
    While { cond: Vec<TokenTree>, body: Vec<Statement> },
    /// `match expr { arms }`
    Match { expr: Vec<TokenTree>, arms: Vec<MatchArm> },
    /// A nested block.
    Block(Vec<Statement>),
    /// Renders a component built from its fields, its children as a lazy
    /// value, and, with `default`, the remaining fields by default.
    Component {
        name: String,
        fields: Vec<ComponentField>,
        children: Option<Vec<Statement>>,
        default: bool,
        buffer: Context,
    },
}

/// A statement of a finished block.
#[derive(Debug)]
pub enum Statement {
    /// Appends static HTML text.
    PushStr(String),
    /// A dynamic statement.
    Stmt(Stmt),
}

/// A piece of generated output before adjacent static text is merged.
#[derive(Debug)]
pub enum Part {
    /// Static HTML text.
    Static(String),
    /// A dynamic statement.
    Dynamic(Stmt),
}

/// The abstract value of a [`MatchArm`].
pub ghost struct MatchArmV {
    pub pat: Vec<TokenTree>,
    pub body: Seq<StatementV>,
}

/// The abstract value of a [`Stmt`]: texts as character sequences.
pub ghost enum StmtV {
    Render { expr: Vec<TokenTree>, context: Context, buffer: Context },
    RenderValue { context: Context, buffer: Context },
    Code(Vec<TokenTree>),
    If {
        cond: Vec<TokenTree>,
        paren: bool,
        then_block: Seq<StatementV>,
        else_branch: Option<Box<StmtV>>,
    },
    IfSome { option: Vec<TokenTree>, then_block: Seq<StatementV> },
    For { pat: Vec<TokenTree>, expr: Vec<TokenTree>, body: Seq<StatementV> },
    While { cond: Vec<TokenTree>, body: Seq<StatementV> },
    Match { expr: Vec<TokenTree>, arms: Seq<MatchArmV> },
    Block(Seq<StatementV>),
    Component {
        name: Seq<char>,
        fields: Seq<(Seq<char>, Vec<TokenTree>)>,
        children: Option<Seq<StatementV>>,
        default: bool,
        buffer: Context,
    },
}

/// The abstract value of a [`Statement`].
pub ghost enum StatementV {
    PushStr(Seq<char>),
    Stmt(StmtV),
}

/// The abstract value of a [`Part`].
pub ghost enum PartV {
    Static(Seq<char>),
    Dynamic(StmtV),
}

/// The abstract values of a sequence of statements.
pub open spec fn statements_view(s: Seq<Statement>) -> Seq<StatementV>
    decreases s,
{
    if s.len() == 0 {
        Seq::empty()
    } else {
        statements_view(s.drop_last()).push(statement_view(s.last()))
    }
}

/// A sequence of statements has as many abstract values as statements.
pub proof fn lemma_statements_view_len(s: Seq<Statement>)
    ensures
        statements_view(s).len() == s.len(),
    decreases s.len(),
{
    if s.len() > 0 {
        lemma_statements_view_len(s.drop_last());
    }
}

/// The abstract value of a statement.
pub open spec fn statement_view(s: Statement) -> StatementV
    decreases s,
{
    match s {
        Statement::PushStr(t) => StatementV::PushStr(t@),
        Statement::Stmt(st) => StatementV::Stmt(stmt_view(st)),
    }
}

/// The abstract values of match arms.
pub open spec fn arms_view(arms: Seq<MatchArm>) -> Seq<MatchArmV>
    decreases arms,
{
    if arms.len() == 0 {
        Seq::empty()
    } else {
        let a = arms.last();
        arms_view(arms.drop_last()).push(MatchArmV { pat: a.pat, body: statements_view(a.body@) })
    }
}

/// The abstract value of a dynamic statement.
pub open spec fn stmt_view(s: Stmt) -> StmtV
    decreases s,
{
    match s {
        Stmt::Render { expr, context, buffer } => StmtV::Render { expr, context, buffer },
        Stmt::RenderValue { context, buffer } => StmtV::RenderValue { context, buffer },
        Stmt::Code(t) => StmtV::Code(t),
        Stmt::If { cond, paren, then_block, else_branch } => StmtV::If {
            cond,
            paren,
            then_block: statements_view(then_block@),
            else_branch: match else_branch {
                Some(b) => Some(Box::new(stmt_view(*b))),
                None => None,
            },
        },
        Stmt::IfSome { option, then_block } => StmtV::IfSome {
            option,
            then_block: statements_view(then_block@),
        },
        Stmt::For { pat, expr, body } => StmtV::For { pat, expr, body: statements_view(body@) },
        Stmt::While { cond, body } => StmtV::While { cond, body: statements_view(body@) },
        Stmt::Match { expr, arms } => StmtV::Match { expr, arms: arms_view(arms@) },
        Stmt::Block(b) => StmtV::Block(statements_view(b@)),
        Stmt::Component { name, fields, children, default, buffer } => StmtV::Component {
            name: name@,
            fields: fields@.map_values(|f: ComponentField| (f.name@, f.value)),
            children: match children {
                Some(c) => Some(statements_view(c@)),
                None => None,
            },
            default,
            buffer,
        },
    }
}

/// The abstract value of a part.
pub open spec fn part_view(p: Part) -> PartV {
    match p {
        Part::Static(t) => PartV::Static(t@),
        Part::Dynamic(s) => PartV::Dynamic(stmt_view(s)),
    }
}

/// The abstract values of parts.
pub open spec fn parts_view(parts: Seq<Part>) -> Seq<PartV> {
    parts.map_values(|p: Part| part_view(p))
}

/// The statements of a sequence of parts, adjacent static texts merged into
/// a single push.
pub open spec fn merge_parts(parts: Seq<PartV>) -> Seq<StatementV>
    decreases parts.len(),
{
    if parts.len() == 0 {
        Seq::empty()
    } else {
        let prev = merge_parts(parts.drop_last());
        match parts.last() {
            PartV::Static(t) => if prev.len() > 0 && prev.last() is PushStr {
                prev.drop_last().push(StatementV::PushStr(prev.last()->PushStr_0 + t))
            } else {
                prev.push(StatementV::PushStr(t))
            },
            PartV::Dynamic(s) => prev.push(StatementV::Stmt(s)),
        }
    }
}

/// The concatenation of the texts of static parts.
pub open spec fn static_text(parts: Seq<PartV>) -> Seq<char>
    decreases parts.len(),
{
    if parts.len() == 0 {
        Seq::empty()
    } else {
        static_text(parts.drop_last()) + match parts.last() {
            PartV::Static(t) => t,
            PartV::Dynamic(_) => Seq::empty(),
        }
    }
}

/// The number of dynamic parts.
pub open spec fn dynamic_count(parts: Seq<PartV>) -> nat
    decreases parts.len(),
{
    if parts.len() == 0 {
        0
    } else {
        dynamic_count(parts.drop_last()) + if parts.last() is Dynamic { 1nat } else { 0nat }
    }
}

/// The dynamic statements of a sequence of parts, in order.
pub open spec fn dynamic_stmts(parts: Seq<PartV>) -> Seq<StmtV>
    decreases parts.len(),
{
    if parts.len() == 0 {
        Seq::empty()
    } else {
        dynamic_stmts(parts.drop_last()) + match parts.last() {
            PartV::Static(_) => Seq::empty(),
            PartV::Dynamic(d) => seq![d],
        }
    }
}

/// There is one dynamic statement for each dynamic part.
pub proof fn lemma_dynamic_stmts_len(parts: Seq<PartV>)
    ensures
        dynamic_stmts(parts).len() == dynamic_count(parts),
    decreases parts.len(),
{
    if parts.len() > 0 {
        lemma_dynamic_stmts_len(parts.drop_last());
    }
}

/// The escaping that static text gets in a context.
pub open spec fn escape_in(context: Context, s: Seq<char>) -> Seq<char> {
    match context {
        Context::Node => escape_text(s),
        Context::AttributeValue => escape_attr(s),
    }
}

/// Collects the parts and the checks of a template.
pub struct Generator {
    /// Whether the output is code run later (`true`) or a static string.
    pub lazy: bool,
    /// The context of the buffer the output renders to.
    pub context: Context,
    /// The parts generated so far.
    pub parts: Vec<Part>,
    /// The element checks recorded so far.
    pub checks: Vec<ElementCheck>,
}

/// The abstract values of element checks.
pub open spec fn checks_view(checks: Seq<ElementCheck>) -> Seq<ElementCheckV> {
    checks.map_values(|c: ElementCheck| c@)
}

impl Generator {
    /// The parts generated so far, abstractly.
    pub open spec fn parts_v(&self) -> Seq<PartV> {
        parts_view(self.parts@)
    }

    /// The checks recorded so far, abstractly.
    pub open spec fn checks_v(&self) -> Seq<ElementCheckV> {
        checks_view(self.checks@)
    }

    /// A generator for code that renders to a buffer of the given context.
    pub fn new_closure(context: Context) -> (r: Self)
        ensures
            r.lazy,
            r.context == context,
            r.parts_v() == Seq::<PartV>::empty(),
            r.checks_v() == Seq::<ElementCheckV>::empty(),
    {
        let r = Generator { lazy: true, context, parts: Vec::new(), checks: Vec::new() };
        assert(r.parts_v() =~= Seq::<PartV>::empty());
        assert(r.checks_v() =~= Seq::<ElementCheckV>::empty());
        r
    }

    /// A generator for a static string of the given context.
    pub fn new_static(context: Context) -> (r: Self)
        ensures
            !r.lazy,
            r.context == context,
            r.parts_v() == Seq::<PartV>::empty(),
            r.checks_v() == Seq::<ElementCheckV>::empty(),
    {
        let r = Generator { lazy: false, context, parts: Vec::new(), checks: Vec::new() };
        assert(r.parts_v() =~= Seq::<PartV>::empty());
        assert(r.checks_v() =~= Seq::<ElementCheckV>::empty());
        r
    }

    /// Appends a part.
    pub fn push_part(&mut self, part: Part)
        ensures
            final(self).parts_v() == old(self).parts_v().push(part_view(part)),
            final(self).checks_v() == old(self).checks_v(),
            final(self).lazy == old(self).lazy,
            final(self).context == old(self).context,
    {
        self.parts.push(part);
        assert(self.parts_v() =~= old(self).parts_v().push(part_view(part)));
    }

    /// Appends static text.
    pub fn push_str(&mut self, s: &str)
        ensures
            final(self).parts_v() == old(self).parts_v().push(PartV::Static(s@)),
            final(self).checks_v() == old(self).checks_v(),
            final(self).lazy == old(self).lazy,
            final(self).context == old(self).context,
    {
        self.push_part(Part::Static(string_from(s)));
    }

    /// Appends the value of a literal, escaped for the given context.
    pub fn push_escaped_lit(&mut self, context: Context, lit: &str)
        ensures
            final(self).parts_v() == old(self).parts_v().push(PartV::Static(escape_in(context, lit@))),
            final(self).checks_v() == old(self).checks_v(),
            final(self).lazy == old(self).lazy,
            final(self).context == old(self).context,
    {
        let escaped = match context {
            Context::Node => encode_text(lit),
            Context::AttributeValue => encode_double_quoted_attribute(lit),
        };
        self.push_part(Part::Static(escaped));
    }

    /// Appends each string as static text.
    pub fn push_lits(&mut self, lits: Vec<String>)
        ensures
            final(self).parts_v() == old(self).parts_v() + lits@.map_values(|l: String| PartV::Static(l@)),
            final(self).checks_v() == old(self).checks_v(),
            final(self).lazy == old(self).lazy,
            final(self).context == old(self).context,
    {
        let mut lits = lits;
        let ghost all = lits@;
        let ghost k: int = 0;
        while lits.len() > 0
            invariant
                0 <= k <= all.len(),
                lits@ == all.skip(k),
                self.parts_v() == old(self).parts_v() + all.take(k).map_values(|l: String| PartV::Static(l@)),
                self.checks_v() == old(self).checks_v(),
                self.lazy == old(self).lazy,
                self.context == old(self).context,
            decreases lits.len(),
        {
            let l = lits.remove(0);
            self.push_part(Part::Static(l));
            proof {
                assert(all.take(k + 1) =~= all.take(k).push(l));
                assert(all.take(k + 1).map_values(|l: String| PartV::Static(l@)) =~= all.take(k).map_values(
                    |l: String| PartV::Static(l@),
                ).push(PartV::Static(l@)));
                k = k + 1;
                assert(lits@ =~= all.skip(k));
            }
        }
        assert(all.take(k) =~= all);
    }

    /// Appends the rendering of an expression in the given context.
    pub fn push_expr(&mut self, context: Context, expr: Vec<TokenTree>)
        ensures
            final(self).parts_v() == old(self).parts_v().push(
                PartV::Dynamic(StmtV::Render { expr, context, buffer: old(self).context }),
            ),
            final(self).checks_v() == old(self).checks_v(),
            final(self).lazy == old(self).lazy,
            final(self).context == old(self).context,
    {
        let buffer = self.context;
        self.push_part(Part::Dynamic(Stmt::Render { expr, context, buffer }));
    }

    /// Appends a dynamic statement.
    pub fn push_stmt(&mut self, stmt: Stmt)
        ensures
            final(self).parts_v() == old(self).parts_v().push(PartV::Dynamic(stmt_view(stmt))),
            final(self).checks_v() == old(self).checks_v(),
            final(self).lazy == old(self).lazy,
            final(self).context == old(self).context,
    {
        self.push_part(Part::Dynamic(stmt));
    }

    /// Records the check of an element.
    pub fn record_element(&mut self, check: ElementCheck)
        ensures
            final(self).parts_v() == old(self).parts_v(),
            final(self).checks_v() == old(self).checks_v().push(check@),
            final(self).lazy == old(self).lazy,
            final(self).context == old(self).context,
    {
        self.checks.push(check);
        assert(self.checks_v() =~= old(self).checks_v().push(check@));
    }

    /// A fresh generator for a nested block, of the same context.
    pub fn sub_block(&self) -> (r: Self)
        ensures
            r.lazy,
            r.context == self.context,
            r.parts_v() == Seq::<PartV>::empty(),
            r.checks_v() == Seq::<ElementCheckV>::empty(),
    {
        Generator::new_closure(self.context)
    }

    /// Finishes a nested block: its checks join these, its parts become
    /// statements.
    pub fn end_block(&mut self, sub: Generator) -> (r: Vec<Statement>)
        ensures
            statements_view(r@) == merge_parts(sub.parts_v()),
            final(self).parts_v() == old(self).parts_v(),
            final(self).checks_v() == old(self).checks_v() + sub.checks_v(),
            final(self).lazy == old(self).lazy,
            final(self).context == old(self).context,
    {
        let mut sub = sub;
        let mut checks = Vec::new();
        core::mem::swap(&mut checks, &mut sub.checks);
        let ghost sub_checks = checks@;
        self.checks.append(&mut checks);
        assert(self.checks_v() =~= old(self).checks_v() + checks_view(sub_checks));
        merge(sub.parts)
    }

    /// Finishes the generator: its checks and its statements, adjacent static
    /// texts merged.
    pub fn finish(self) -> (r: (Vec<ElementCheck>, Vec<Statement>))
        ensures
            checks_view(r.0@) == self.checks_v(),
            statements_view(r.1@) == merge_parts(self.parts_v()),
    {
        let Generator { lazy, context, parts, checks } = self;
        (checks, merge(parts))
    }

    /// Finishes a static generator: the concatenated text of the static
    /// parts, and, when some parts are dynamic, which static text cannot
    /// hold, each dynamic statement, in order.
    pub fn finish_static(self) -> (r: Result<String, (String, Vec<Stmt>)>)
        ensures
            dynamic_count(self.parts_v()) == 0 ==> (r matches Ok(t) && t@ == static_text(self.parts_v())),
            dynamic_count(self.parts_v()) > 0 ==> (r matches Err((t, ds)) && t@ == static_text(
                self.parts_v(),
            ) && ds@.map_values(|d: Stmt| stmt_view(d)) == dynamic_stmts(self.parts_v())),
    {
        let mut parts = self.parts;
        let ghost all = parts_view(parts@);
        let ghost k: int = 0;
        let mut text = String::new();
        let mut dynamic: Vec<Stmt> = Vec::new();
        while parts.len() > 0
            invariant
                0 <= k <= all.len(),
                parts_view(parts@) == all.skip(k),
                text@ == static_text(all.take(k)),
                dynamic@.map_values(|d: Stmt| stmt_view(d)) == dynamic_stmts(all.take(k)),
            decreases parts.len(),
        {
            let ghost before = parts@;
            let ghost old_dyn = dynamic@;
            proof {
                assert(parts_view(before).len() == before.len());
                assert(all.skip(k).len() == all.len() - k);
            }
            let p = parts.remove(0);
            proof {
                assert(parts_view(before)[0] == part_view(p));
                assert(all.skip(k)[0] == all[k]);
                assert(parts@ =~= before.subrange(1, before.len() as int));
                assert forall|j: int| 0 <= j < parts_view(parts@).len() implies parts_view(parts@)[j]
                    == all.skip(k + 1)[j] by {
                    assert(parts_view(parts@)[j] == part_view(parts@[j]));
                    assert(parts@[j] == before[j + 1]);
                    assert(parts_view(before)[j + 1] == part_view(before[j + 1]));
                    assert(all.skip(k)[j + 1] == all[k + 1 + j]);
                }
                assert(parts_view(parts@) =~= all.skip(k + 1));
                assert(all.take(k + 1).drop_last() =~= all.take(k));
                assert(all.take(k + 1).last() == part_view(p));
            }
            match p {
                Part::Static(t) => {
                    text.append(t.as_str());
                },
                Part::Dynamic(d) => {
                    dynamic.push(d);
                    proof {
                        assert(dynamic@.map_values(|d: Stmt| stmt_view(d)) =~= old_dyn.map_values(
                            |d: Stmt| stmt_view(d),
                        ) + seq![stmt_view(d)]);
                    }
                },
            }
            proof {
                k = k + 1;
            }
        }
        assert(all.take(k) =~= all);
        proof {
            lemma_dynamic_stmts_len(all);
        }
        if dynamic.len() == 0 {
            Ok(text)
        } else {
            Err((text, dynamic))
        }
    }
}

/// Merges adjacent static parts into single pushes of their concatenation.
pub fn merge(parts: Vec<Part>) -> (r: Vec<Statement>)
    ensures
        statements_view(r@) == merge_parts(parts_view(parts@)),
{
    let mut parts = parts;
    let ghost all = parts_view(parts@);
    let ghost k: int = 0;
    let mut out: Vec<Statement> = Vec::new();
    while parts.len() > 0
        invariant
            0 <= k <= all.len(),
            parts_view(parts@) == all.skip(k),
            statements_view(out@) == merge_parts(all.take(k)),
        decreases parts.len(),
    {
        let ghost before = parts@;
        proof {
            assert(parts_view(before).len() == before.len());
            assert(all.skip(k).len() == all.len() - k);
        }
        let p = parts.remove(0);
        proof {
            assert(parts_view(before)[0] == part_view(p));
            assert(all.skip(k)[0] == all[k]);
            assert(all[k] == part_view(p));
            assert(parts@ =~= before.subrange(1, before.len() as int));
            assert forall|j: int| 0 <= j < parts_view(parts@).len() implies parts_view(parts@)[j]
                == all.skip(k + 1)[j] by {
                assert(parts_view(parts@)[j] == part_view(parts@[j]));
                assert(parts@[j] == before[j + 1]);
                assert(parts_view(before)[j + 1] == part_view(before[j + 1]));
                assert(all.skip(k)[j + 1] == all[k + 1 + j]);
            }
            assert(parts_view(parts@) =~= all.skip(k + 1));
            assert(all.take(k + 1).drop_last() =~= all.take(k));
        }
        let ghost old_out = out@;
        let ghost prev = merge_parts(all.take(k));
        proof {
            lemma_statements_view_len(old_out);
            assert(merge_parts(all.take(k + 1)) == match all.take(k + 1).last() {
                PartV::Static(t) => if prev.len() > 0 && prev.last() is PushStr {
                    prev.drop_last().push(StatementV::PushStr(prev.last()->PushStr_0 + t))
                } else {
                    prev.push(StatementV::PushStr(t))
                },
                PartV::Dynamic(s) => prev.push(StatementV::Stmt(s)),
            });
            assert(all.take(k + 1).last() == part_view(p));
        }
        match p {
            Part::Static(t) => {
                let n = out.len();
                let merged = if n > 0 {
                    match &out[n - 1] {
                        Statement::PushStr(_) => true,
                        _ => false,
                    }
                } else {
                    false
                };
                proof {
                    if n > 0 {
                        assert(old_out.drop_last().push(old_out.last()) =~= old_out);
                        assert(statements_view(old_out).last() == statement_view(old_out.last()));
                    }
                }
                if merged {
                    let last = out.pop().unwrap();
                    if let Statement::PushStr(mut prev_text) = last {
                        prev_text.append(t.as_str());
                        out.push(Statement::PushStr(prev_text));
                    }
                    proof {
                        assert(out@.drop_last() =~= old_out.drop_last());
                        assert(statements_view(old_out).drop_last() == statements_view(old_out.drop_last()));
                        assert(statements_view(out@) == statements_view(old_out.drop_last()).push(statement_view(out@.last())));
                        assert(statements_view(out@) == merge_parts(all.take(k + 1)));
                    }
                } else {
                    out.push(Statement::PushStr(t));
                    proof {
                        assert(prev == statements_view(old_out));
                        assert(prev.len() == old_out.len());
                        assert(!(prev.len() > 0 && prev.last() is PushStr));
                        assert(out@.drop_last() =~= old_out);
                        assert(statements_view(out@) == statements_view(out@.drop_last()).push(statement_view(out@.last())));
                        assert(statements_view(out@) == merge_parts(all.take(k + 1)));
                    }
                }
            },
            Part::Dynamic(s) => {
                out.push(Statement::Stmt(s));
                proof {
                    assert(out@.drop_last() =~= old_out);
                    assert(statements_view(out@) == statements_view(out@.drop_last()).push(statement_view(out@.last())));
                    assert(statements_view(out@) == merge_parts(all.take(k + 1)));
                }
            },
        }
        proof {
            k = k + 1;
        }
    }
    assert(all.take(k) =~= all);
    out
}


/// The concatenation of the texts that statements push.
pub open spec fn pushed_text(s: Seq<StatementV>) -> Seq<char>
    decreases s.len(),
{
    if s.len() == 0 {
        Seq::empty()
    } else {
        pushed_text(s.drop_last()) + match s.last() {
            StatementV::PushStr(t) => t,
            StatementV::Stmt(_) => Seq::empty(),
        }
    }
}

/// The dynamic statements of parts, in order.
pub open spec fn part_dynamics(parts: Seq<PartV>) -> Seq<StmtV>
    decreases parts.len(),
{
    if parts.len() == 0 {
        Seq::empty()
    } else {
        part_dynamics(parts.drop_last()) + match parts.last() {
            PartV::Static(_) => Seq::empty(),
            PartV::Dynamic(d) => seq![d],
        }
    }
}

/// The dynamic statements among statements, in order.
pub open spec fn statement_dynamics(s: Seq<StatementV>) -> Seq<StmtV>
    decreases s.len(),
{
    if s.len() == 0 {
        Seq::empty()
    } else {
        statement_dynamics(s.drop_last()) + match s.last() {
            StatementV::PushStr(_) => Seq::empty(),
            StatementV::Stmt(d) => seq![d],
        }
    }
}

/// No two pushes of static text follow each other.
pub open spec fn no_adjacent_pushes(s: Seq<StatementV>) -> bool {
    forall|i: int| 0 <= i < s.len() - 1 ==> !(#[trigger] s[i] is PushStr && s[i + 1] is PushStr)
}

/// Merging keeps the static text: what the merged statements push, in
/// order, is the concatenation of the static parts.
pub proof fn lemma_merge_keeps_text(parts: Seq<PartV>)
    ensures
        pushed_text(merge_parts(parts)) == static_text(parts),
    decreases parts.len(),
{
    if parts.len() > 0 {
        let q = parts.drop_last();
        lemma_merge_keeps_text(q);
        let prev = merge_parts(q);
        match parts.last() {
            PartV::Static(t) => {
                if prev.len() > 0 && prev.last() is PushStr {
                    let u = prev.last()->PushStr_0;
                    let merged = prev.drop_last().push(StatementV::PushStr(u + t));
                    assert(merged.drop_last() =~= prev.drop_last());
                    assert(pushed_text(prev) == pushed_text(prev.drop_last()) + u);
                    assert(pushed_text(merged) =~= pushed_text(prev.drop_last()) + (u + t));
                    assert(pushed_text(merged) =~= pushed_text(prev) + t);
                } else {
                    let merged = prev.push(StatementV::PushStr(t));
                    assert(merged.drop_last() =~= prev);
                }
            },
            PartV::Dynamic(d) => {
                let merged = prev.push(StatementV::Stmt(d));
                assert(merged.drop_last() =~= prev);
                assert(pushed_text(merged) =~= pushed_text(prev));
                assert(static_text(parts) =~= static_text(q));
            },
        }
    }
}

/// Merging keeps the dynamic statements, in order.
pub proof fn lemma_merge_keeps_dynamics(parts: Seq<PartV>)
    ensures
        statement_dynamics(merge_parts(parts)) == part_dynamics(parts),
    decreases parts.len(),
{
    if parts.len() > 0 {
        let q = parts.drop_last();
        lemma_merge_keeps_dynamics(q);
        let prev = merge_parts(q);
        match parts.last() {
            PartV::Static(t) => {
                if prev.len() > 0 && prev.last() is PushStr {
                    let u = prev.last()->PushStr_0;
                    let merged = prev.drop_last().push(StatementV::PushStr(u + t));
                    assert(merged.drop_last() =~= prev.drop_last());
                    assert(statement_dynamics(prev) =~= statement_dynamics(prev.drop_last()));
                    assert(statement_dynamics(merged) =~= statement_dynamics(prev.drop_last()));
                } else {
                    let merged = prev.push(StatementV::PushStr(t));
                    assert(merged.drop_last() =~= prev);
                    assert(statement_dynamics(merged) =~= statement_dynamics(prev));
                }
                assert(part_dynamics(parts) =~= part_dynamics(q));
            },
            PartV::Dynamic(d) => {
                let merged = prev.push(StatementV::Stmt(d));
                assert(merged.drop_last() =~= prev);
            },
        }
    }
}

/// Merging leaves no two pushes of static text next to each other.
pub proof fn lemma_merge_no_adjacent_pushes(parts: Seq<PartV>)
    ensures
        no_adjacent_pushes(merge_parts(parts)),
    decreases parts.len(),
{
    if parts.len() > 0 {
        let q = parts.drop_last();
        lemma_merge_no_adjacent_pushes(q);
        let prev = merge_parts(q);
        let merged = merge_parts(parts);
        match parts.last() {
            PartV::Static(t) => {
                if prev.len() > 0 && prev.last() is PushStr {
                    assert forall|i: int| 0 <= i < merged.len() - 1 implies !(#[trigger] merged[i] is PushStr
                        && merged[i + 1] is PushStr) by {
                        assert(merged[i] == prev[i]);
                        if i + 1 < merged.len() - 1 {
                            assert(merged[i + 1] == prev[i + 1]);
                        } else {
                            assert(!(prev[i] is PushStr && prev[i + 1] is PushStr));
                        }
                    }
                } else {
                    assert forall|i: int| 0 <= i < merged.len() - 1 implies !(#[trigger] merged[i] is PushStr
                        && merged[i + 1] is PushStr) by {
                        assert(merged[i] == prev[i]);
                        if i + 1 < merged.len() - 1 {
                            assert(merged[i + 1] == prev[i + 1]);
                        }
                    }
                }
            },
            PartV::Dynamic(d) => {
                assert forall|i: int| 0 <= i < merged.len() - 1 implies !(#[trigger] merged[i] is PushStr
                    && merged[i + 1] is PushStr) by {
                    assert(merged[i] == prev[i]);
                    if i + 1 < merged.len() - 1 {
                        assert(merged[i + 1] == prev[i + 1]);
                    }
                }
            },
        }
    }
}

/// Parts that are all static text, at least one, merge into a single push
/// of their concatenation: the code of a template without dynamic content
/// pushes exactly the text its static form is.
pub proof fn lemma_merge_all_static(parts: Seq<PartV>)
    requires
        parts.len() > 0,
        dynamic_count(parts) == 0,
    ensures
        merge_parts(parts) == seq![StatementV::PushStr(static_text(parts))],
    decreases parts.len(),
{
    let q = parts.drop_last();
    match parts.last() {
        PartV::Static(t) => {
            if q.len() == 0 {
                assert(merge_parts(q) =~= Seq::<StatementV>::empty());
                assert(static_text(q) =~= Seq::<char>::empty());
                assert(static_text(parts) == static_text(q) + t);
                assert(static_text(parts) =~= t);
                assert(merge_parts(parts) =~= seq![StatementV::PushStr(t)]);
            } else {
                lemma_merge_all_static(q);
                assert(merge_parts(parts) =~= seq![StatementV::PushStr(static_text(q) + t)]);
            }
        },
        PartV::Dynamic(_) => {},
    }
}

} // verus!
