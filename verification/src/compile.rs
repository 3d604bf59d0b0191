//! Compiling a template: reading it from its tokens, then generating the
//! code that renders it, or its static text.
use vstd::prelude::*;

use crate::checks::{lemma_nodes_checks, nodes_elements};
use crate::generate::{
    checks_view, dynamic_count, dynamic_stmts, lemma_dynamic_stmts_len, lemma_merge_all_static,
    merge_parts, static_text, statements_view, stmt_view, Context, ElementCheck, Generator,
    Statement, StatementV, Stmt,
};
use crate::node::{generate_nodes, nodes_gen, nodes_wf, Document, Gen};
use crate::parse::grammar::{nodes_view, s_document, Mode};
use crate::parse::reader::read_nodes;
use crate::parse::tokens_read::ParseError;
use crate::tokens::TokenTree;

verus! {

/// The Maud syntax: `div #id .class { "text" }`.
#[derive(Debug, Clone, Copy, PartialEq, Eq)]
pub struct Maud;

impl Maud {
    /// The mode whole templates of this syntax are read in.
    pub fn mode() -> (r: Mode)
        ensures
            r == Mode::Maud,
    {
        Mode::Maud
    }
}

/// The rsx syntax: `<div id="id" class="class">text</div>`.
#[derive(Debug, Clone, Copy, PartialEq, Eq)]
pub struct Rsx;

impl Rsx {
    /// The mode whole templates of this syntax are read in.
    pub fn mode() -> (r: Mode)
        ensures
            r == Mode::Rsx,
    {
        Mode::Rsx
    }
}

/// Reads a whole template in mode `m`.
pub fn parse(tokens: Vec<TokenTree>, m: Mode) -> (r: Result<Document, ParseError>)
    ensures
        match s_document(tokens@, m) {
            Some(v) => r matches Ok(d) && nodes_view(d.nodes@) == v && nodes_wf(d.nodes@),
            None => r is Err,
        },
{
    let mut toks = tokens;
    let nodes = read_nodes(&mut toks, m)?;
    Ok(Document { nodes })
}

/// What a template generates for a buffer of context `c`.
pub open spec fn document_gen(d: Document, c: Context) -> Gen {
    nodes_gen(d.nodes@, c, c)
}

/// The code that renders a template into a buffer of context `c`: the
/// element checks, and the statements, adjacent static texts merged.
pub fn lazy(doc: Document, c: Context) -> (r: (Vec<ElementCheck>, Vec<Statement>))
    requires
        nodes_wf(doc.nodes@),
    ensures
        checks_view(r.0@) == document_gen(doc, c).checks,
        statements_view(r.1@) == merge_parts(document_gen(doc, c).parts),
{
    let ghost d = doc;
    let mut g = Generator::new_closure(c);
    generate_nodes(doc.nodes, c, &mut g);
    assert(g.parts_v() =~= document_gen(d, c).parts);
    assert(g.checks_v() =~= document_gen(d, c).checks);
    g.finish()
}

/// The static text of a template of context `c`, with its element checks;
/// when it has dynamic parts, which static text cannot hold, the text of its
/// static parts and each dynamic part, in order.
pub fn literal(doc: Document, c: Context) -> (r: Result<
    (Vec<ElementCheck>, String),
    (String, Vec<Stmt>),
>)
    requires
        nodes_wf(doc.nodes@),
    ensures
        dynamic_count(document_gen(doc, c).parts) == 0 ==> (r matches Ok((checks, text)) && text@
            == static_text(document_gen(doc, c).parts) && checks_view(checks@) == document_gen(
            doc,
            c,
        ).checks),
        dynamic_count(document_gen(doc, c).parts) > 0 ==> (r matches Err((t, ds)) && t@
            == static_text(document_gen(doc, c).parts) && ds@.map_values(
            |d: Stmt| stmt_view(d),
        ) == dynamic_stmts(document_gen(doc, c).parts) && ds@.len() == dynamic_count(
            document_gen(doc, c).parts,
        )),
{
    let ghost d = doc;
    let mut g = Generator::new_static(c);
    generate_nodes(doc.nodes, c, &mut g);
    assert(g.parts_v() =~= document_gen(d, c).parts);
    assert(g.checks_v() =~= document_gen(d, c).checks);
    let mut checks: Vec<ElementCheck> = Vec::new();
    core::mem::swap(&mut checks, &mut g.checks);
    match g.finish_static() {
        Ok(text) => Ok((checks, text)),
        Err((t, ds)) => {
            proof {
                lemma_dynamic_stmts_len(document_gen(d, c).parts);
                assert(ds@.map_values(|x: Stmt| stmt_view(x)).len() == ds@.len());
            }
            Err((t, ds))
        },
    }
}

/// Reads a template and generates the code that renders it.
pub fn compile(tokens: Vec<TokenTree>, m: Mode, c: Context) -> (r: Result<
    (Vec<ElementCheck>, Vec<Statement>),
    ParseError,
>)
    ensures
        match s_document(tokens@, m) {
            Some(v) => r matches Ok((checks, stmts)) && exists|d: Document|
                #![trigger document_gen(d, c)]
                nodes_view(d.nodes@) == v && checks_view(checks@) == document_gen(d, c).checks
                    && statements_view(stmts@) == merge_parts(document_gen(d, c).parts),
            None => r is Err,
        },
{
    let doc = parse(tokens, m)?;
    let ghost d = doc;
    let r = lazy(doc, c);
    assert(nodes_view(d.nodes@) == s_document(tokens@, m)->0);
    Ok(r)
}

/// Code generated for a template without dynamic content pushes exactly
/// the template's static text, in one push: the lazily rendered form and the
/// static form of such a template agree.
pub proof fn lemma_lazy_agrees_with_literal(doc: Document, c: Context)
    requires
        nodes_wf(doc.nodes@),
        dynamic_count(document_gen(doc, c).parts) == 0,
        document_gen(doc, c).parts.len() > 0,
    ensures
        merge_parts(document_gen(doc, c).parts) == seq![
            StatementV::PushStr(static_text(document_gen(doc, c).parts)),
        ],
{
    lemma_merge_all_static(document_gen(doc, c).parts);
}

/// Type checking covers the whole template: its code comes with exactly one
/// element check for each element the template holds.
pub proof fn lemma_every_element_checked(doc: Document, c: Context)
    ensures
        document_gen(doc, c).checks.len() == nodes_elements(doc.nodes@),
{
    lemma_nodes_checks(doc.nodes@, c, c);
}

} // verus!
