//! Deriving: which template attribute a type carries for `Renderable`, and
//! which fields get a setter from `Builder`.
use vstd::prelude::*;

use crate::compile::parse;
use crate::node::{nodes_wf, Document};
use crate::parse::grammar::{nodes_view, s_document, Mode};
use crate::parse::tokens_read::ParseError;
use crate::text::str_eq;
use crate::tokens::TokenTree;

verus! {

/// The template attributes: `maud`, `maud_cb`, `rsx`, `rsx_cb`; the `_cb`
/// ones build components with their builders.
#[derive(Debug, Clone, Copy, PartialEq, Eq)]
pub enum TemplateKind {
    /// `#[maud(...)]`
    Maud,
    /// `#[maud_cb(...)]`
    MaudBuilder,
    /// `#[rsx(...)]`
    Rsx,
    /// `#[rsx_cb(...)]`
    RsxBuilder,
}

/// An attribute of the deriving type: its name, and its tokens when it is
/// written as a list, `#[name(...)]`.
#[derive(Debug)]
pub struct DeriveAttr {
    /// The attribute's name.
    pub name: String,
    /// The tokens in its parentheses, when it has them.
    pub tokens: Option<Vec<TokenTree>>,
}

/// Why `Renderable` cannot be derived.
#[derive(Debug, Clone, Copy, PartialEq, Eq)]
pub enum DeriveError {
    /// Neither a template attribute nor an `attribute` attribute.
    Missing,
    /// Several template attributes; their number.
    MultipleTemplates(usize),
    /// Several `attribute` attributes; their number.
    MultipleAttributes(usize),
    /// The attribute is not written as a list.
    NotAList,
    /// Its tokens are not a template.
    Parse(ParseError),
}

/// The template attribute a name stands for.
pub open spec fn template_kind(name: Seq<char>) -> Option<TemplateKind> {
    if name == "maud"@ {
        Some(TemplateKind::Maud)
    } else if name == "maud_cb"@ {
        Some(TemplateKind::MaudBuilder)
    } else if name == "rsx"@ {
        Some(TemplateKind::Rsx)
    } else if name == "rsx_cb"@ {
        Some(TemplateKind::RsxBuilder)
    } else {
        None
    }
}

/// The syntax a template attribute is read in.
pub open spec fn kind_mode(k: TemplateKind) -> Mode {
    match k {
        TemplateKind::Maud | TemplateKind::MaudBuilder => Mode::Maud,
        TemplateKind::Rsx | TemplateKind::RsxBuilder => Mode::Rsx,
    }
}

/// A template attribute is read in the syntax its name says: `#[rsx]` and
/// `#[rsx_cb]` templates in rsx, `#[maud]` and `#[maud_cb]` ones in Maud, the
/// `_cb` forms instantiating components through builders; no other name is
/// a template attribute.
pub proof fn lemma_template_syntax(name: Seq<char>)
    ensures
        (name == "rsx"@ || name == "rsx_cb"@) ==> (template_kind(name) matches Some(k) && kind_mode(
            k,
        ) == Mode::Rsx),
        (name == "maud"@ || name == "maud_cb"@) ==> (template_kind(name) matches Some(k)
            && kind_mode(k) == Mode::Maud),
        name == "rsx_cb"@ ==> template_kind(name) == Some(TemplateKind::RsxBuilder),
        name == "maud_cb"@ ==> template_kind(name) == Some(TemplateKind::MaudBuilder),
        name == "rsx"@ ==> template_kind(name) == Some(TemplateKind::Rsx),
        name == "maud"@ ==> template_kind(name) == Some(TemplateKind::Maud),
        template_kind(name) is Some ==> (name == "rsx"@ || name == "rsx_cb"@ || name == "maud"@
            || name == "maud_cb"@),
{
    reveal_strlit("rsx");
    reveal_strlit("rsx_cb");
    reveal_strlit("maud");
    reveal_strlit("maud_cb");
    assert("rsx_cb"@ != "maud"@ && "rsx_cb"@ != "maud_cb"@ && "rsx_cb"@ != "rsx"@) by {
        assert("rsx_cb"@.len() == 6 && "maud"@.len() == 4 && "rsx"@.len() == 3);
        assert("rsx_cb"@[0] != "maud_cb"@[0]);
    }
    assert("rsx"@ != "maud"@ && "rsx"@ != "maud_cb"@) by {
        assert("rsx"@.len() == 3 && "maud"@.len() == 4 && "maud_cb"@.len() == 7);
    }
    assert("maud"@ != "maud_cb"@) by {
        assert("maud"@.len() == 4 && "maud_cb"@.len() == 7);
    }
}

/// Whether an attribute is a template attribute (`template`) or an
/// `attribute` attribute (not `template`).
pub open spec fn selects(a: DeriveAttr, template: bool) -> bool {
    if template {
        template_kind(a.name@) is Some
    } else {
        a.name@ == "attribute"@
    }
}

/// The attributes of one of the two sorts, in order.
pub open spec fn selected(attrs: Seq<DeriveAttr>, template: bool) -> Seq<DeriveAttr>
    decreases attrs.len(),
{
    if attrs.len() == 0 {
        Seq::empty()
    } else if selects(attrs.last(), template) {
        selected(attrs.drop_last(), template).push(attrs.last())
    } else {
        selected(attrs.drop_last(), template)
    }
}

/// What reading the tokens of an attribute in mode `m` gives: not a list,
/// a parse error, or a document.
pub open spec fn attr_document(a: DeriveAttr, m: Mode, r: Result<Document, DeriveError>) -> bool {
    match a.tokens {
        None => r matches Err(DeriveError::NotAList),
        Some(t) => match s_document(t@, m) {
            None => r matches Err(DeriveError::Parse(_)),
            Some(v) => r matches Ok(d) && nodes_view(d.nodes@) == v && nodes_wf(d.nodes@),
        },
    }
}

/// The outcome for the template attributes `sel`: none, several, or the
/// one read in its syntax.
pub open spec fn element_outcome(
    sel: Seq<DeriveAttr>,
    r: Result<Option<(TemplateKind, Document)>, DeriveError>,
) -> bool {
    if sel.len() == 0 {
        r matches Ok(None)
    } else if sel.len() > 1 {
        r matches Err(DeriveError::MultipleTemplates(n)) && n == sel.len()
    } else {
        let kind = template_kind(sel[0].name@)->Some_0;
        match sel[0].tokens {
            None => r matches Err(DeriveError::NotAList),
            Some(t) => match s_document(t@, kind_mode(kind)) {
                None => r matches Err(DeriveError::Parse(_)),
                Some(v) => r matches Ok(Some((k, d))) && k == kind && nodes_view(d.nodes@) == v
                    && nodes_wf(d.nodes@),
            },
        }
    }
}

/// The outcome for the `attribute` attributes `sel`: none, several, or the
/// one read as attribute value nodes.
pub open spec fn attribute_outcome(sel: Seq<DeriveAttr>, r: Result<Option<Document>, DeriveError>) -> bool {
    if sel.len() == 0 {
        r matches Ok(None)
    } else if sel.len() > 1 {
        r matches Err(DeriveError::MultipleAttributes(n)) && n == sel.len()
    } else {
        match sel[0].tokens {
            None => r matches Err(DeriveError::NotAList),
            Some(t) => match s_document(t@, Mode::Value) {
                None => r matches Err(DeriveError::Parse(_)),
                Some(v) => r matches Ok(Some(d)) && nodes_view(d.nodes@) == v && nodes_wf(d.nodes@),
            },
        }
    }
}

/// Which template attribute a name stands for.
fn template_kind_of(name: &String) -> (r: Option<TemplateKind>)
    ensures
        r == template_kind(name@),
{
    let s = name.as_str();
    if str_eq(s, "maud") {
        Some(TemplateKind::Maud)
    } else if str_eq(s, "maud_cb") {
        Some(TemplateKind::MaudBuilder)
    } else if str_eq(s, "rsx") {
        Some(TemplateKind::Rsx)
    } else if str_eq(s, "rsx_cb") {
        Some(TemplateKind::RsxBuilder)
    } else {
        None
    }
}

/// Splits attributes into the template ones and the `attribute` ones,
/// dropping the others.
#[verifier::loop_isolation(false)]
pub fn split_attrs(attrs: Vec<DeriveAttr>) -> (r: (Vec<DeriveAttr>, Vec<DeriveAttr>))
    ensures
        r.0@ == selected(attrs@, true),
        r.1@ == selected(attrs@, false),
{
    let ghost all = attrs@;
    let mut attrs = attrs;
    let mut templates: Vec<DeriveAttr> = Vec::new();
    let mut attributes: Vec<DeriveAttr> = Vec::new();
    let ghost k: int = 0;
    proof {
        assert(all.take(0) =~= Seq::<DeriveAttr>::empty());
    }
    while attrs.len() > 0
        invariant
            0 <= k <= all.len(),
            attrs@ == all.skip(k),
            templates@ == selected(all.take(k), true),
            attributes@ == selected(all.take(k), false),
        decreases attrs.len(),
    {
        let a = attrs.remove(0);
        proof {
            assert(a == all[k]);
            assert(attrs@ =~= all.skip(k + 1));
            assert(all.take(k + 1).drop_last() =~= all.take(k));
            assert(all.take(k + 1).last() == all[k]);
        }
        let is_template = template_kind_of(&a.name).is_some();
        let is_attribute = str_eq(a.name.as_str(), "attribute");
        proof {
            reveal_strlit("attribute");
            reveal_strlit("maud");
            reveal_strlit("maud_cb");
            reveal_strlit("rsx");
            reveal_strlit("rsx_cb");
        }
        proof {
            assert(is_template == selects(all[k], true));
            assert(is_attribute == selects(all[k], false));
            assert("attribute"@[0] == 'a');
            assert("maud"@[0] == 'm');
            assert("maud_cb"@[0] == 'm');
            assert("rsx"@[0] == 'r');
            assert("rsx_cb"@[0] == 'r');
            assert(is_template ==> !is_attribute);
        }
        if is_template {
            templates.push(a);
        } else if is_attribute {
            attributes.push(a);
        }
        proof {
            k = k + 1;
        }
    }
    proof {
        assert(all.take(k) =~= all);
    }
    (templates, attributes)
}

/// Reads the tokens of an attribute in mode `m`.
fn attr_tokens_document(a: DeriveAttr, m: Mode) -> (r: Result<Document, DeriveError>)
    ensures
        attr_document(a, m, r),
{
    match a.tokens {
        None => Err(DeriveError::NotAList),
        Some(t) => match parse(t, m) {
            Ok(d) => Ok(d),
            Err(e) => Err(DeriveError::Parse(e)),
        },
    }
}

/// The template a type renders with: none without a template attribute,
/// an error with several, else the one, read in its syntax.
pub fn renderable_element(attrs: Vec<DeriveAttr>) -> (r: Result<
    Option<(TemplateKind, Document)>,
    DeriveError,
>)
    ensures
        element_outcome(selected(attrs@, true), r),
{
    let ghost input = attrs@;
    let (templates, _) = split_attrs(attrs);
    proof {
        lemma_selected_sorts(input, true);
    }
    let n = templates.len();
    if n == 0 {
        return Ok(None);
    }
    if n > 1 {
        return Err(DeriveError::MultipleTemplates(n));
    }
    let mut templates = templates;
    let a = templates.remove(0);
    let kind = match template_kind_of(&a.name) {
        Some(k) => k,
        None => TemplateKind::Maud,
    };
    let m = match kind {
        TemplateKind::Maud | TemplateKind::MaudBuilder => Mode::Maud,
        TemplateKind::Rsx | TemplateKind::RsxBuilder => Mode::Rsx,
    };
    match attr_tokens_document(a, m) {
        Ok(d) => Ok(Some((kind, d))),
        Err(e) => Err(e),
    }
}

/// The attribute value a type renders as: none without an `attribute`
/// attribute, an error with several, else the one, read as value nodes.
pub fn attribute_renderable(attrs: Vec<DeriveAttr>) -> (r: Result<Option<Document>, DeriveError>)
    ensures
        attribute_outcome(selected(attrs@, false), r),
{
    let ghost input = attrs@;
    let (_, attributes) = split_attrs(attrs);
    proof {
        lemma_selected_sorts(input, false);
    }
    let n = attributes.len();
    if n == 0 {
        return Ok(None);
    }
    if n > 1 {
        return Err(DeriveError::MultipleAttributes(n));
    }
    let mut attributes = attributes;
    let a = attributes.remove(0);
    match attr_tokens_document(a, Mode::Value) {
        Ok(d) => Ok(Some(d)),
        Err(e) => Err(e),
    }
}

/// The outcome of deriving from the two outcomes: an error when neither
/// attribute is there, the errors of those that fail, else both results.
pub open spec fn combined(
    e: Result<Option<(TemplateKind, Document)>, DeriveError>,
    a: Result<Option<Document>, DeriveError>,
    r: Result<(Option<(TemplateKind, Document)>, Option<Document>), Vec<DeriveError>>,
) -> bool {
    match (e, a) {
        (Ok(None), Ok(None)) => r matches Err(errs) && errs@ == seq![DeriveError::Missing],
        (Ok(x), Ok(y)) => r == Ok::<_, Vec<DeriveError>>((x, y)),
        (Ok(_), Err(y)) => r matches Err(errs) && errs@ == seq![y],
        (Err(x), Ok(_)) => r matches Err(errs) && errs@ == seq![x],
        (Err(x), Err(y)) => r matches Err(errs) && errs@ == seq![x, y],
    }
}

/// Deriving `Renderable`: the template to render with and the attribute
/// value to render as, at least one of them, or the errors.
pub fn renderable(attrs: Vec<DeriveAttr>) -> (r: Result<
    (Option<(TemplateKind, Document)>, Option<Document>),
    Vec<DeriveError>,
>)
    ensures
        exists|e: Result<Option<(TemplateKind, Document)>, DeriveError>, a: Result<Option<Document>, DeriveError>|
            #![trigger element_outcome(selected(attrs@, true), e), attribute_outcome(selected(attrs@, false), a)]
            element_outcome(selected(attrs@, true), e) && attribute_outcome(
                selected(attrs@, false),
                a,
            ) && combined(e, a, r),
{
    let ghost all = attrs@;
    let (templates, attributes) = split_attrs(attrs);
    proof {
        lemma_selected_sorts(all, true);
        lemma_selected_sorts(all, false);
        lemma_selected_all(templates@, true);
        lemma_selected_all(attributes@, false);
    }
    let e = renderable_element(templates);
    let a = attribute_renderable(attributes);
    let mut errs: Vec<DeriveError> = Vec::new();
    let r = match (e, a) {
        (Ok(None), Ok(None)) => {
            errs.push(DeriveError::Missing);
            assert(errs@ =~= seq![DeriveError::Missing]);
            Err(errs)
        },
        (Ok(x), Ok(y)) => Ok((x, y)),
        (Ok(_), Err(y)) => {
            errs.push(y);
            assert(errs@ =~= seq![y]);
            Err(errs)
        },
        (Err(x), Ok(_)) => {
            errs.push(x);
            assert(errs@ =~= seq![x]);
            Err(errs)
        },
        (Err(x), Err(y)) => {
            errs.push(x);
            errs.push(y);
            assert(errs@ =~= seq![x, y]);
            Err(errs)
        },
    };
    r
}

/// Selecting from attributes that are all of one sort keeps them all.
pub proof fn lemma_selected_all(attrs: Seq<DeriveAttr>, template: bool)
    requires
        forall|i: int| 0 <= i < attrs.len() ==> selects(#[trigger] attrs[i], template),
    ensures
        selected(attrs, template) == attrs,
    decreases attrs.len(),
{
    if attrs.len() > 0 {
        assert(selects(attrs[attrs.len() - 1], template));
        assert forall|i: int| 0 <= i < attrs.drop_last().len() implies selects(#[trigger] attrs.drop_last()[i], template) by {
            assert(attrs.drop_last()[i] == attrs[i]);
        }
        lemma_selected_all(attrs.drop_last(), template);
        assert(attrs.drop_last().push(attrs.last()) =~= attrs);
    }
}

/// The selected attributes are all of the sort selected.
pub proof fn lemma_selected_sorts(attrs: Seq<DeriveAttr>, template: bool)
    ensures
        forall|i: int| 0 <= i < selected(attrs, template).len() ==> selects(#[trigger] selected(attrs, template)[i], template),
        selected(attrs, template).len() <= attrs.len(),
    decreases attrs.len(),
{
    if attrs.len() > 0 {
        lemma_selected_sorts(attrs.drop_last(), template);
        let prev = selected(attrs.drop_last(), template);
        if selects(attrs.last(), template) {
            assert forall|i: int| 0 <= i < prev.push(attrs.last()).len() implies selects(
                #[trigger] prev.push(attrs.last())[i],
                template,
            ) by {
                if i < prev.len() {
                    assert(prev.push(attrs.last())[i] == prev[i]);
                }
            }
        }
    }
}

// ---------------------------------------------------------------------------
// Builder

/// The `#[builder(...)]` attribute of a field, the first when there are
/// several.
#[derive(Debug)]
pub enum BuilderAttr {
    /// No such attribute.
    Absent,
    /// Written without parentheses.
    NotAList,
    /// The paths in its parentheses.
    List(Vec<String>),
}

/// A field of a struct deriving `Builder`.
#[derive(Debug)]
pub struct BuilderField {
    /// Whether the field has a name.
    pub named: bool,
    /// Its builder attribute.
    pub builder: BuilderAttr,
}

/// Why `Builder` cannot be derived.
#[derive(Debug, Clone, Copy, PartialEq, Eq)]
pub enum BuilderError {
    /// The type is not a struct.
    NotStruct,
    /// A builder attribute is not written with parentheses.
    NotAList,
    /// A builder attribute holds something other than `skip`.
    Unrecognized,
}

/// Whether a field is skipped, by its builder attribute.
pub open spec fn field_skipped(f: BuilderField) -> Result<bool, BuilderError> {
    match f.builder {
        BuilderAttr::Absent => Ok(false),
        BuilderAttr::NotAList => Err(BuilderError::NotAList),
        BuilderAttr::List(paths) => if forall|i: int| 0 <= i < paths@.len() ==> (#[trigger] paths@[i])@ == "skip"@ {
            Ok(true)
        } else {
            Err(BuilderError::Unrecognized)
        },
    }
}

/// The positions of the fields that get a setter: the named ones not
/// skipped; or the error of the first named field whose attribute is wrong.
pub open spec fn setters(fs: Seq<BuilderField>) -> Result<Seq<usize>, BuilderError>
    decreases fs.len(),
{
    if fs.len() == 0 {
        Ok(Seq::empty())
    } else {
        match setters(fs.drop_last()) {
            Err(e) => Err(e),
            Ok(idx) => if !fs.last().named {
                Ok(idx)
            } else {
                match field_skipped(fs.last()) {
                    Err(e) => Err(e),
                    Ok(true) => Ok(idx),
                    Ok(false) => Ok(idx.push((fs.len() - 1) as usize)),
                }
            },
        }
    }
}

/// Once a field fails, more fields fail the same way.
pub proof fn lemma_setters_error_stays(fs: Seq<BuilderField>, k: int)
    requires
        0 <= k <= fs.len(),
        setters(fs.take(k)) is Err,
    ensures
        setters(fs) == setters(fs.take(k)),
    decreases fs.len() - k,
{
    if k < fs.len() {
        assert(fs.take(k + 1).drop_last() =~= fs.take(k));
        lemma_setters_error_stays(fs, k + 1);
    } else {
        assert(fs.take(k) =~= fs);
    }
}

/// Whether a field is skipped, by its builder attribute.
#[verifier::loop_isolation(false)]
fn skipped(f: &BuilderField) -> (r: Result<bool, BuilderError>)
    ensures
        r == field_skipped(*f),
{
    match &f.builder {
        BuilderAttr::Absent => Ok(false),
        BuilderAttr::NotAList => Err(BuilderError::NotAList),
        BuilderAttr::List(paths) => {
            let n = paths.len();
            let mut i: usize = 0;
            while i < n
                invariant
                    n == paths@.len(),
                    i <= n,
                    forall|j: int| 0 <= j < i ==> (#[trigger] paths@[j])@ == "skip"@,
                decreases n - i,
            {
                if !str_eq(paths[i].as_str(), "skip") {
                    assert(!((paths@[i as int])@ == "skip"@));
                    assert(!(forall|j: int| 0 <= j < paths@.len() ==> (#[trigger] paths@[j])@ == "skip"@));
                    return Err(BuilderError::Unrecognized);
                }
                i += 1;
            }
            Ok(true)
        },
    }
}

/// Deriving `Builder`: the positions of the fields that get a setter.
#[verifier::loop_isolation(false)]
pub fn builder(is_struct: bool, fields: &Vec<BuilderField>) -> (r: Result<Vec<usize>, BuilderError>)
    ensures
        !is_struct ==> r == Err::<Vec<usize>, _>(BuilderError::NotStruct),
        is_struct ==> match setters(fields@) {
            Ok(idx) => r matches Ok(v) && v@ == idx,
            Err(e) => r == Err::<Vec<usize>, _>(e),
        },
{
    if !is_struct {
        return Err(BuilderError::NotStruct);
    }
    let n = fields.len();
    let mut out: Vec<usize> = Vec::new();
    let mut i: usize = 0;
    proof {
        assert(fields@.take(0) =~= Seq::<BuilderField>::empty());
    }
    while i < n
        invariant
            n == fields@.len(),
            i <= n,
            setters(fields@.take(i as int)) == Ok::<_, BuilderError>(out@),
        decreases n - i,
    {
        let f = &fields[i];
        proof {
            assert(fields@.take(i + 1).drop_last() =~= fields@.take(i as int));
            assert(fields@.take(i + 1).last() == fields@[i as int]);
        }
        if f.named {
            match skipped(f) {
                Err(e) => {
                    proof {
                        lemma_setters_error_stays(fields@, i + 1);
                    }
                    return Err(e);
                },
                Ok(true) => {},
                Ok(false) => {
                    out.push(i);
                },
            }
        }
        i += 1;
    }
    proof {
        assert(fields@.take(n as int) =~= fields@);
    }
    Ok(out)
}

} // verus!
