//! Concrete cases of the library's rules: escaping, rendering, reading
//! templates, generating their code, and the component and derive rules.

use std::str::FromStr;

use hypertext::compile::{lazy, literal, parse};
use hypertext::component::{generate, to_pascal_case, ComponentError, Param, Reference};
use hypertext::context::Node;
use hypertext::derive::{
    attribute_renderable, builder, renderable, renderable_element, BuilderAttr, BuilderError,
    BuilderField, DeriveAttr, DeriveError, TemplateKind,
};
use hypertext::generate::{merge, AttributeCheckKind, Context, ElementKind, Part, Statement, Stmt};
use hypertext::names::{Literal, NameFragment, UnquotedName};
use hypertext::node::{Document, ElementNode};
use hypertext::parse::grammar::Mode;
use hypertext::parse::tokens_read::{ParseError, ParseErrorKind};
use hypertext::tokens::{Delimiter, Lit, LitKind, Spacing, TokenTree};
use hypertext::unindent::unindent;
use hypertext::{Buffer, Raw, Renderable, RenderableExt, Rendered};

fn lit_of(l: proc_macro2::Literal) -> Lit {
    let repr = l.to_string();
    let cut = |suffix: &str| repr[..repr.len() - suffix.len()].to_string();
    match syn::Lit::new(l.clone()) {
        syn::Lit::Str(s) => Lit { kind: LitKind::Str, text: cut(s.suffix()), value: s.value(), suffix: s.suffix().to_string() },
        syn::Lit::Int(i) => Lit { kind: LitKind::Int, text: cut(i.suffix()), value: cut(i.suffix()), suffix: i.suffix().to_string() },
        syn::Lit::Float(f) => Lit { kind: LitKind::Float, text: cut(f.suffix()), value: cut(f.suffix()), suffix: f.suffix().to_string() },
        syn::Lit::Char(c) => Lit { kind: LitKind::Char, text: cut(c.suffix()), value: c.value().to_string(), suffix: c.suffix().to_string() },
        _ => Lit { kind: LitKind::Other, text: repr.clone(), value: repr.clone(), suffix: String::new() },
    }
}

fn trees(ts: proc_macro2::TokenStream) -> Vec<TokenTree> {
    ts.into_iter()
        .map(|t| match t {
            proc_macro2::TokenTree::Ident(i) => TokenTree::Ident(i.to_string()),
            proc_macro2::TokenTree::Punct(p) => TokenTree::Punct(
                p.as_char(),
                if p.spacing() == proc_macro2::Spacing::Joint { Spacing::Joint } else { Spacing::Alone },
            ),
            proc_macro2::TokenTree::Literal(l) => TokenTree::Literal(lit_of(l)),
            proc_macro2::TokenTree::Group(g) => TokenTree::Group(
                match g.delimiter() {
                    proc_macro2::Delimiter::Parenthesis => Delimiter::Parenthesis,
                    proc_macro2::Delimiter::Brace => Delimiter::Brace,
                    proc_macro2::Delimiter::Bracket => Delimiter::Bracket,
                    proc_macro2::Delimiter::None => Delimiter::Invisible,
                },
                trees(g.stream()),
            ),
        })
        .collect()
}

fn toks(src: &str) -> Vec<TokenTree> {
    trees(proc_macro2::TokenStream::from_str(src).unwrap())
}

fn read(src: &str, mode: Mode) -> Result<Document, ParseError> {
    parse(toks(src), mode)
}

fn html(src: &str, mode: Mode) -> String {
    match literal(read(src, mode).expect("template reads"), Context::Node) {
        Ok((_, t)) => t,
        Err((_, ds)) => panic!("{} dynamic parts", ds.len()),
    }
}

fn stmts(src: &str, mode: Mode) -> Vec<Statement> {
    lazy(read(src, mode).expect("template reads"), Context::Node).1
}

// --- escaping and rendering ---

#[test]
fn text_escaping_replaces_markup_characters() {
    assert_eq!("a < b && c > d \"q\" 'x'".render(), Rendered("a &lt; b &amp;&amp; c &gt; d \"q\" 'x'".to_string()));
    assert_eq!("plain".render(), Rendered("plain".to_string()));
}

#[test]
fn attribute_escaping_replaces_quotes_too() {
    let mut buf: Buffer = Buffer::new();
    Renderable::render_to("\"<a & b>\" 'x'", buf.as_attribute_buffer());
    assert_eq!(buf.rendered(), Rendered("&quot;&lt;a &amp; b&gt;&quot; 'x'".to_string()));
}

#[test]
fn escaping_concatenates() {
    let (a, b) = ("x<y", "&z>");
    let whole = format!("{a}{b}").render().into_inner();
    let parts = format!("{}{}", a.render().into_inner(), b.render().into_inner());
    assert_eq!(whole, parts);
}

#[test]
fn strings_render_escaped_and_raw_unescaped() {
    assert_eq!("<b>".render(), Rendered("&lt;b&gt;".to_string()));
    assert_eq!(Raw::<&str, Node>::dangerously_create("<b>").render(), Rendered("<b>".to_string()));
    let mut buf: Buffer = Buffer::new();
    Renderable::render_to("say \"hi\"", buf.as_attribute_buffer());
    assert_eq!(buf.rendered(), Rendered("say &quot;hi&quot;".to_string()));
}

#[test]
fn numbers_and_booleans_render_as_text() {
    assert_eq!((-42i32).render(), Rendered("-42".to_string()));
    assert_eq!(i128::MIN.render(), Rendered("-170141183460469231731687303715884105728".to_string()));
    assert_eq!(u128::MAX.render(), Rendered("340282366920938463463374607431768211455".to_string()));
    assert_eq!(1000u64.render(), Rendered("1000".to_string()));
    assert_eq!(7usize.render(), Rendered("7".to_string()));
    assert_eq!(true.render(), Rendered("true".to_string()));
    assert_eq!('<'.render(), Rendered("&lt;".to_string()));
    let mut attr: Buffer = Buffer::new();
    Renderable::render_to(&'"', attr.as_attribute_buffer());
    assert_eq!(attr.rendered(), Rendered("&quot;".to_string()));
}

#[test]
fn rendering_appends_to_what_is_there() {
    let mut buf: Buffer = Buffer::dangerously_from_string("<p>".to_string());
    "a&b".render_to(&mut buf);
    Some(7u8).render_to(&mut buf);
    None::<u8>.render_to(&mut buf);
    vec!["x", "y"].render_to(&mut buf);
    ("t", 1u8).render_to(&mut buf);
    assert_eq!(buf.rendered(), Rendered("<p>a&amp;b7xyt1".to_string()));
}

#[test]
fn rendered_gives_back_its_value() {
    let r = Rendered("x".to_string());
    assert_eq!(r.as_inner(), "x");
    assert_eq!(r.into_inner(), "x");
    let raw = Raw::<String, Node>::dangerously_create("<i>".to_string());
    assert_eq!(raw.as_str(), "<i>");
    assert_eq!(raw.rendered(), Rendered("<i>".to_string()));
}

// --- unindent and names ---

#[test]
fn unindent_removes_common_indentation() {
    assert_eq!(unindent("\n    line one\n      line two\n"), "line one\n  line two\n");
    assert_eq!(unindent("first\n    second\n    third"), "first\nsecond\nthird");
    assert_eq!(unindent("a\r\n  b"), "a\nb");
    assert_eq!(unindent("single line  "), "single line  ");
    assert_eq!(unindent(""), "");
}

#[test]
fn pascal_case_of_snake_case() {
    assert_eq!(to_pascal_case("user_card"), "UserCard");
    assert_eq!(to_pascal_case("__a__b_"), "AB");
    assert_eq!(to_pascal_case("hello"), "Hello");
    assert_eq!(to_pascal_case("a1_b2"), "A1B2");
    assert_eq!(to_pascal_case("émile_x"), "émileX");
}

// --- reading templates ---

#[test]
fn literals_escape_in_text_and_attributes() {
    assert_eq!(html(r#"p title="a\"b<" { "x & y" 1 2.5 }"#, Mode::Maud), "<p title=\"a&quot;b&lt;\">x &amp; y12.5</p>");
    assert_eq!(html(r#"<p>"<b>" 7</p>"#, Mode::Rsx), "<p>&lt;b&gt;7</p>");
}

#[test]
fn string_literals_are_unindented() {
    assert_eq!(html("p { \"one\n        two\" }", Mode::Maud), "<p>one\ntwo</p>");
}

#[test]
fn doctype_in_both_syntaxes() {
    assert_eq!(html("!DOCTYPE html { }", Mode::Maud), "<!DOCTYPE html><html></html>");
    assert_eq!(html("<!DOCTYPE html><html></html>", Mode::Rsx), "<!DOCTYPE html><html></html>");
}

#[test]
fn maud_shorthands_give_id_and_classes() {
    assert_eq!(html(r#"p #main .a .b-c .d title="t" {}"#, Mode::Maud), r#"<p id="main" class="a b-c d" title="t"></p>"#);
}

#[test]
fn rsx_words_are_spaced_and_unquoted_values_read_as_names() {
    assert_eq!(html("<p class=big-text>hello big world 3</p>", Mode::Rsx), r#"<p class="big-text">hello big world 3</p>"#);
}

#[test]
fn rsx_fragments_and_unclosed_elements() {
    assert_eq!(html("<><b>x</b><i>y</i></>", Mode::Rsx), "<b>x</b><i>y</i>");
    assert_eq!(html("<br>", Mode::Rsx), "<br>");
    assert_eq!(html("<p><br>text</p>", Mode::Rsx), "<p><br>text</p>");
}

#[test]
fn attribute_names_of_every_form() {
    assert_eq!(
        html(r#"div data-x-y="1" hx-on:click="go" @click.once="f" :value="v" aria-hidden {}"#, Mode::Maud),
        r#"<div data-x-y="1" hx-on:click="go" @click.once="f" :value="v" aria-hidden></div>"#
    );
}

#[test]
fn syntax_errors_are_refused() {
    for (src, mode) in [
        ("div", Mode::Maud),
        ("@if { p {} }", Mode::Maud),
        ("@for x { }", Mode::Maud),
        ("@loop { }", Mode::Maud),
        ("@let x = 1", Mode::Maud),
        ("p { 'c'x }", Mode::Maud),
        ("h-1u8 {}", Mode::Maud),
        ("input checked[];", Mode::Maud),
        ("<p>{}</p>", Mode::Rsx),
        ("<p></p", Mode::Rsx),
        ("<>a", Mode::Rsx),
        ("@match x { => p {} }", Mode::Rsx),
        ("name", Mode::Value),
    ] {
        assert!(matches!(read(src, mode), Err(ParseError { .. })), "{src} should be refused");
    }
}

#[test]
fn values_read_names_only_where_allowed() {
    let doc = read("item-1 \"x\"", Mode::Name).expect("reads");
    assert_eq!(doc.nodes.len(), 2);
    match &doc.nodes[0] {
        ElementNode::Name(UnquotedName(fs)) => {
            assert_eq!(fs.len(), 3);
            assert!(matches!(&fs[0], NameFragment::Ident(s) if s == "item"));
            assert!(matches!(&fs[1], NameFragment::Hyphen));
            assert!(matches!(&fs[2], NameFragment::Number(s) if s == "1"));
        }
        other => panic!("{other:?}"),
    }
    let doc = read("true 5", Mode::Value).expect("reads");
    assert!(matches!(&doc.nodes[0], ElementNode::Literal(Literal::Bool(true))));
    assert!(matches!(&doc.nodes[1], ElementNode::Literal(Literal::Int(s)) if s == "5"));
    assert!(read("true 5u8", Mode::Value).is_err());
}

// --- generating code ---

#[test]
fn static_templates_push_their_text_once() {
    let s = stmts("div { p { \"a\" } br; }", Mode::Maud);
    assert_eq!(s.len(), 1);
    assert!(matches!(&s[0], Statement::PushStr(t) if t == "<div><p>a</p><br></div>"));
    assert_eq!(html("div { p { \"a\" } br; }", Mode::Maud), "<div><p>a</p><br></div>");
}

#[test]
fn dynamic_parts_are_counted_for_static_text() {
    let doc = read("p { (x) (y) }", Mode::Maud).unwrap();
    match literal(doc, Context::Node) {
        Err((text, ds)) => {
            assert_eq!(text, "<p></p>");
            assert_eq!(ds.len(), 2);
            assert!(matches!(&ds[0], Stmt::Render { expr, .. } if matches!(&expr[..], [TokenTree::Ident(x)] if x == "x")));
            assert!(matches!(&ds[1], Stmt::Render { expr, .. } if matches!(&expr[..], [TokenTree::Ident(y)] if y == "y")));
        }
        Ok(_) => panic!("static text from a template with dynamic parts"),
    }
}

#[test]
fn merge_joins_adjacent_text_and_keeps_statements() {
    let parts = vec![
        Part::Static("<a>".to_string()),
        Part::Static("b".to_string()),
        Part::Dynamic(Stmt::Code(Vec::new())),
        Part::Static("c".to_string()),
        Part::Dynamic(Stmt::Block(Vec::new())),
    ];
    let merged = merge(parts);
    assert_eq!(merged.len(), 4);
    assert!(matches!(&merged[0], Statement::PushStr(t) if t == "<a>b"));
    assert!(matches!(&merged[1], Statement::Stmt(Stmt::Code(_))));
    assert!(matches!(&merged[2], Statement::PushStr(t) if t == "c"));
    assert!(matches!(&merged[3], Statement::Stmt(Stmt::Block(_))));
}

#[test]
fn expressions_render_in_their_context() {
    let s = stmts("a href=(url) { (text) }", Mode::Maud);
    assert_eq!(s.len(), 5);
    assert!(matches!(&s[0], Statement::PushStr(t) if t == "<a href=\""));
    assert!(matches!(&s[1], Statement::Stmt(Stmt::Render { context: Context::AttributeValue, buffer: Context::Node, .. })));
    assert!(matches!(&s[2], Statement::PushStr(t) if t == "\">"));
    assert!(matches!(&s[3], Statement::Stmt(Stmt::Render { context: Context::Node, buffer: Context::Node, .. })));
    assert!(matches!(&s[4], Statement::PushStr(t) if t == "</a>"));
}

#[test]
fn toggles_and_optional_attributes() {
    let s = stmts("input .on[active] checked[c] value=[v];", Mode::Maud);
    assert!(matches!(&s[0], Statement::PushStr(t) if t == "<input class=\""));
    assert!(matches!(&s[1], Statement::Stmt(Stmt::If { paren: true, .. })));
    assert!(matches!(&s[2], Statement::PushStr(t) if t == "\""));
    assert!(matches!(&s[3], Statement::Stmt(Stmt::If { paren: true, .. })));
    assert!(matches!(&s[4], Statement::Stmt(Stmt::IfSome { .. })));
    assert!(matches!(&s[5], Statement::PushStr(t) if t == ">"));
}

#[test]
fn element_checks_name_elements_and_attributes() {
    let doc = read(r#"div id="a" data-x="1" hx-on:click="f" @click="g" { input type="t"; }"#, Mode::Maud).unwrap();
    let (checks, _) = lazy(doc, Context::Node);
    assert_eq!(checks.len(), 2);
    assert_eq!(checks[0].ident, "input");
    assert_eq!(checks[0].kind, ElementKind::Void);
    assert_eq!(checks[0].attributes.len(), 1);
    assert_eq!(checks[0].attributes[0].ident, "type");
    assert_eq!(checks[1].ident, "div");
    assert_eq!(checks[1].kind, ElementKind::Normal);
    let attrs: Vec<(AttributeCheckKind, &str)> =
        checks[1].attributes.iter().map(|a| (a.kind, a.ident.as_str())).collect();
    assert_eq!(
        attrs,
        vec![
            (AttributeCheckKind::Normal, "id"),
            (AttributeCheckKind::Namespace, "hx_on"),
            (AttributeCheckKind::Symbol, "_at"),
        ]
    );
}

#[test]
fn components_become_component_statements() {
    for (src, mode) in [("Card title=\"t\" count=3 .. { p {} }", Mode::Maud), ("<Card title=\"t\" count=3 ..><p></p></Card>", Mode::Rsx)] {
        let s = stmts(src, mode);
        assert_eq!(s.len(), 1);
        match &s[0] {
            Statement::Stmt(Stmt::Component { name, fields, children, default, .. }) => {
                assert_eq!(name, "Card");
                assert_eq!(fields.len(), 2);
                assert_eq!(fields[0].name, "title");
                assert_eq!(fields[1].name, "count");
                assert!(*default);
                let body = children.as_ref().expect("children");
                assert!(matches!(&body[0], Statement::PushStr(t) if t == "<p></p>"));
            }
            other => panic!("{other:?}"),
        }
    }
}

// --- components and derives ---

fn typed(name: &str, ty: &str, reference: Option<Reference>) -> Param {
    Param::Typed { name: name.to_string(), ty: toks(ty), reference }
}

#[test]
fn component_functions_become_structs() {
    let c = generate(
        "user_card",
        vec![
            typed("name", "&str", Some(Reference { mutable: false, lifetime: false, elem: toks("str") })),
            typed("age", "u8", None),
            typed("bio", "&'a str", Some(Reference { mutable: false, lifetime: true, elem: toks("str") })),
        ],
    )
    .expect("a component");
    assert_eq!(c.name, "UserCard");
    assert_eq!(c.fields.len(), 3);
    assert_eq!((c.fields[0].name.as_str(), c.fields[0].by_ref, c.fields[0].ty.len()), ("name", true, 1));
    assert_eq!((c.fields[1].name.as_str(), c.fields[1].by_ref), ("age", false));
    assert_eq!((c.fields[2].name.as_str(), c.fields[2].by_ref, c.fields[2].ty.len()), ("bio", false, 4));
}

#[test]
fn component_errors_name_the_first_bad_parameter() {
    let mut_ref = || typed("x", "&mut u8", Some(Reference { mutable: true, lifetime: false, elem: toks("u8") }));
    assert!(matches!(generate("f", vec![Param::Receiver, mut_ref()]), Err(ComponentError::Receiver)));
    assert!(matches!(generate("f", vec![typed("a", "u8", None), Param::Pattern]), Err(ComponentError::Pattern)));
    assert!(matches!(generate("f", vec![mut_ref(), Param::Pattern]), Err(ComponentError::MutableReference)));
}

fn attr(name: &str, tokens: Option<&str>) -> DeriveAttr {
    DeriveAttr { name: name.to_string(), tokens: tokens.map(toks) }
}

#[test]
fn derive_picks_the_one_template() {
    match renderable_element(vec![attr("doc", None), attr("rsx", Some("<p></p>"))]) {
        Ok(Some((TemplateKind::Rsx, d))) => assert_eq!(d.nodes.len(), 1),
        other => panic!("{other:?}"),
    }
    assert!(matches!(renderable_element(vec![attr("doc", None)]), Ok(None)));
    assert!(matches!(
        renderable_element(vec![attr("maud", Some("p{}")), attr("maud_cb", Some("p{}"))]),
        Err(DeriveError::MultipleTemplates(2))
    ));
    assert!(matches!(renderable_element(vec![attr("maud", None)]), Err(DeriveError::NotAList)));
    assert!(matches!(renderable_element(vec![attr("maud", Some("p"))]), Err(DeriveError::Parse(ParseError { .. }))));
    assert!(matches!(attribute_renderable(vec![attr("attribute", Some("\"a\" (b)"))]), Ok(Some(_))));
    assert!(matches!(
        attribute_renderable(vec![attr("attribute", Some("\"a\"")), attr("attribute", Some("\"b\""))]),
        Err(DeriveError::MultipleAttributes(2))
    ));
}

#[test]
fn derive_needs_an_attribute_and_reports_every_error() {
    match renderable(vec![attr("doc", None)]) {
        Err(e) => assert_eq!(e, vec![DeriveError::Missing]),
        other => panic!("{other:?}"),
    }
    match renderable(vec![attr("maud", None), attr("attribute", Some("p"))]) {
        Err(e) => {
            assert_eq!(e.len(), 2);
            assert_eq!(e[0], DeriveError::NotAList);
            assert!(matches!(e[1], DeriveError::Parse(ParseError { kind: ParseErrorKind::UnexpectedToken, .. })));
        }
        other => panic!("{other:?}"),
    }
    match renderable(vec![attr("maud_cb", Some("p {}")), attr("attribute", Some("\"v\""))]) {
        Ok((Some((TemplateKind::MaudBuilder, _)), Some(_))) => {}
        other => panic!("{other:?}"),
    }
}

#[test]
fn builder_setters_skip_and_errors() {
    let fields = vec![
        BuilderField { named: true, builder: BuilderAttr::Absent },
        BuilderField { named: true, builder: BuilderAttr::List(vec!["skip".to_string()]) },
        BuilderField { named: false, builder: BuilderAttr::NotAList },
        BuilderField { named: true, builder: BuilderAttr::List(Vec::new()) },
        BuilderField { named: true, builder: BuilderAttr::Absent },
    ];
    assert_eq!(builder(true, &fields), Ok(vec![0, 4]));
    assert_eq!(builder(false, &fields), Err(BuilderError::NotStruct));
    let bad = vec![
        BuilderField { named: true, builder: BuilderAttr::List(vec!["skip".to_string(), "rename".to_string()]) },
        BuilderField { named: true, builder: BuilderAttr::NotAList },
    ];
    assert_eq!(builder(true, &bad), Err(BuilderError::Unrecognized));
    let not_list = vec![BuilderField { named: true, builder: BuilderAttr::NotAList }];
    assert_eq!(builder(true, &not_list), Err(BuilderError::NotAList));
}

#[test]
fn attribute_buffer_writes_land_in_the_buffer() {
    let mut b: Buffer = Buffer::dangerously_from_string("<a title=\"".to_string());
    b.as_attribute_buffer().dangerously_get_string().push_str("x");
    "\"y\"".render_to(b.as_attribute_buffer());
    assert_eq!(b.dangerously_get_string().as_str(), "<a title=\"x&quot;y&quot;");
}

#[test]
fn parse_errors_say_what_was_wrong_and_where() {
    assert_eq!(
        read("p {} = 1", Mode::Maud).unwrap_err(),
        ParseError { kind: ParseErrorKind::UnexpectedToken, remaining: 2 }
    );
    assert_eq!(read("p {} @if", Mode::Maud).unwrap_err().kind, ParseErrorKind::UnexpectedEnd);
}

#[test]
fn suffixed_literals_are_refused_and_characters_read() {
    for (src, mode) in [
        (r#"p { "a"x }"#, Mode::Maud),
        ("p { 1u8 }", Mode::Maud),
        ("p { 1.5f32 }", Mode::Maud),
        ("p { 'c'x }", Mode::Maud),
        (r#"<p>"a"x</p>"#, Mode::Rsx),
        (r#"p title="a"x {}"#, Mode::Maud),
        (r#"p "t"x="a" {}"#, Mode::Maud),
    ] {
        assert!(read(src, mode).is_err(), "{src} should be refused");
    }
    assert_eq!(html("p { 'a' '<' 12 1.5 }", Mode::Maud), "<p>a&lt;121.5</p>");
    assert_eq!(html("<p>'a'</p>", Mode::Rsx), "<p>a</p>");
}
