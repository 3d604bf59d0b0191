//! Templates compiled from their tokens, then run: static templates through
//! their static text, dynamic ones through their generated statements, with
//! a host standing in for the Rust expressions the statements name.

use std::str::FromStr;

use hypertext::compile::{lazy, literal, parse, Maud, Rsx};
use hypertext::component::{generate, ComponentStruct, Param, Reference};
use hypertext::generate::{Context, Statement, Stmt};
use hypertext::parse::grammar::Mode;
use hypertext::tokens::{Delimiter, Lit, LitKind, Spacing, TokenTree};
use hypertext::{Buffer, Raw, Renderable, Rendered};

fn convert_lit(l: proc_macro2::Literal) -> Lit {
    let repr = l.to_string();
    let strip = |suffix: &str| repr[..repr.len() - suffix.len()].to_string();
    match syn::Lit::new(l.clone()) {
        syn::Lit::Str(s) => Lit {
            kind: LitKind::Str,
            text: strip(s.suffix()),
            value: s.value(),
            suffix: s.suffix().to_string(),
        },
        syn::Lit::Int(i) => Lit {
            kind: LitKind::Int,
            text: strip(i.suffix()),
            value: strip(i.suffix()),
            suffix: i.suffix().to_string(),
        },
        syn::Lit::Float(f) => Lit {
            kind: LitKind::Float,
            text: strip(f.suffix()),
            value: strip(f.suffix()),
            suffix: f.suffix().to_string(),
        },
        syn::Lit::Char(c) => Lit {
            kind: LitKind::Char,
            text: strip(c.suffix()),
            value: c.value().to_string(),
            suffix: c.suffix().to_string(),
        },
        _ => Lit { kind: LitKind::Other, text: repr.clone(), value: repr.clone(), suffix: String::new() },
    }
}

fn convert(ts: proc_macro2::TokenStream) -> Vec<TokenTree> {
    ts.into_iter()
        .map(|t| match t {
            proc_macro2::TokenTree::Ident(i) => TokenTree::Ident(i.to_string()),
            proc_macro2::TokenTree::Punct(p) => TokenTree::Punct(
                p.as_char(),
                if p.spacing() == proc_macro2::Spacing::Joint { Spacing::Joint } else { Spacing::Alone },
            ),
            proc_macro2::TokenTree::Literal(l) => TokenTree::Literal(convert_lit(l)),
            proc_macro2::TokenTree::Group(g) => TokenTree::Group(
                match g.delimiter() {
                    proc_macro2::Delimiter::Parenthesis => Delimiter::Parenthesis,
                    proc_macro2::Delimiter::Brace => Delimiter::Brace,
                    proc_macro2::Delimiter::Bracket => Delimiter::Bracket,
                    proc_macro2::Delimiter::None => Delimiter::Invisible,
                },
                convert(g.stream()),
            ),
        })
        .collect()
}

fn tokens(src: &str) -> Vec<TokenTree> {
    convert(proc_macro2::TokenStream::from_str(src).unwrap())
}

/// Tokens as text: separated by spaces, but after joint punctuation.
fn text(ts: &[TokenTree]) -> String {
    let mut out = String::new();
    let mut glued = true;
    for t in ts {
        if !glued {
            out.push(' ');
        }
        glued = false;
        match t {
            TokenTree::Ident(s) => out.push_str(s),
            TokenTree::Punct(c, sp) => {
                out.push(*c);
                glued = *sp == Spacing::Joint;
            }
            TokenTree::Literal(l) => {
                out.push_str(&l.text);
                out.push_str(&l.suffix);
            }
            TokenTree::Group(d, inner) => {
                let (open, close) = match d {
                    Delimiter::Parenthesis => ("(", ")"),
                    Delimiter::Brace => ("{", "}"),
                    Delimiter::Bracket => ("[", "]"),
                    Delimiter::Invisible => ("", ""),
                };
                out.push_str(open);
                out.push_str(&text(inner));
                out.push_str(close);
            }
        }
    }
    out
}

/// What the Rust code named by generated statements does.
trait Host {
    fn render(&mut self, expr: &str, ctx: Context, buf: &mut Buffer);
    fn code(&mut self, _code: &str) {
        panic!("no statements expected")
    }
    fn cond(&mut self, cond: &str) -> bool {
        panic!("no condition expected: {cond}")
    }
    fn iterate(&mut self, _pat: &str, expr: &str) -> usize {
        panic!("no loop expected: {expr}")
    }
    fn bind(&mut self, _k: usize) {}
    fn end_loop(&mut self) {}
    fn arm(&mut self, expr: &str, _pat: &str) -> bool {
        panic!("no match expected: {expr}")
    }
    /// How many times a component renders its children.
    fn component(&mut self, name: &str, _fields: &[(String, String)]) -> usize {
        panic!("no component expected: {name}")
    }
    /// Whether components are instantiated whole, by `instantiate`.
    fn builds_components(&self) -> bool {
        false
    }
    /// The HTML of a component given its fields and its rendered children.
    fn instantiate(&mut self, name: &str, _fields: &[(String, String)], _children: Option<&str>) -> String {
        panic!("no component expected: {name}")
    }
}

/// Renders a value in the context a statement names.
fn put<T: Renderable + Renderable<hypertext::context::AttributeValue>>(value: &T, ctx: Context, buf: &mut Buffer) {
    match ctx {
        Context::Node => Renderable::<hypertext::context::Node>::render_to(value, buf),
        Context::AttributeValue => Renderable::<hypertext::context::AttributeValue>::render_to(value, buf.as_attribute_buffer()),
    }
}

fn run_stmt(s: &Stmt, h: &mut dyn Host, buf: &mut Buffer) {
    match s {
        Stmt::Render { expr, context, .. } => h.render(&text(expr), *context, buf),
        Stmt::Code(t) => h.code(&text(t)),
        Stmt::If { cond, then_block, else_branch, .. } => {
            if h.cond(&text(cond)) {
                run(then_block, h, buf);
            } else if let Some(e) = else_branch {
                run_stmt(e, h, buf);
            }
        }
        Stmt::For { pat, expr, body } => {
            let n = h.iterate(&text(pat), &text(expr));
            for k in 0..n {
                h.bind(k);
                run(body, h, buf);
            }
            h.end_loop();
        }
        Stmt::While { cond, body } => {
            while h.cond(&text(cond)) {
                run(body, h, buf);
            }
        }
        Stmt::Match { expr, arms } => {
            let e = text(expr);
            for arm in arms {
                if h.arm(&e, &text(&arm.pat)) {
                    run(&arm.body, h, buf);
                    break;
                }
            }
        }
        Stmt::Block(b) => run(b, h, buf),
        Stmt::Component { name, fields, children, .. } => {
            let fields: Vec<(String, String)> =
                fields.iter().map(|f| (f.name.clone(), text(&f.value))).collect();
            if h.builds_components() {
                let children_html = children.as_ref().map(|c| {
                    let mut b: Buffer = Buffer::new();
                    run(c, h, &mut b);
                    b.rendered().0
                });
                let html = h.instantiate(name, &fields, children_html.as_deref());
                buf.dangerously_push_str(&html);
                return;
            }
            let n = h.component(name, &fields);
            if let Some(children) = children {
                for _ in 0..n {
                    run(children, h, buf);
                }
            }
        }
        other => panic!("unexpected statement {other:?}"),
    }
}

fn run(stmts: &[Statement], h: &mut dyn Host, buf: &mut Buffer) {
    for s in stmts {
        match s {
            Statement::PushStr(t) => buf.dangerously_push_str(t),
            Statement::Stmt(st) => run_stmt(st, h, buf),
        }
    }
}

/// The static text of a template without dynamic parts.
fn static_html(src: &str, mode: Mode) -> Rendered<String> {
    let doc = parse(tokens(src), mode).expect("template reads");
    match literal(doc, Context::Node) {
        Ok((_, t)) => Rendered(t),
        Err((_, ds)) => panic!("{} dynamic parts", ds.len()),
    }
}

/// A template rendered through its generated statements.
fn render_with(src: &str, mode: Mode, h: &mut dyn Host) -> Rendered<String> {
    let doc = parse(tokens(src), mode).expect("template reads");
    let (_, stmts) = lazy(doc, Context::Node);
    let mut buf: Buffer = Buffer::new();
    run(&stmts, h, &mut buf);
    buf.rendered()
}

struct Shopping {
    list: Vec<&'static str>,
    i: u32,
    item: &'static str,
}

impl Host for Shopping {
    fn render(&mut self, expr: &str, ctx: Context, buf: &mut Buffer) {
        match expr {
            "i" => put(&self.i, ctx, buf),
            "item" => put(&self.item, ctx, buf),
            _ => panic!("unknown expression {expr}"),
        }
    }
    fn iterate(&mut self, pat: &str, expr: &str) -> usize {
        assert_eq!(pat, "(i , item)");
        assert!(expr.contains("zip (shopping_list)"));
        self.list.len()
    }
    fn bind(&mut self, k: usize) {
        self.i = k as u32 + 1;
        self.item = self.list[k];
    }
}

#[test]
fn readme() {
    let shopping_list = vec!["milk", "eggs", "bread"];
    let maud = r#"
        div {
            h1 { "Shopping List" }
            ul {
                @for (i, item) in (1..).zip(shopping_list) {
                    li.item {
                        input #{ "item-" (i) } type="checkbox";
                        label for={ "item-" (i) } { (item) }
                    }
                }
            }
        }
    "#;
    let rsx = r#"
        <div>
            <h1>Shopping List</h1>
            <ul>
                @for (i, item) in (1..).zip(shopping_list) {
                    <li class="item">
                        <input id={ "item-" (i) } type="checkbox">
                        <label for={ "item-" (i) }>(item)</label>
                    </li>
                }
            </ul>
        </div>
    "#;
    let results = [
        render_with(maud, Maud::mode(), &mut Shopping { list: shopping_list.clone(), i: 0, item: "" }),
        render_with(rsx, Rsx::mode(), &mut Shopping { list: shopping_list.clone(), i: 0, item: "" }),
    ];
    for result in results {
        assert_eq!(
            result,
            Rendered(
                r#"<div><h1>Shopping List</h1><ul><li class="item"><input id="item-1" type="checkbox"><label for="item-1">milk</label></li><li class="item"><input id="item-2" type="checkbox"><label for="item-2">eggs</label></li><li class="item"><input id="item-3" type="checkbox"><label for="item-3">bread</label></li></ul></div>"#
                    .to_string()
            )
        );
    }
}

#[test]
fn alpine() {
    let tests = [
        (static_html(r#"div x-data="{ open: false }" { "Hello, world!" }"#, Mode::Maud), r#"<div x-data="{ open: false }">Hello, world!</div>"#),
        (static_html(r#"<div x-data="{ open: false }">"Hello, world!"</div>"#, Mode::Rsx), r#"<div x-data="{ open: false }">Hello, world!</div>"#),
        (static_html(r#"div x-bind:class="! open ? 'hidden' : ''" { "Hello, world!" }"#, Mode::Maud), r#"<div x-bind:class="! open ? 'hidden' : ''">Hello, world!</div>"#),
        (static_html(r#"<div x-bind:class="! open ? 'hidden' : ''">"Hello, world!"</div>"#, Mode::Rsx), r#"<div x-bind:class="! open ? 'hidden' : ''">Hello, world!</div>"#),
        (static_html(r#"div :class="! open ? 'hidden' : ''" { "Hello, world!" }"#, Mode::Maud), r#"<div :class="! open ? 'hidden' : ''">Hello, world!</div>"#),
        (static_html(r#"<div :class="! open ? 'hidden' : ''">"Hello, world!"</div>"#, Mode::Rsx), r#"<div :class="! open ? 'hidden' : ''">Hello, world!</div>"#),
        (static_html(r#"div x-on:click="open = ! open" { "Hello, world!" }"#, Mode::Maud), r#"<div x-on:click="open = ! open">Hello, world!</div>"#),
        (static_html(r#"<div x-on:click="open = ! open">"Hello, world!"</div>"#, Mode::Rsx), r#"<div x-on:click="open = ! open">Hello, world!</div>"#),
        (static_html(r#"div @click="open = ! open" { "Hello, world!" }"#, Mode::Maud), r#"<div @click="open = ! open">Hello, world!</div>"#),
        (static_html(r#"<div @click="open = ! open">"Hello, world!"</div>"#, Mode::Rsx), r#"<div @click="open = ! open">Hello, world!</div>"#),
        (static_html(r#"div @click.shift="open = ! open" { "Hello, world!" }"#, Mode::Maud), r#"<div @click.shift="open = ! open">Hello, world!</div>"#),
        (static_html(r#"<div @click.shift="open = ! open">"Hello, world!"</div>"#, Mode::Rsx), r#"<div @click.shift="open = ! open">Hello, world!</div>"#),
        (static_html(r#"input type="text" @keyup.enter="alert('Submitted!')";"#, Mode::Maud), r#"<input type="text" @keyup.enter="alert('Submitted!')">"#),
        (static_html(r#"<input type="text" @keyup.enter="alert('Submitted!')" />"#, Mode::Rsx), r#"<input type="text" @keyup.enter="alert('Submitted!')">"#),
        (static_html(r#"input type="text" @keyup.shift.enter="alert('Submitted!')";"#, Mode::Maud), r#"<input type="text" @keyup.shift.enter="alert('Submitted!')">"#),
        (static_html(r#"<input type="text" @keyup.shift.enter="alert('Submitted!')" />"#, Mode::Rsx), r#"<input type="text" @keyup.shift.enter="alert('Submitted!')">"#),
        (static_html(r#"div x-text="new Date().getFullYear()" { "Hello, world!" }"#, Mode::Maud), r#"<div x-text="new Date().getFullYear()">Hello, world!</div>"#),
        (static_html(r#"<div x-text="new Date().getFullYear()">"Hello, world!"</div>"#, Mode::Rsx), r#"<div x-text="new Date().getFullYear()">Hello, world!</div>"#),
        (static_html(r#"div x-html="(await axios.get('/some/html/partial')).data" { "Hello, world!" }"#, Mode::Maud), r#"<div x-html="(await axios.get('/some/html/partial')).data">Hello, world!</div>"#),
        (static_html(r#"<div x-html="(await axios.get('/some/html/partial')).data">"Hello, world!"</div>"#, Mode::Rsx), r#"<div x-html="(await axios.get('/some/html/partial')).data">Hello, world!</div>"#),
        (static_html(r#"input type="text" x-model="search";"#, Mode::Maud), r#"<input type="text" x-model="search">"#),
        (static_html(r#"<input type="text" x-model="search" />"#, Mode::Rsx), r#"<input type="text" x-model="search">"#),
        (static_html(r#"div x-show="open" { "Hello, world!" }"#, Mode::Maud), r#"<div x-show="open">Hello, world!</div>"#),
        (static_html(r#"<div x-show="open">"Hello, world!"</div>"#, Mode::Rsx), r#"<div x-show="open">Hello, world!</div>"#),
        (static_html(r#"div x-show="open" x-transition { "Hello, world!" }"#, Mode::Maud), r#"<div x-show="open" x-transition>Hello, world!</div>"#),
        (static_html(r#"<div x-show="open" x-transition>"Hello, world!"</div>"#, Mode::Rsx), r#"<div x-show="open" x-transition>Hello, world!</div>"#),
        (
            static_html(
                r#"
                template x-for="post in posts" {
                    h2 x-text="post.title" {}
                }
                "#,
                Mode::Maud,
            ),
            r#"<template x-for="post in posts"><h2 x-text="post.title"></h2></template>"#,
        ),
        (
            static_html(
                r#"
                <template x-for="post in posts">
                    <h2 x-text="post.title"></h2>
                </template>
                "#,
                Mode::Rsx,
            ),
            r#"<template x-for="post in posts"><h2 x-text="post.title"></h2></template>"#,
        ),
        (
            static_html(
                r#"
                template x-if="open" {
                    h2 x-text="post.title" {}
                }
                "#,
                Mode::Maud,
            ),
            r#"<template x-if="open"><h2 x-text="post.title"></h2></template>"#,
        ),
        (
            static_html(
                r#"
                <template x-if="open">
                    <h2 x-text="post.title"></h2>
                </template>
                "#,
                Mode::Rsx,
            ),
            r#"<template x-if="open"><h2 x-text="post.title"></h2></template>"#,
        ),
        (static_html(r#"div x-init="date = new Date()" {}"#, Mode::Maud), r#"<div x-init="date = new Date()"></div>"#),
        (static_html(r#"<div x-init="date = new Date()"></div>"#, Mode::Rsx), r#"<div x-init="date = new Date()"></div>"#),
        (static_html(r#"div x-effect="console.log('Count is '+count)" {}"#, Mode::Maud), r#"<div x-effect="console.log('Count is '+count)"></div>"#),
        (static_html(r#"<div x-effect="console.log('Count is '+count)"></div>"#, Mode::Rsx), r#"<div x-effect="console.log('Count is '+count)"></div>"#),
        (static_html(r#"input type="text" x-ref="content";"#, Mode::Maud), r#"<input type="text" x-ref="content">"#),
        (static_html(r#"<input type="text" x-ref="content" />"#, Mode::Rsx), r#"<input type="text" x-ref="content">"#),
        (static_html(r#"div x-cloak {}"#, Mode::Maud), r"<div x-cloak></div>"),
        (static_html(r#"<div x-cloak></div>"#, Mode::Rsx), r"<div x-cloak></div>"),
        (static_html(r#"div x-ignore {}"#, Mode::Maud), r"<div x-ignore></div>"),
        (static_html(r#"<div x-ignore></div>"#, Mode::Rsx), r"<div x-ignore></div>"),
    ];

    for (test, expected) in tests {
        assert_eq!(test, Rendered(expected.to_string()));
    }
}

#[test]
fn hyperscript() {
    let results = [
        static_html(
            r#"
            button _="on click increment :x then put result into the next <output/>" {
                "Click Me"
            }
            output { "--" }
            "#,
            Mode::Maud,
        ),
        static_html(
            r#"
            <button _="on click increment :x then put result into the next <output/>">
                Click Me
            </button>
            <output>"--"</output>
            "#,
            Mode::Rsx,
        ),
    ];

    for result in results {
        assert_eq!(
            result,
            Rendered(
                r#"<button _="on click increment :x then put result into the next &lt;output/&gt;">Click Me</button><output>--</output>"#
                    .to_string(),
            )
        );
    }
}

struct Item {
    s: &'static str,
}

impl Host for Item {
    fn render(&mut self, expr: &str, ctx: Context, buf: &mut Buffer) {
        assert_eq!(expr, "s");
        put(&self.s, ctx, buf);
    }
}

struct Groceries {
    groceries: Vec<Raw<String>>,
}

impl Host for Groceries {
    fn render(&mut self, expr: &str, ctx: Context, buf: &mut Buffer) {
        assert_eq!(expr, "groceries");
        assert_eq!(ctx, Context::Node);
        self.groceries.render_to(buf);
    }
}

#[test]
fn can_render_vec() {
    let groceries = ["milk", "eggs", "bread"]
        .into_iter()
        .map(|s| Raw::dangerously_create(render_with("li { (s) }", Mode::Maud, &mut Item { s }).0))
        .collect::<Vec<_>>();

    let result = render_with("ul { (groceries) }", Mode::Maud, &mut Groceries { groceries });

    assert_eq!(result, Rendered("<ul><li>milk</li><li>eggs</li><li>bread</li></ul>".to_string()));
}

struct Xss {
    xss: &'static str,
}

impl Host for Xss {
    fn render(&mut self, expr: &str, ctx: Context, buf: &mut Buffer) {
        assert_eq!(expr, "xss");
        put(&self.xss, ctx, buf);
    }
}

#[test]
fn correct_attr_escape() {
    let xss = r#""alert('XSS')"#;

    let result = render_with("div data-code=(xss) {}", Mode::Maud, &mut Xss { xss });

    assert_eq!(result, Rendered(r#"<div data-code="&quot;alert('XSS')"></div>"#.to_string()));
}

struct Flow {
    cond: bool,
    i: i32,
    loop_i: Option<i32>,
}

impl Host for Flow {
    fn render(&mut self, expr: &str, ctx: Context, buf: &mut Buffer) {
        match expr {
            "i" => put(&self.loop_i.unwrap_or(self.i), ctx, buf),
            "i += 1" => {
                self.i += 1;
                Renderable::<hypertext::context::Node>::render_to(&(), buf);
            }
            _ => panic!("unknown expression {expr}"),
        }
    }
    fn code(&mut self, code: &str) {
        assert_eq!(code, "let mut i = 3 ;");
        self.i = 3;
    }
    fn cond(&mut self, cond: &str) -> bool {
        match cond {
            "cond" => self.cond,
            "i < 6" => self.i < 6,
            _ => panic!("unknown condition {cond}"),
        }
    }
    fn iterate(&mut self, pat: &str, expr: &str) -> usize {
        assert_eq!(pat, "i");
        assert_eq!(expr, "0 .. 3");
        3
    }
    fn bind(&mut self, k: usize) {
        self.loop_i = Some(k as i32);
    }
    fn end_loop(&mut self) {
        self.loop_i = None;
    }
    fn arm(&mut self, expr: &str, pat: &str) -> bool {
        assert_eq!(expr, "! cond");
        match pat {
            "true" => !self.cond,
            "false" => self.cond,
            _ => panic!("unknown pattern {pat}"),
        }
    }
}

#[test]
fn control() {
    let maud = r#"
        div {
            @if cond {
                span { "branch 1" }
            } @else {
                span { "branch 2" }
            }


            @match !cond {
                true => span { "branch 1" },
                false => span { "branch 2" },
            }

            @for i in 0..3 {
                span { (i) }
            }

            @let mut i = 3;

            @while i < 6 {
                span { (i) }
                (i += 1)
            }
        }
    "#;
    let rsx = r#"
        <div>
            @if cond {
                <span>branch 1</span>
            } @else {
                <span>branch 2</span>
            }

            @match !cond {
                true => {
                    <span>branch 1</span>
                },
                false => <span>branch 2</span>,
            }

            @for i in 0..3 {
                <span>(i)</span>
            }

            @let mut i = 3;

            @while i < 6 {
                <span>(i)</span>
                (i += 1)
            }
        </div>
    "#;
    let results = [
        render_with(maud, Mode::Maud, &mut Flow { cond: true, i: 0, loop_i: None }),
        render_with(rsx, Mode::Rsx, &mut Flow { cond: true, i: 0, loop_i: None }),
    ];

    for result in results {
        assert_eq!(
            result,
            Rendered(
                "<div><span>branch 1</span><span>branch 2</span><span>0</span><span>1</span><span>2</span><span>3</span><span>4</span><span>5</span></div>"
                    .to_string()
            )
        );
    }
}

struct Borrowed<'a> {
    s: &'a String,
}

impl Host for Borrowed<'_> {
    fn render(&mut self, expr: &str, ctx: Context, buf: &mut Buffer) {
        assert_eq!(expr, "s");
        put(self.s, ctx, buf);
    }
}

#[test]
fn borrow() {
    let s = "Hello, world!".to_owned();
    let maud_result = render_with("span { (s) }", Mode::Maud, &mut Borrowed { s: &s });
    let rsx_result = render_with("<span>(s)</span>", Mode::Rsx, &mut Borrowed { s: &s });
    // `s` is still usable: the templates only borrowed it
    let expected = Rendered(format!("<span>{s}</span>"));

    assert_eq!(maud_result, expected);
    assert_eq!(rsx_result, expected);
}

#[test]
fn void_elements() {
    let maud_result = static_html(
        r#"
        div {
            input type="text" name="username";
            input type="password" name="password";
            input type="submit" value="Login";
        }
        "#,
        Mode::Maud,
    );

    let rsx_result = static_html(
        r#"
        <div>
            <input type="text" name="username">
            <input type="password" name="password">
            <input type="submit" value="Login">
        </div>
        "#,
        Mode::Rsx,
    );

    for result in [maud_result, rsx_result] {
        assert_eq!(
            result,
            Rendered(
                r#"<div><input type="text" name="username"><input type="password" name="password"><input type="submit" value="Login"></div>"#
                    .to_string()
            )
        );
    }
}

#[test]
fn htmx() {
    let tests = [
        (static_html(r#"div hx-get="/api/endpoint" { "Hello, world!" }"#, Mode::Maud), r#"<div hx-get="/api/endpoint">Hello, world!</div>"#),
        (static_html(r#"<div hx-get="/api/endpoint">"Hello, world!"</div>"#, Mode::Rsx), r#"<div hx-get="/api/endpoint">Hello, world!</div>"#),
        (static_html(r#"div hx-post="/api/endpoint" { "Hello, world!" }"#, Mode::Maud), r#"<div hx-post="/api/endpoint">Hello, world!</div>"#),
        (static_html(r#"<div hx-post="/api/endpoint">"Hello, world!"</div>"#, Mode::Rsx), r#"<div hx-post="/api/endpoint">Hello, world!</div>"#),
        (
            static_html(r#"div hx-on:click="this.classList.toggle('active')" { "Hello, world!" }"#, Mode::Maud),
            r#"<div hx-on:click="this.classList.toggle('active')">Hello, world!</div>"#,
        ),
        (
            static_html(r#"<div hx-on:click="this.classList.toggle('active')">"Hello, world!"</div>"#, Mode::Rsx),
            r#"<div hx-on:click="this.classList.toggle('active')">Hello, world!</div>"#,
        ),
        (
            static_html(
                r#"
                div {
                    form hx-post="/login" hx-on::after-request="this.reset()" {
                        input type="text" name="username";
                        input type="password" name="password";
                        input type="submit" value="Login";
                }
                }
                "#,
                Mode::Maud,
            ),
            r#"<div><form hx-post="/login" hx-on::after-request="this.reset()"><input type="text" name="username"><input type="password" name="password"><input type="submit" value="Login"></form></div>"#,
        ),
        (
            static_html(
                r#"
                <div>
                    <form hx-post="/login" hx-on::after-request="this.reset()">
                        <input type="text" name="username">
                        <input type="password" name="password">
                        <input type="submit" value="Login">
                    </form>
                </div>
                "#,
                Mode::Rsx,
            ),
            r#"<div><form hx-post="/login" hx-on::after-request="this.reset()"><input type="text" name="username"><input type="password" name="password"><input type="submit" value="Login"></form></div>"#,
        ),
    ];

    for (result, expected) in tests {
        assert_eq!(result, Rendered(expected.to_string()));
    }
}

#[test]
fn statics() {
    let raw = |src: &str, mode: Mode| -> Raw<String> {
        Raw::dangerously_create(static_html(src, mode).0)
    };
    let maud_raw = raw(
        r#"
        div #profile title="Profile" {
            h1 { "Hello, world!" }
        }
        "#,
        Mode::Maud,
    );
    let rsx_raw = raw(
        r#"
        <div id="profile" title="Profile">
            <h1>"Hello, world!"</h1>
        </div>
        "#,
        Mode::Rsx,
    );

    const EXPECTED: &str = r#"<div id="profile" title="Profile"><h1>Hello, world!</h1></div>"#;

    for result in [maud_raw, rsx_raw] {
        assert!(result == Raw::dangerously_create(EXPECTED.to_string()));
        assert_eq!(result.rendered(), Rendered(EXPECTED.to_string()));
    }
}

/// Renders `(c)` with a value rendered beforehand.
struct Wrapped {
    c: Raw<String>,
}

impl Host for Wrapped {
    fn render(&mut self, expr: &str, ctx: Context, buf: &mut Buffer) {
        assert_eq!(expr, "c");
        assert_eq!(ctx, Context::Node);
        self.c.render_to(buf);
    }
}

struct Components;

impl Components {
    fn component() -> Raw<String> {
        Raw::dangerously_create(static_html(r#"span { "Hello, world!" }"#, Mode::Maud).0)
    }
}

impl Host for Components {
    fn render(&mut self, expr: &str, ctx: Context, buf: &mut Buffer) {
        assert_eq!(ctx, Context::Node);
        let value = match expr {
            "component ()" => Components::component(),
            "wrapping_component_maud (component ())" => Raw::dangerously_create(
                render_with("div { (c) }", Mode::Maud, &mut Wrapped { c: Components::component() }).0,
            ),
            "wrapping_component_rsx (component ())" => Raw::dangerously_create(
                render_with("<div>(c)</div>", Mode::Rsx, &mut Wrapped { c: Components::component() }).0,
            ),
            _ => panic!("unknown expression {expr}"),
        };
        value.render_to(buf);
    }
}

#[test]
fn components() {
    let result = render_with(
        r#"
        div {
            (component())
            (wrapping_component_maud(component()))
            (wrapping_component_rsx(component()))
        }
        "#,
        Mode::Maud,
        &mut Components,
    );

    assert_eq!(
        result,
        Rendered(
            r"<div><span>Hello, world!</span><div><span>Hello, world!</span></div><div><span>Hello, world!</span></div></div>"
                .to_string()
        )
    );
}

/// The `Repeater` component: its children, `count` times.
struct Repeater;

impl Host for Repeater {
    fn render(&mut self, expr: &str, _ctx: Context, _buf: &mut Buffer) {
        panic!("unknown expression {expr}")
    }
    fn component(&mut self, name: &str, fields: &[(String, String)]) -> usize {
        assert_eq!(name, "Repeater");
        assert_eq!(fields, &[("count".to_string(), "3".to_string())]);
        3
    }
}

#[test]
fn component() {
    let maud_result = render_with(
        r#"
        div {
            Repeater count=3 {
                span { "Hello, world!" }
            }
        }
        "#,
        Mode::Maud,
        &mut Repeater,
    );

    let rsx_result = render_with(
        r#"
        <div>
            <Repeater count=3>
                <span>"Hello, world!"</span>
            </Repeater>
        </div>
        "#,
        Mode::Rsx,
        &mut Repeater,
    );

    for result in [maud_result, rsx_result] {
        assert_eq!(
            result,
            Rendered(
                "<div><span>Hello, world!</span><span>Hello, world!</span><span>Hello, world!</span></div>"
                    .to_string()
            )
        );
    }
}

#[test]
fn quoted_attribute_name() {
    let src = r#"div "custom-attribute"="value" { "Hello, world!" }"#;
    assert_eq!(
        static_html(src, Mode::Maud),
        Rendered(r#"<div custom-attribute="value">Hello, world!</div>"#.to_string())
    );
    let doc = parse(tokens(src), Mode::Maud).expect("template reads");
    let (checks, _) = lazy(doc, Context::Node);
    assert_eq!(checks.len(), 1);
    assert_eq!(checks[0].ident, "div");
    assert!(checks[0].attributes.is_empty());
}

/// The body of the components of the builder tests.
struct ElementBody {
    id: String,
    tabindex: u32,
    children: String,
}

impl Host for ElementBody {
    fn render(&mut self, expr: &str, ctx: Context, buf: &mut Buffer) {
        match expr {
            "id" => put(&self.id, ctx, buf),
            "tabindex" => put(&self.tabindex, ctx, buf),
            "children" => Raw::<&str>::dangerously_create(self.children.as_str()).render_to(buf),
            _ => panic!("unknown expression {expr}"),
        }
    }
}

/// Components with the fields `id`, `tabindex` and `children` whose body is
/// `<div id=(id) tabindex=(tabindex)> (children) </div>`; `defaults` gives
/// the values each component's builder or `Default` supplies.
struct Elements {
    defaults: fn(&str) -> (&'static str, u32),
}

impl Host for Elements {
    fn render(&mut self, expr: &str, _ctx: Context, _buf: &mut Buffer) {
        panic!("unknown expression {expr}")
    }
    fn builds_components(&self) -> bool {
        true
    }
    fn instantiate(&mut self, name: &str, fields: &[(String, String)], children: Option<&str>) -> String {
        let (id, tabindex) = (self.defaults)(name);
        let mut body = ElementBody { id: id.to_string(), tabindex, children: children.unwrap_or("").to_string() };
        for (field, value) in fields {
            match field.as_str() {
                "id" => body.id = value.trim_matches('"').to_string(),
                "tabindex" => body.tabindex = value.parse().expect("a number"),
                _ => panic!("no field {field}"),
            }
        }
        render_with("<div id=(id) tabindex=(tabindex)> (children) </div>", Mode::Rsx, &mut body).0
    }
}

/// The struct of a component function with the parameters `id: &'a str`,
/// `tabindex: u32` and `children: Lazy<fn(&mut Buffer)>`.
fn element_struct(fn_name: &str) -> ComponentStruct {
    let typed = |name: &str, ty: &str, reference: Option<Reference>| Param::Typed {
        name: name.to_string(),
        ty: tokens(ty),
        reference,
    };
    generate(
        fn_name,
        vec![
            typed("id", "&'a str", Some(Reference { mutable: false, lifetime: true, elem: tokens("str") })),
            typed("tabindex", "u32", None),
            typed("children", "Lazy<fn(&mut Buffer)>", None),
        ],
    )
    .expect("a component")
}

#[test]
fn default() {
    for (f, name) in [("element_a", "ElementA"), ("element_b", "ElementB"), ("element_c", "ElementC"), ("element_d", "ElementD")] {
        let s = element_struct(f);
        assert_eq!(s.name, name);
        let fields: Vec<&str> = s.fields.iter().map(|x| x.name.as_str()).collect();
        assert_eq!(fields, ["id", "tabindex", "children"]);
    }
    // `#[builder(default = 1)]` or a `Default` impl giving 1 for A, B and C;
    // `#[derive(Default)]`, giving 0, for D.
    let defaults: fn(&str) -> (&'static str, u32) = |name| if name == "ElementD" { ("", 0) } else { ("", 1) };
    let both = |maud: &str, rsx: &str| {
        (
            render_with(maud, Mode::Maud, &mut Elements { defaults }),
            render_with(rsx, Mode::Rsx, &mut Elements { defaults }),
        )
    };

    let (maud_result, rsx_result) = both(
        "ElementA; ElementB; ElementC; ElementD;",
        "<ElementA /> <ElementB /> <ElementC /> <ElementD />",
    );
    let element_html = r#"<div id="" tabindex="1"></div>"#;
    let expected_result = format!(r#"{}<div id="" tabindex="0"></div>"#, element_html.repeat(3));
    assert_eq!(maud_result.as_inner(), &expected_result);
    assert_eq!(rsx_result.as_inner(), &expected_result);

    let (maud_result, rsx_result) = both(
        r#"ElementA id="test"; ElementB id="test"; ElementC id="test"; ElementD id="test";"#,
        r#"<ElementA id="test" /> <ElementB id="test" /> <ElementC id="test" /> <ElementD id="test" />"#,
    );
    let element_html = r#"<div id="test" tabindex="1"></div>"#;
    let expected_result = format!(r#"{}<div id="test" tabindex="0"></div>"#, element_html.repeat(3));
    assert_eq!(maud_result.as_inner(), &expected_result);
    assert_eq!(rsx_result.as_inner(), &expected_result);

    let (maud_result, rsx_result) = both(
        r#"
        ElementA { h1 { "hello" } }
        ElementB { h1 { "hello" } }
        ElementC { h1 { "hello" } }
        ElementD { h1 { "hello" } }
        "#,
        r#"
        <ElementA><h1>hello</h1></ElementA>
        <ElementB><h1>hello</h1></ElementB>
        <ElementC><h1>hello</h1></ElementC>
        <ElementD><h1>hello</h1></ElementD>
        "#,
    );
    let element_html = r#"<div id="" tabindex="1"><h1>hello</h1></div>"#;
    let expected_result = format!(r#"{}<div id="" tabindex="0"><h1>hello</h1></div>"#, element_html.repeat(3));
    assert_eq!(maud_result.as_inner(), &expected_result);
    assert_eq!(rsx_result.as_inner(), &expected_result);

    let (maud_result, rsx_result) = both(
        r#"
        ElementA tabindex=2 id="element" { h1 { "hello" } }
        ElementB tabindex=2 id="element" { h1 { "hello" } }
        ElementC tabindex=2 id="element" { h1 { "hello" } }
        ElementD tabindex=2 id="element" { h1 { "hello" } }
        "#,
        r#"
        <ElementA tabindex=2 id="element"><h1>hello</h1></ElementA>
        <ElementB tabindex=2 id="element"><h1>hello</h1></ElementB>
        <ElementC tabindex=2 id="element"><h1>hello</h1></ElementC>
        <ElementD tabindex=2 id="element"><h1>hello</h1></ElementD>
        "#,
    );
    let element_html = r#"<div id="element" tabindex="2"><h1>hello</h1></div>"#;
    let expected_result = element_html.repeat(4);
    assert_eq!(maud_result.as_inner(), &expected_result);
    assert_eq!(rsx_result.as_inner(), &expected_result);

    let (maud_result, rsx_result) = both(
        r#"
        ElementA { ElementA id="nested" { h1 { "hello" } } }
        ElementB { ElementB id="nested" { h1 { "hello" } } }
        ElementC { ElementC id="nested" { h1 { "hello" } } }
        ElementD { ElementD id="nested" { h1 { "hello" } } }
        "#,
        r#"
        <ElementA><ElementA id="nested"><h1>"hello"</h1></ElementA></ElementA>
        <ElementB><ElementB id="nested"><h1>"hello"</h1></ElementB></ElementB>
        <ElementC><ElementC id="nested"><h1>"hello"</h1></ElementC></ElementC>
        <ElementD><ElementD id="nested"><h1>"hello"</h1></ElementD></ElementD>
        "#,
    );
    let element_html =
        r#"<div id="" tabindex="1"><div id="nested" tabindex="1"><h1>hello</h1></div></div>"#;
    let expected_result = format!(
        r#"{}<div id="" tabindex="0"><div id="nested" tabindex="0"><h1>hello</h1></div></div>"#,
        element_html.repeat(3)
    );
    assert_eq!(maud_result.as_inner(), &expected_result);
    assert_eq!(rsx_result.as_inner(), &expected_result);
}

#[test]
fn custom() {
    assert_eq!(element_struct("element_a").name, "ElementA");
    // A hand-written builder and `#[builder(default = ...)]` both give
    // `id = "custom"` and `tabindex = 2`.
    let defaults: fn(&str) -> (&'static str, u32) = |_| ("custom", 2);
    let both = |maud: &str, rsx: &str| {
        (
            render_with(maud, Mode::Maud, &mut Elements { defaults }),
            render_with(rsx, Mode::Rsx, &mut Elements { defaults }),
        )
    };

    let (maud_result, rsx_result) = both("ElementA; ElementB;", "<ElementA /> <ElementB />");
    let expected_result = r#"<div id="custom" tabindex="2"></div>"#.repeat(2);
    assert_eq!(maud_result.as_inner(), &expected_result);
    assert_eq!(rsx_result.as_inner(), &expected_result);

    let (maud_result, rsx_result) =
        both(r#"ElementA id="test"; ElementB id="test";"#, r#"<ElementA id="test" /> <ElementB id="test" />"#);
    let expected_result = r#"<div id="test" tabindex="2"></div>"#.repeat(2);
    assert_eq!(maud_result.as_inner(), &expected_result);
    assert_eq!(rsx_result.as_inner(), &expected_result);

    let (maud_result, rsx_result) = both(
        r#"ElementA { h1 { "hello" } } ElementB { h1 { "hello" } }"#,
        r#"<ElementA><h1>hello</h1></ElementA> <ElementB><h1>hello</h1></ElementB>"#,
    );
    let expected_result = r#"<div id="custom" tabindex="2"><h1>hello</h1></div>"#.repeat(2);
    assert_eq!(maud_result.as_inner(), &expected_result);
    assert_eq!(rsx_result.as_inner(), &expected_result);

    let (maud_result, rsx_result) = both(
        r#"ElementA tabindex=1 id="element" { h1 { "hello" } } ElementB tabindex=1 id="element" { h1 { "hello" } }"#,
        r#"<ElementA tabindex=1 id="element"><h1>hello</h1></ElementA> <ElementB tabindex=1 id="element"><h1>hello</h1></ElementB>"#,
    );
    let expected_result = r#"<div id="element" tabindex="1"><h1>hello</h1></div>"#.repeat(2);
    assert_eq!(maud_result.as_inner(), &expected_result);
    assert_eq!(rsx_result.as_inner(), &expected_result);

    let (maud_result, rsx_result) = both(
        r#"
        ElementA { ElementA id="nested" { h1 { "hello" } } }
        ElementB { ElementB id="nested" { h1 { "hello" } } }
        "#,
        r#"
        <ElementA><ElementA id="nested"><h1>"hello"</h1></ElementA></ElementA>
        <ElementB><ElementB id="nested"><h1>"hello"</h1></ElementB></ElementB>
        "#,
    );
    let expected_result =
        r#"<div id="custom" tabindex="2"><div id="nested" tabindex="2"><h1>hello</h1></div></div>"#.repeat(2);
    assert_eq!(maud_result.as_inner(), &expected_result);
    assert_eq!(rsx_result.as_inner(), &expected_result);
}
