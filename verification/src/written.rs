//! What generated code writes: the text of its pushes, with each value it
//! renders standing for a given text, and the laws of attribute quoting.
use vstd::prelude::*;

use crate::generate::{merge_parts, Context, PartV, StatementV, StmtV};
use crate::names::{fragments_text, AttributeName, NameFragment, UnquotedName};
use crate::node::{attr_gen, attr_name_parts, attr_open, name_parts, text_part, Attribute};

verus! {

/// What statements write when each value they render (`RenderValue`)
/// renders as `v`; other dynamic statements are left out.
pub open spec fn written_with(s: Seq<StatementV>, v: Seq<char>) -> Seq<char>
    decreases s.len(),
{
    if s.len() == 0 {
        Seq::empty()
    } else {
        written_with(s.drop_last(), v) + match s.last() {
            StatementV::PushStr(t) => t,
            StatementV::Stmt(StmtV::RenderValue { .. }) => v,
            StatementV::Stmt(_) => Seq::empty(),
        }
    }
}

/// What parts write when each value they render renders as `v`.
pub open spec fn parts_written_with(p: Seq<PartV>, v: Seq<char>) -> Seq<char>
    decreases p.len(),
{
    if p.len() == 0 {
        Seq::empty()
    } else {
        parts_written_with(p.drop_last(), v) + match p.last() {
            PartV::Static(t) => t,
            PartV::Dynamic(StmtV::RenderValue { .. }) => v,
            PartV::Dynamic(_) => Seq::empty(),
        }
    }
}

/// What parts write, one after the other.
proof fn lemma_parts_written_concat(a: Seq<PartV>, b: Seq<PartV>, v: Seq<char>)
    ensures
        parts_written_with(a + b, v) == parts_written_with(a, v) + parts_written_with(b, v),
    decreases b.len(),
{
    if b.len() == 0 {
        assert(a + b =~= a);
    } else {
        lemma_parts_written_concat(a, b.drop_last(), v);
        assert((a + b).drop_last() =~= a + b.drop_last());
    }
}

/// Merging static parts keeps what they write.
proof fn lemma_merge_keeps_writing(parts: Seq<PartV>, v: Seq<char>)
    ensures
        written_with(merge_parts(parts), v) == parts_written_with(parts, v),
    decreases parts.len(),
{
    if parts.len() > 0 {
        let q = parts.drop_last();
        lemma_merge_keeps_writing(q, v);
        let prev = merge_parts(q);
        match parts.last() {
            PartV::Static(t) => {
                if prev.len() > 0 && prev.last() is PushStr {
                    let u = prev.last()->PushStr_0;
                    let merged = prev.drop_last().push(StatementV::PushStr(u + t));
                    assert(merged.drop_last() =~= prev.drop_last());
                    assert(written_with(prev, v) == written_with(prev.drop_last(), v) + u);
                    assert(written_with(merged, v) =~= written_with(prev.drop_last(), v) + (u + t));
                } else {
                    let merged = prev.push(StatementV::PushStr(t));
                    assert(merged.drop_last() =~= prev);
                }
            },
            PartV::Dynamic(d) => {
                let merged = prev.push(StatementV::Stmt(d));
                assert(merged.drop_last() =~= prev);
            },
        }
    }
}

/// A static part writes its text.
proof fn lemma_text_part_writes(t: Seq<char>, v: Seq<char>)
    ensures
        parts_written_with(text_part(t), v) == t,
{
    reveal_with_fuel(parts_written_with, 2);
    assert(text_part(t).drop_last() =~= Seq::<PartV>::empty());
    assert(parts_written_with(text_part(t), v) =~= t);
}

/// The parts of a name write the name as written.
proof fn lemma_name_parts_write(name: UnquotedName, v: Seq<char>)
    ensures
        parts_written_with(name_parts(name), v) == name.text(),
{
    lemma_fragments_write(name.0@, v);
    assert(name_parts(name) =~= frag_parts(name.0@));
}

/// The parts of fragments, one each.
spec fn frag_parts(fs: Seq<NameFragment>) -> Seq<PartV> {
    Seq::new(fs.len(), |i: int| PartV::Static(fs[i].text()))
}

proof fn lemma_fragments_write(fs: Seq<NameFragment>, v: Seq<char>)
    ensures
        parts_written_with(frag_parts(fs), v) == fragments_text(fs),
    decreases fs.len(),
{
    if fs.len() > 0 {
        lemma_fragments_write(fs.drop_last(), v);
        assert(frag_parts(fs).drop_last() =~= frag_parts(fs.drop_last()));
    }
}

/// The parts of an attribute name write the name as written.
proof fn lemma_attr_name_parts_write(name: AttributeName, v: Seq<char>)
    ensures
        parts_written_with(attr_name_parts(name), v) == name.text(),
{
    match name {
        AttributeName::Data { rest } => {
            lemma_name_parts_write(rest, v);
            lemma_parts_written_concat(text_part("data"@) + text_part("-"@), name_parts(rest), v);
            lemma_parts_written_concat(text_part("data"@), text_part("-"@), v);
            lemma_text_part_writes("data"@, v);
            lemma_text_part_writes("-"@, v);
            reveal_strlit("data");
            reveal_strlit("-");
            reveal_strlit("data-");
            assert("data"@ + "-"@ =~= "data-"@);
        },
        AttributeName::Namespace { namespace, rest } => {
            lemma_name_parts_write(namespace, v);
            lemma_name_parts_write(rest, v);
            lemma_parts_written_concat(name_parts(namespace) + text_part(":"@), name_parts(rest), v);
            lemma_parts_written_concat(name_parts(namespace), text_part(":"@), v);
            lemma_text_part_writes(":"@, v);
            reveal_strlit(":");
        },
        AttributeName::Symbol { symbol, rest } => {
            lemma_name_parts_write(rest, v);
            lemma_parts_written_concat(text_part(symbol.text()), name_parts(rest), v);
            lemma_text_part_writes(symbol.text(), v);
        },
        AttributeName::Normal(n) => {
            lemma_name_parts_write(n, v);
        },
        AttributeName::Quoted(q) => {
            lemma_text_part_writes(q@, v);
        },
    }
}

/// An optional attribute `name=[option]` writes nothing when the option is
/// `None` and ` name="value"` when it holds a value: its code is one
/// `if let Some(value) = option` whose block, the value rendering as `v`,
/// writes a space, the name as written, `="`, `v`, and the closing `"`.
pub proof fn lemma_optional_attribute_is_quoted(a: Attribute, g: Context, v: Seq<char>)
    requires
        a.kind is Option,
    ensures
        attr_gen(a, g).parts.len() == 1,
        attr_gen(a, g).checks.len() == 0,
        attr_gen(a, g).parts[0] matches PartV::Dynamic(StmtV::IfSome { option, then_block })
            && option == a.kind->Option_0.expr && written_with(then_block, v) == seq![' ']
            + a.name.text() + seq!['=', '"'] + v + seq!['"'],
{
    let name = a.name;
    let value = seq![PartV::Dynamic(StmtV::RenderValue { context: Context::AttributeValue, buffer: g })];
    let parts = attr_open(name) + value + text_part("\""@);
    lemma_merge_keeps_writing(parts, v);
    lemma_attr_name_parts_write(name, v);
    lemma_parts_written_concat(text_part(" "@), attr_name_parts(name), v);
    lemma_parts_written_concat(text_part(" "@) + attr_name_parts(name), text_part("=\""@), v);
    lemma_parts_written_concat(attr_open(name), value, v);
    lemma_parts_written_concat(attr_open(name) + value, text_part("\""@), v);
    lemma_text_part_writes(" "@, v);
    lemma_text_part_writes("=\""@, v);
    lemma_text_part_writes("\""@, v);
    assert(value.drop_last() =~= Seq::<PartV>::empty());
    assert(parts_written_with(value, v) =~= v) by {
        reveal_with_fuel(parts_written_with, 2);
    }
    reveal_strlit(" ");
    reveal_strlit("=\"");
    reveal_strlit("\"");
    assert(written_with(merge_parts(parts), v) =~= seq![' '] + a.name.text() + seq!['=', '"'] + v
        + seq!['"']);
}

} // verus!
