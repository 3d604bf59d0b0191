//! Looking at and taking tokens from the front of a sequence, and reading
//! names, literals and the Rust code a template carries as tokens.
use vstd::prelude::*;

use super::grammar::{
    attr_name_view, frag_is_punct, frag_view, group_tokens, is_group, is_joint_punct, is_lit,
    is_punct, is_suffix, is_unsuffixed, is_word, name_view, s_attr_name, s_frag, s_name, s_name_any,
    s_name_tail, s_toggle, s_until_arrow, s_until_brace, s_until_semi, s_until_word, seq_size,
    skip, toggle_view, tree_size, FragV,
};
use crate::names::{AttributeName, AttributeSymbol, NameFragment, UnquotedName};
use crate::node::Toggle;
use crate::text::str_eq;
use crate::tokens::{Delimiter, Lit, LitKind, Spacing, TokenTree};

verus! {

/// What was wrong where reading stopped.
#[derive(Debug, Clone, Copy, PartialEq, Eq)]
pub enum ParseErrorKind {
    /// The tokens ended where more were expected.
    UnexpectedEnd,
    /// A token that cannot stand where it does.
    UnexpectedToken,
}

/// Tokens that do not form a template of the expected syntax: what was
/// wrong, and where: how many tokens of the sequence being read (the whole
/// template, or the group reading had entered) were left unread.
#[derive(Debug, Clone, Copy, PartialEq, Eq)]
pub struct ParseError {
    /// What was wrong.
    pub kind: ParseErrorKind,
    /// The number of tokens left unread, the offending one first.
    pub remaining: usize,
}

/// The error for reading that stops at the front of `toks`.
pub fn unexpected(toks: &Vec<TokenTree>) -> (e: ParseError)
    ensures
        e.remaining == toks@.len(),
        e.kind == (if toks@.len() == 0 {
            ParseErrorKind::UnexpectedEnd
        } else {
            ParseErrorKind::UnexpectedToken
        }),
{
    let remaining = toks.len();
    if remaining == 0 {
        ParseError { kind: ParseErrorKind::UnexpectedEnd, remaining }
    } else {
        ParseError { kind: ParseErrorKind::UnexpectedToken, remaining }
    }
}

// ---------------------------------------------------------------------------
// Sizes

/// Dropping tokens from the front leaves a suffix no larger, and smaller
/// when some are dropped.
pub proof fn lemma_skip_size(ts: Seq<TokenTree>, k: int)
    requires
        0 <= k <= ts.len(),
    ensures
        is_suffix(skip(ts, k), ts),
        seq_size(skip(ts, k)) <= seq_size(ts),
        k > 0 ==> seq_size(skip(ts, k)) < seq_size(ts),
    decreases k,
{
    if k > 0 {
        let t1 = ts.subrange(1, ts.len() as int);
        assert(seq_size(ts) == tree_size(ts[0]) + seq_size(t1));
        lemma_skip_size(t1, k - 1);
        assert(skip(t1, k - 1) =~= skip(ts, k));
    } else {
        assert(skip(ts, 0) =~= ts);
    }
    assert(skip(ts, k) =~= ts.subrange(ts.len() - skip(ts, k).len(), ts.len() as int));
}

/// A suffix is no larger, and smaller when shorter.
pub proof fn lemma_suffix_size(r: Seq<TokenTree>, ts: Seq<TokenTree>)
    requires
        is_suffix(r, ts),
    ensures
        seq_size(r) <= seq_size(ts),
        r.len() < ts.len() ==> seq_size(r) < seq_size(ts),
{
    assert(r =~= skip(ts, ts.len() - r.len()));
    lemma_skip_size(ts, ts.len() - r.len());
}

/// A suffix of a suffix is a suffix.
pub proof fn lemma_suffix_trans(a: Seq<TokenTree>, b: Seq<TokenTree>, c: Seq<TokenTree>)
    requires
        is_suffix(a, b),
        is_suffix(b, c),
    ensures
        is_suffix(a, c),
{
    assert(a =~= c.subrange(c.len() - a.len(), c.len() as int));
}

/// The tokens of the first group are fewer than the whole.
pub proof fn lemma_group_size(ts: Seq<TokenTree>)
    requires
        ts.len() > 0,
    ensures
        seq_size(group_tokens(ts[0])) < seq_size(ts),
{
    assert(seq_size(ts) == tree_size(ts[0]) + seq_size(ts.subrange(1, ts.len() as int)));
}

/// The tokens of the first group of a suffix are fewer than the whole.
pub proof fn lemma_suffix_group_size(r: Seq<TokenTree>, ts: Seq<TokenTree>)
    requires
        is_suffix(r, ts),
        r.len() > 0,
    ensures
        seq_size(group_tokens(r[0])) < seq_size(ts),
{
    lemma_group_size(r);
    lemma_suffix_size(r, ts);
}

// ---------------------------------------------------------------------------
// Looking at tokens

/// Whether two delimiters are the same.
pub fn same_delimiter(a: Delimiter, b: Delimiter) -> (r: bool)
    ensures
        r == (a == b),
{
    match (a, b) {
        (Delimiter::Parenthesis, Delimiter::Parenthesis) => true,
        (Delimiter::Brace, Delimiter::Brace) => true,
        (Delimiter::Bracket, Delimiter::Bracket) => true,
        (Delimiter::Invisible, Delimiter::Invisible) => true,
        _ => false,
    }
}

/// Whether two literal kinds are the same.
pub fn same_lit_kind(a: LitKind, b: LitKind) -> (r: bool)
    ensures
        r == (a == b),
{
    match (a, b) {
        (LitKind::Str, LitKind::Str) => true,
        (LitKind::Int, LitKind::Int) => true,
        (LitKind::Float, LitKind::Float) => true,
        (LitKind::Char, LitKind::Char) => true,
        (LitKind::Other, LitKind::Other) => true,
        _ => false,
    }
}

/// Whether token `i` is the punctuation character `c`.
pub fn punct_at(toks: &Vec<TokenTree>, i: usize, c: char) -> (r: bool)
    ensures
        r == (i < toks@.len() && is_punct(toks@[i as int], c)),
{
    if i < toks.len() {
        match &toks[i] {
            TokenTree::Punct(x, _) => *x == c,
            _ => false,
        }
    } else {
        false
    }
}

/// Whether token `i` is `c` directly followed by more punctuation.
pub fn joint_punct_at(toks: &Vec<TokenTree>, i: usize, c: char) -> (r: bool)
    ensures
        r == (i < toks@.len() && is_joint_punct(toks@[i as int], c)),
{
    if i < toks.len() {
        match &toks[i] {
            TokenTree::Punct(x, Spacing::Joint) => *x == c,
            _ => false,
        }
    } else {
        false
    }
}

/// Whether token `i` is the identifier `w`.
pub fn word_at(toks: &Vec<TokenTree>, i: usize, w: &str) -> (r: bool)
    ensures
        r == (i < toks@.len() && is_word(toks@[i as int], w@)),
{
    if i < toks.len() {
        match &toks[i] {
            TokenTree::Ident(x) => str_eq(x.as_str(), w),
            _ => false,
        }
    } else {
        false
    }
}

/// Whether token `i` is an identifier.
pub fn ident_at(toks: &Vec<TokenTree>, i: usize) -> (r: bool)
    ensures
        r == (i < toks@.len() && toks@[i as int] is Ident),
{
    if i < toks.len() {
        match &toks[i] {
            TokenTree::Ident(_) => true,
            _ => false,
        }
    } else {
        false
    }
}

/// Whether token `i` is a group with delimiter `d`.
pub fn group_at(toks: &Vec<TokenTree>, i: usize, d: Delimiter) -> (r: bool)
    ensures
        r == (i < toks@.len() && is_group(toks@[i as int], d)),
{
    if i < toks.len() {
        match &toks[i] {
            TokenTree::Group(x, _) => same_delimiter(*x, d),
            _ => false,
        }
    } else {
        false
    }
}

/// Whether token `i` is a literal of kind `k`.
pub fn lit_at(toks: &Vec<TokenTree>, i: usize, k: LitKind) -> (r: bool)
    ensures
        r == (i < toks@.len() && is_lit(toks@[i as int], k)),
{
    if i < toks.len() {
        match &toks[i] {
            TokenTree::Literal(l) => same_lit_kind(l.kind, k),
            _ => false,
        }
    } else {
        false
    }
}

/// Whether token `i` is a literal without a suffix.
pub fn unsuffixed_at(toks: &Vec<TokenTree>, i: usize) -> (r: bool)
    ensures
        r == (i < toks@.len() && is_unsuffixed(toks@[i as int])),
{
    if i < toks.len() {
        match &toks[i] {
            TokenTree::Literal(l) => l.suffix.as_str().is_empty(),
            _ => false,
        }
    } else {
        false
    }
}

/// Takes the first token.
pub fn take(toks: &mut Vec<TokenTree>) -> (t: TokenTree)
    requires
        old(toks)@.len() > 0,
    ensures
        t == old(toks)@[0],
        final(toks)@ == skip(old(toks)@, 1),
{
    let t = toks.remove(0);
    assert(old(toks)@.remove(0) =~= skip(old(toks)@, 1));
    t
}

/// Takes the first token, a group, and gives its tokens.
pub fn take_group(toks: &mut Vec<TokenTree>) -> (inner: Vec<TokenTree>)
    requires
        old(toks)@.len() > 0,
    ensures
        inner@ == group_tokens(old(toks)@[0]),
        final(toks)@ == skip(old(toks)@, 1),
{
    match take(toks) {
        TokenTree::Group(_, inner) => inner,
        _ => Vec::new(),
    }
}

/// Drops the first `n` tokens.
pub fn drop_front(toks: &mut Vec<TokenTree>, n: usize)
    requires
        n <= old(toks)@.len(),
    ensures
        final(toks)@ == skip(old(toks)@, n as int),
{
    let mut i: usize = 0;
    while i < n
        invariant
            i <= n,
            n <= old(toks)@.len(),
            toks@ == skip(old(toks)@, i as int),
        decreases n - i,
    {
        take(toks);
        assert(skip(skip(old(toks)@, i as int), 1) =~= skip(old(toks)@, i + 1));
        i += 1;
    }
}

// ---------------------------------------------------------------------------
// Names

/// The abstract form of fragments.
pub open spec fn frags_view(fs: Seq<NameFragment>) -> Seq<FragV> {
    fs.map_values(|f: NameFragment| frag_view(f))
}

/// Fragments with neither colons nor dots.
pub open spec fn frags_plain(fs: Seq<NameFragment>) -> bool {
    forall|i: int| 0 <= i < fs.len() ==> !(#[trigger] fs[i] is Colon) && !(fs[i] is Dot)
}

/// The fragment a token stands for in a name.
pub fn read_frag(t: TokenTree) -> (r: Option<NameFragment>)
    ensures
        match s_frag(t) {
            Some(f) => r matches Some(x) && frag_view(x) == f && (f is Ident || f is Number
                || f is Hyphen ==> !(x is Colon) && !(x is Dot)),
            None => r is None,
        },
{
    match t {
        TokenTree::Ident(s) => Some(NameFragment::Ident(s)),
        TokenTree::Literal(l) => {
            let Lit { kind, text, value: _, suffix } = l;
            if same_lit_kind(kind, LitKind::Int) && suffix.as_str().unicode_len() == 0 {
                Some(NameFragment::Number(text))
            } else {
                None
            }
        },
        TokenTree::Punct(c, _) => if c == '-' {
            Some(NameFragment::Hyphen)
        } else if c == ':' {
            Some(NameFragment::Colon)
        } else if c == '.' {
            Some(NameFragment::Dot)
        } else {
            None
        },
        _ => None,
    }
}

/// The rest of a name whose fragments so far are `acc`.
#[verifier::loop_isolation(false)]
pub fn read_name_tail(toks: &mut Vec<TokenTree>, acc: Vec<NameFragment>, any: bool) -> (r: Result<
    Vec<NameFragment>,
    ParseError,
>)
    ensures
        match s_name_tail(old(toks)@, frags_view(acc@), any) {
            Some((v, rest)) => r matches Ok(fs) && frags_view(fs@) == v && final(toks)@ == rest,
            None => r is Err,
        },
        r is Ok ==> is_suffix(final(toks)@, old(toks)@),
        r matches Ok(fs) ==> (!any && frags_plain(acc@) ==> frags_plain(fs@)),
{
    let ghost ts0 = old(toks)@;
    let ghost acc0 = acc@;
    let mut acc = acc;
    proof {
        lemma_skip_size(ts0, 0);
        assert(skip(ts0, 0) =~= ts0);
    }
    loop
        invariant
            s_name_tail(toks@, frags_view(acc@), any) == s_name_tail(ts0, frags_view(acc0), any),
            is_suffix(toks@, ts0),
            !any && frags_plain(acc0) ==> frags_plain(acc@),
        decreases toks@.len(),
    {
        let ghost av = frags_view(acc@);
        let last_punct = acc.len() == 0 || acc[acc.len() - 1].is_punct();
        proof {
            if acc@.len() > 0 {
                assert(av.last() == frag_view(acc@.last()));
            }
            assert(last_punct == (av.len() == 0 || frag_is_punct(av.last())));
        }
        let goes_on = punct_at(toks, 0, '-') || (any && (punct_at(toks, 0, ':') || punct_at(
            toks,
            0,
            '.',
        ))) || (last_punct && (ident_at(toks, 0) || lit_at(toks, 0, LitKind::Int)));
        if !goes_on {
            return Ok(acc);
        }
        let ghost cur = toks@;
        let t = take(toks);
        match read_frag(t) {
            Some(f) => {
                let ghost fv = frag_view(f);
                acc.push(f);
                proof {
                    assert(frags_view(acc@) =~= av.push(fv));
                    lemma_skip_size(cur, 1);
                    lemma_suffix_trans(toks@, cur, ts0);
                    if !any && frags_plain(acc0) {
                        assert(frags_plain(acc@)) by {
                            assert forall|i: int| 0 <= i < acc@.len() implies !(#[trigger] acc@[i] is Colon)
                                && !(acc@[i] is Dot) by {
                                if i < acc@.len() - 1 {
                                    assert(acc@[i] == acc@.drop_last()[i]);
                                }
                            }
                        }
                    }
                }
            },
            None => {
                return Err(unexpected(toks));
            },
        }
    }
}

/// A name such as `div` or `custom-element`.
pub fn read_name(toks: &mut Vec<TokenTree>) -> (r: Result<UnquotedName, ParseError>)
    ensures
        match s_name(old(toks)@) {
            Some((v, rest)) => r matches Ok(n) && name_view(n) == v && n.is_plain() && final(toks)@
                == rest,
            None => r is Err,
        },
        r is Ok ==> is_suffix(final(toks)@, old(toks)@) && final(toks)@.len() < old(toks)@.len(),
{
    let ghost ts0 = old(toks)@;
    if !(ident_at(toks, 0) || lit_at(toks, 0, LitKind::Int)) {
        return Err(unexpected(toks));
    }
    let t = take(toks);
    match read_frag(t) {
        Some(f) => {
            let mut acc: Vec<NameFragment> = Vec::new();
            acc.push(f);
            proof {
                assert(frags_view(acc@) =~= seq![frag_view(f)]);
                assert(frags_plain(acc@));
            }
            let ghost ts1 = toks@;
            let fs = read_name_tail(toks, acc, false)?;
            proof {
                lemma_skip_size(ts0, 1);
                lemma_suffix_trans(toks@, ts1, ts0);
            }
            Ok(UnquotedName(fs))
        },
        None => Err(unexpected(toks)),
    }
}

/// A name that may also hold colons and dots, and may be empty.
pub fn read_name_any(toks: &mut Vec<TokenTree>) -> (r: Result<UnquotedName, ParseError>)
    ensures
        match s_name_any(old(toks)@) {
            Some((v, rest)) => r matches Ok(n) && name_view(n) == v && final(toks)@ == rest,
            None => r is Err,
        },
        r is Ok ==> is_suffix(final(toks)@, old(toks)@),
{
    let acc: Vec<NameFragment> = Vec::new();
    assert(frags_view(acc@) =~= Seq::<FragV>::empty());
    let fs = read_name_tail(toks, acc, true)?;
    Ok(UnquotedName(fs))
}

/// An attribute name.
pub fn read_attr_name(toks: &mut Vec<TokenTree>) -> (r: Result<AttributeName, ParseError>)
    ensures
        match s_attr_name(old(toks)@) {
            Some((v, rest)) => r matches Ok(n) && attr_name_view(n) == v && n.well_formed()
                && final(toks)@ == rest,
            None => r is Err,
        },
        r is Ok ==> is_suffix(final(toks)@, old(toks)@) && final(toks)@.len() < old(toks)@.len(),
{
    let ghost ts0 = old(toks)@;
    if word_at(toks, 0, "data") && punct_at(toks, 1, '-') {
        drop_front(toks, 2);
        let rest = read_name_any(toks)?;
        proof {
            lemma_skip_size(ts0, 2);
            lemma_suffix_trans(toks@, skip(ts0, 2), ts0);
        }
        Ok(AttributeName::Data { rest })
    } else if ident_at(toks, 0) || lit_at(toks, 0, LitKind::Int) {
        let n = read_name(toks)?;
        let ghost r1 = toks@;
        if punct_at(toks, 0, ':') {
            take(toks);
            let rest = read_name_any(toks)?;
            proof {
                lemma_skip_size(r1, 1);
                lemma_suffix_trans(toks@, skip(r1, 1), r1);
                lemma_suffix_trans(toks@, r1, ts0);
            }
            Ok(AttributeName::Namespace { namespace: n, rest })
        } else {
            Ok(AttributeName::Normal(n))
        }
    } else if punct_at(toks, 0, '@') || punct_at(toks, 0, ':') {
        let symbol = if punct_at(toks, 0, '@') {
            AttributeSymbol::At
        } else {
            AttributeSymbol::Colon
        };
        take(toks);
        let rest = read_name_any(toks)?;
        proof {
            lemma_skip_size(ts0, 1);
            lemma_suffix_trans(toks@, skip(ts0, 1), ts0);
        }
        Ok(AttributeName::Symbol { symbol, rest })
    } else if lit_at(toks, 0, LitKind::Str) && unsuffixed_at(toks, 0) {
        let t = take(toks);
        proof {
            lemma_skip_size(ts0, 1);
        }
        match t {
            TokenTree::Literal(l) => Ok(AttributeName::Quoted(l.value)),
            _ => Err(unexpected(toks)),
        }
    } else {
        Err(unexpected(toks))
    }
}

/// An optional toggle `[cond]`.
pub fn read_toggle(toks: &mut Vec<TokenTree>) -> (r: Result<Option<Toggle>, ParseError>)
    ensures
        match s_toggle(old(toks)@) {
            Some((v, rest)) => r matches Ok(t) && toggle_view(t) == v && final(toks)@ == rest,
            None => r is Err,
        },
        r is Ok ==> is_suffix(final(toks)@, old(toks)@),
{
    let ghost ts0 = old(toks)@;
    proof {
        lemma_skip_size(ts0, 0);
        assert(skip(ts0, 0) =~= ts0);
    }
    if group_at(toks, 0, Delimiter::Bracket) {
        proof {
            lemma_skip_size(ts0, 1);
        }
        let expr = take_group(toks);
        if expr.len() == 0 {
            return Err(unexpected(toks));
        }
        Ok(Some(Toggle { expr }))
    } else {
        Ok(None)
    }
}

// ---------------------------------------------------------------------------
// Rust code carried as tokens

/// Tokens up to the brace that opens a block, which is left unread.
#[verifier::loop_isolation(false)]
pub fn read_until_brace(toks: &mut Vec<TokenTree>) -> (r: Result<Vec<TokenTree>, ParseError>)
    ensures
        match s_until_brace(old(toks)@, Seq::empty()) {
            Some((v, rest)) => r matches Ok(t) && t@ == v && final(toks)@ == rest,
            None => r is Err,
        },
        r is Ok ==> is_suffix(final(toks)@, old(toks)@),
        r is Ok ==> final(toks)@.len() > 0 && is_group(final(toks)@[0], Delimiter::Brace),
{
    let ghost ts0 = old(toks)@;
    let mut acc: Vec<TokenTree> = Vec::new();
    proof {
        lemma_skip_size(ts0, 0);
        assert(skip(ts0, 0) =~= ts0);
    }
    loop
        invariant
            s_until_brace(toks@, acc@) == s_until_brace(ts0, Seq::empty()),
            is_suffix(toks@, ts0),
        decreases toks@.len(),
    {
        if toks.len() == 0 {
            return Err(unexpected(toks));
        }
        if group_at(toks, 0, Delimiter::Brace) {
            return Ok(acc);
        }
        let ghost cur = toks@;
        let t = take(toks);
        acc.push(t);
        proof {
            lemma_skip_size(cur, 1);
            lemma_suffix_trans(toks@, cur, ts0);
        }
    }
}

/// Tokens up to the identifier `w`, which is read and dropped.
#[verifier::loop_isolation(false)]
pub fn read_until_word(toks: &mut Vec<TokenTree>, w: &str) -> (r: Result<Vec<TokenTree>, ParseError>)
    ensures
        match s_until_word(old(toks)@, w@, Seq::empty()) {
            Some((v, rest)) => r matches Ok(t) && t@ == v && final(toks)@ == rest,
            None => r is Err,
        },
        r is Ok ==> is_suffix(final(toks)@, old(toks)@),
{
    let ghost ts0 = old(toks)@;
    let mut acc: Vec<TokenTree> = Vec::new();
    proof {
        lemma_skip_size(ts0, 0);
        assert(skip(ts0, 0) =~= ts0);
    }
    loop
        invariant
            s_until_word(toks@, w@, acc@) == s_until_word(ts0, w@, Seq::empty()),
            is_suffix(toks@, ts0),
        decreases toks@.len(),
    {
        if toks.len() == 0 {
            return Err(unexpected(toks));
        }
        let ghost cur = toks@;
        proof {
            lemma_skip_size(cur, 1);
            lemma_suffix_trans(skip(cur, 1), cur, ts0);
        }
        if word_at(toks, 0, w) {
            take(toks);
            return Ok(acc);
        }
        let t = take(toks);
        acc.push(t);
    }
}

/// Tokens up to and with the first `;`.
#[verifier::loop_isolation(false)]
pub fn read_until_semi(toks: &mut Vec<TokenTree>, acc: Vec<TokenTree>) -> (r: Result<
    Vec<TokenTree>,
    ParseError,
>)
    ensures
        match s_until_semi(old(toks)@, acc@) {
            Some((v, rest)) => r matches Ok(t) && t@ == v && final(toks)@ == rest,
            None => r is Err,
        },
        r is Ok ==> is_suffix(final(toks)@, old(toks)@),
{
    let ghost ts0 = old(toks)@;
    let ghost acc0 = acc@;
    let mut acc = acc;
    proof {
        lemma_skip_size(ts0, 0);
        assert(skip(ts0, 0) =~= ts0);
    }
    loop
        invariant
            s_until_semi(toks@, acc@) == s_until_semi(ts0, acc0),
            is_suffix(toks@, ts0),
        decreases toks@.len(),
    {
        if toks.len() == 0 {
            return Err(unexpected(toks));
        }
        let ghost cur = toks@;
        proof {
            lemma_skip_size(cur, 1);
            lemma_suffix_trans(skip(cur, 1), cur, ts0);
        }
        let semi = punct_at(toks, 0, ';');
        let t = take(toks);
        acc.push(t);
        if semi {
            return Ok(acc);
        }
    }
}

/// Tokens up to `=>`, which is read and dropped.
#[verifier::loop_isolation(false)]
pub fn read_until_arrow(toks: &mut Vec<TokenTree>) -> (r: Result<Vec<TokenTree>, ParseError>)
    ensures
        match s_until_arrow(old(toks)@, Seq::empty()) {
            Some((v, rest)) => r matches Ok(t) && t@ == v && final(toks)@ == rest,
            None => r is Err,
        },
        r is Ok ==> is_suffix(final(toks)@, old(toks)@) && final(toks)@.len() < old(toks)@.len(),
{
    let ghost ts0 = old(toks)@;
    let mut acc: Vec<TokenTree> = Vec::new();
    proof {
        lemma_skip_size(ts0, 0);
        assert(skip(ts0, 0) =~= ts0);
    }
    loop
        invariant
            s_until_arrow(toks@, acc@) == s_until_arrow(ts0, Seq::empty()),
            is_suffix(toks@, ts0),
        decreases toks@.len(),
    {
        if toks.len() == 0 {
            return Err(unexpected(toks));
        }
        let ghost cur = toks@;
        if joint_punct_at(toks, 0, '=') && punct_at(toks, 1, '>') {
            drop_front(toks, 2);
            proof {
                lemma_skip_size(cur, 2);
                lemma_suffix_trans(toks@, cur, ts0);
            }
            return Ok(acc);
        }
        let t = take(toks);
        acc.push(t);
        proof {
            lemma_skip_size(cur, 1);
            lemma_suffix_trans(toks@, cur, ts0);
        }
    }
}

} // verus!

