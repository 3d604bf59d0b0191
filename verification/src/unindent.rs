//! Removing the common indentation of a multi-line string literal.
use vstd::prelude::*;

use crate::text::{chars_of, push_char};

verus! {

/// Indentation: a space or a tab.
pub open spec fn is_indent(c: char) -> bool {
    c == ' ' || c == '\t'
}

/// The pieces of a text between its newlines, in order; one piece more than
/// there are newlines.
pub open spec fn split_newlines(s: Seq<char>) -> Seq<Seq<char>>
    decreases s.len(),
{
    if s.len() == 0 {
        seq![Seq::empty()]
    } else {
        let prev = split_newlines(s.drop_last());
        if s.last() == '\n' {
            prev.push(Seq::empty())
        } else {
            prev.drop_last().push(prev.last().push(s.last()))
        }
    }
}

/// A line without the carriage return of a `\r\n` line end.
pub open spec fn strip_cr(l: Seq<char>) -> Seq<char> {
    if l.len() > 0 && l.last() == '\r' {
        l.drop_last()
    } else {
        l
    }
}

/// The lines of a text: the pieces between newlines, each followed by a
/// newline losing a carriage return before it; the last is empty when the
/// text ends with a newline.
pub open spec fn text_lines(s: Seq<char>) -> Seq<Seq<char>> {
    let p = split_newlines(s);
    Seq::new(p.len(), |i: int| if i < p.len() - 1 { strip_cr(p[i]) } else { p[i] })
}

/// `o` shifted by `k`.
pub open spec fn add_opt(o: Option<nat>, k: nat) -> Option<nat> {
    match o {
        Some(p) => Some(p + k),
        None => None,
    }
}

/// The position of the first character of a line that is not indentation.
pub open spec fn first_non_indent(l: Seq<char>) -> Option<nat>
    decreases l.len(),
{
    if l.len() == 0 {
        None
    } else if !is_indent(l[0]) {
        Some(0)
    } else {
        add_opt(first_non_indent(l.drop_first()), 1)
    }
}

/// The smallest indentation among lines that are not only indentation.
pub open spec fn min_indent(ls: Seq<Seq<char>>) -> Option<nat>
    decreases ls.len(),
{
    if ls.len() == 0 {
        None
    } else {
        let rest = min_indent(ls.drop_last());
        match first_non_indent(ls.last()) {
            None => rest,
            Some(p) => match rest {
                None => Some(p),
                Some(q) => Some(if p < q { p } else { q }),
            },
        }
    }
}

/// The indentation removed: the smallest of the lines after the first, or
/// none.
pub open spec fn common_indent(ls: Seq<Seq<char>>) -> nat {
    match min_indent(ls.skip(1)) {
        Some(m) => m,
        None => 0,
    }
}

/// Whether a line is only indentation.
pub open spec fn all_indent(l: Seq<char>) -> bool {
    forall|i: int| 0 <= i < l.len() ==> is_indent(#[trigger] l[i])
}

/// Whether line `i` is put on a line of its own: the second when the first
/// is not empty, the ones in the middle, and the last when it is not the
/// first and is empty or holds more than indentation.
pub open spec fn starts_line(ls: Seq<Seq<char>>, i: int) -> bool {
    let last = ls.len() - 1;
    ||| (i == 1 && ls[0].len() > 0)
    ||| (1 < i && i < last)
    ||| (i == last && last != 0 && (!all_indent(ls[i]) || ls[i].len() == 0))
}

/// What line `i` contributes: its newline, then the line, without the
/// common indentation after the first line.
pub open spec fn unindented_line(ls: Seq<Seq<char>>, i: int, spaces: nat) -> Seq<char> {
    (if starts_line(ls, i) {
        seq!['\n']
    } else {
        Seq::empty()
    }) + (if i == 0 {
        ls[0]
    } else if ls[i].len() > spaces {
        ls[i].skip(spaces as int)
    } else {
        Seq::empty()
    })
}

/// What the first `k` lines contribute.
pub open spec fn unindented(ls: Seq<Seq<char>>, spaces: nat, k: int) -> Seq<char>
    decreases k,
{
    if k <= 0 {
        Seq::empty()
    } else {
        unindented(ls, spaces, k - 1) + unindented_line(ls, k - 1, spaces)
    }
}

/// A text without the indentation common to its lines after the first.
pub open spec fn spec_unindent(s: Seq<char>) -> Seq<char> {
    let ls = text_lines(s);
    unindented(ls, common_indent(ls), ls.len() as int)
}

/// There is always one piece more than newlines, so at least one.
pub proof fn lemma_split_nonempty(s: Seq<char>)
    ensures
        split_newlines(s).len() >= 1,
    decreases s.len(),
{
    if s.len() > 0 {
        lemma_split_nonempty(s.drop_last());
    }
}

/// A text without newlines is its only piece.
pub proof fn lemma_split_single(s: Seq<char>)
    requires
        !s.contains('\n'),
    ensures
        split_newlines(s) == seq![s],
    decreases s.len(),
{
    if s.len() == 0 {
        assert(s =~= Seq::<char>::empty());
    } else {
        assert(!s.drop_last().contains('\n')) by {
            if s.drop_last().contains('\n') {
                let i = choose|i: int| 0 <= i < s.drop_last().len() && s.drop_last()[i] == '\n';
                assert(s[i] == '\n');
            }
        }
        lemma_split_single(s.drop_last());
        assert(s.last() != '\n') by {
            assert(s[s.len() - 1] == s.last());
        }
        assert(s.drop_last().push(s.last()) =~= s);
        assert(split_newlines(s) =~= seq![s]);
    }
}

/// A string on a single line comes back unchanged: only lines after the
/// first lose indentation.
pub proof fn lemma_unindent_single_line(s: Seq<char>)
    requires
        !s.contains('\n'),
    ensures
        spec_unindent(s) == s,
{
    lemma_split_single(s);
    let ls = text_lines(s);
    assert(ls =~= seq![s]);
    assert(ls.skip(1) =~= Seq::<Seq<char>>::empty());
    assert(common_indent(ls) == 0);
    assert(!starts_line(ls, 0));
    assert(unindented(ls, 0, 0) =~= Seq::<char>::empty());
    assert(unindented_line(ls, 0, 0) =~= s);
    assert(unindented(ls, 0, 1) =~= s);
}

/// The first character that is not indentation: where it stands, with only
/// indentation before it; none when the line is only indentation.
pub proof fn lemma_first_non_indent(l: Seq<char>)
    ensures
        match first_non_indent(l) {
            Some(p) => p < l.len() && !is_indent(l[p as int]) && forall|j: int|
                0 <= j < p ==> is_indent(#[trigger] l[j]),
            None => all_indent(l),
        },
    decreases l.len(),
{
    if l.len() > 0 && is_indent(l[0]) {
        let t = l.drop_first();
        lemma_first_non_indent(t);
        match first_non_indent(t) {
            Some(p) => {
                assert forall|j: int| 0 <= j < p + 1 implies is_indent(#[trigger] l[j]) by {
                    if j > 0 {
                        assert(l[j] == t[j - 1]);
                    }
                }
            },
            None => {
                assert forall|j: int| 0 <= j < l.len() implies is_indent(#[trigger] l[j]) by {
                    if j > 0 {
                        assert(l[j] == t[j - 1]);
                    }
                }
            },
        }
    }
}

/// The smallest indentation of some lines: no character of theirs that is
/// not indentation stands before it, and one of them has its first such
/// character there.
proof fn lemma_min_indent(ls: Seq<Seq<char>>)
    ensures
        forall|i: int, j: int|
            0 <= i < ls.len() && 0 <= j < ls[i].len() && !is_indent(#[trigger] ls[i][j]) ==> (
            min_indent(ls) matches Some(m) && m <= j),
        min_indent(ls) matches Some(m) ==> exists|i: int|
            0 <= i < ls.len() && first_non_indent(#[trigger] ls[i]) == Some(m),
    decreases ls.len(),
{
    if ls.len() > 0 {
        let prev = ls.drop_last();
        lemma_min_indent(prev);
        lemma_first_non_indent(ls.last());
        assert forall|i: int, j: int|
            0 <= i < ls.len() && 0 <= j < ls[i].len() && !is_indent(#[trigger] ls[i][j]) implies (
            min_indent(ls) matches Some(m) && m <= j) by {
            if i < ls.len() - 1 {
                assert(prev[i][j] == ls[i][j]);
            } else {
                assert(ls[i] == ls.last());
            }
        }
        if min_indent(ls) is Some {
            let m = min_indent(ls)->0;
            if first_non_indent(ls.last()) == Some(m) {
                assert(ls[ls.len() - 1] == ls.last());
            } else {
                let i = choose|i: int| 0 <= i < prev.len() && first_non_indent(#[trigger] prev[i]) == Some(m);
                assert(ls[i] == prev[i]);
            }
        }
    }
}

/// The indentation removed from the lines after the first is the least
/// among those that hold more than indentation: no character of those lines
/// that is not indentation is removed, and some such line loses all of its
/// indentation. With no such line nothing is removed. (A text has at least
/// one line.)
pub proof fn lemma_common_indent_is_least(ls: Seq<Seq<char>>)
    requires
        ls.len() >= 1,
    ensures
        forall|i: int, j: int|
            1 <= i < ls.len() && 0 <= j < ls[i].len() && !is_indent(#[trigger] ls[i][j])
                ==> common_indent(ls) <= j,
        (exists|i: int, j: int|
            1 <= i < ls.len() && 0 <= j < ls[i].len() && !is_indent(#[trigger] ls[i][j]))
            ==> exists|i: int|
            1 <= i < ls.len() && common_indent(ls) < ls[i].len() && !is_indent(
                #[trigger] ls[i][common_indent(ls) as int],
            ) && forall|j: int| 0 <= j < common_indent(ls) ==> is_indent(#[trigger] ls[i][j]),
        (forall|i: int| 1 <= i < ls.len() ==> all_indent(#[trigger] ls[i])) ==> common_indent(ls)
            == 0,
{
    let rest = ls.skip(1);
    assert(rest.len() == ls.len() - 1);
    lemma_min_indent(rest);
    assert forall|i: int, j: int|
        1 <= i < ls.len() && 0 <= j < ls[i].len() && !is_indent(#[trigger] ls[i][j]) implies common_indent(
        ls,
    ) <= j by {
        assert(rest[i - 1] == ls[i]);
        assert(rest[i - 1][j] == ls[i][j]);
    }
    if min_indent(rest) is Some {
        let m = min_indent(rest)->0;
        assert(common_indent(ls) == m);
        let k = choose|k: int| 0 <= k < rest.len() && first_non_indent(#[trigger] rest[k]) == Some(m);
        let l = rest[k];
        assert(0 <= k < rest.len());
        assert(first_non_indent(l) == Some(m));
        lemma_first_non_indent(l);
        assert(l == ls[k + 1]);
        assert(m < l.len() && !is_indent(l[m as int]));
        assert(forall|j: int| 0 <= j < m ==> is_indent(#[trigger] l[j]));
        assert(1 <= k + 1 < ls.len() && common_indent(ls) < ls[k + 1].len() && !is_indent(
            ls[k + 1][common_indent(ls) as int],
        ) && forall|j: int| 0 <= j < common_indent(ls) ==> is_indent(#[trigger] ls[k + 1][j]));
        if forall|i: int| 1 <= i < ls.len() ==> all_indent(#[trigger] ls[i]) {
            assert(all_indent(ls[k + 1]));
            assert(is_indent(l[m as int]));
        }
    } else {
        assert forall|i: int, j: int|
            1 <= i < ls.len() && 0 <= j < ls[i].len() implies is_indent(#[trigger] ls[i][j]) by {
            assert(rest[i - 1] == ls[i]);
            assert(rest[i - 1][j] == ls[i][j]);
            if !is_indent(ls[i][j]) {
                assert(!is_indent(rest[i - 1][j]));
            }
        }
    }
}

/// Unindenting a text removes from its lines after the first the least
/// indentation among those that hold more than indentation: no character
/// other than indentation is removed, and some such line keeps none.
pub proof fn lemma_unindent_removes_least_indent(s: Seq<char>)
    ensures
        forall|i: int, j: int|
            1 <= i < text_lines(s).len() && 0 <= j < text_lines(s)[i].len() && !is_indent(
                #[trigger] text_lines(s)[i][j],
            ) ==> common_indent(text_lines(s)) <= j,
        (exists|i: int, j: int|
            1 <= i < text_lines(s).len() && 0 <= j < text_lines(s)[i].len() && !is_indent(
                #[trigger] text_lines(s)[i][j],
            )) ==> exists|i: int|
            1 <= i < text_lines(s).len() && common_indent(text_lines(s)) < text_lines(s)[i].len()
                && !is_indent(#[trigger] text_lines(s)[i][common_indent(text_lines(s)) as int]),
{
    lemma_split_nonempty(s);
    lemma_common_indent_is_least(text_lines(s));
}

/// The views of vectors of characters.
pub open spec fn char_vecs_view(v: Seq<Vec<char>>) -> Seq<Seq<char>> {
    v.map_values(|x: Vec<char>| x@)
}

/// The pieces of a text between its newlines.
#[verifier::loop_isolation(false)]
fn split_pieces(chars: &Vec<char>) -> (r: Vec<Vec<char>>)
    ensures
        char_vecs_view(r@) == split_newlines(chars@),
{
    let mut pieces: Vec<Vec<char>> = Vec::new();
    let mut cur: Vec<char> = Vec::new();
    let n = chars.len();
    let mut i: usize = 0;
    proof {
        assert(chars@.take(0) =~= Seq::<char>::empty());
        assert(char_vecs_view(pieces@).push(cur@) =~= split_newlines(chars@.take(0)));
    }
    while i < n
        invariant
            n == chars@.len(),
            i <= n,
            char_vecs_view(pieces@).push(cur@) == split_newlines(chars@.take(i as int)),
        decreases n - i,
    {
        let c = chars[i];
        let ghost prev = split_newlines(chars@.take(i as int));
        proof {
            assert(chars@.take(i + 1).drop_last() =~= chars@.take(i as int));
            assert(chars@.take(i + 1).last() == c);
        }
        if c == '\n' {
            let done = cur;
            let ghost pv = char_vecs_view(pieces@);
            pieces.push(done);
            cur = Vec::new();
            proof {
                assert(char_vecs_view(pieces@) =~= pv.push(done@));
                assert(char_vecs_view(pieces@).push(cur@) =~= prev.push(Seq::empty()));
            }
        } else {
            let ghost cv = cur@;
            cur.push(c);
            proof {
                assert(prev.drop_last() =~= char_vecs_view(pieces@));
                assert(prev.last() == cv);
                assert(char_vecs_view(pieces@).push(cur@) =~= prev.drop_last().push(
                    prev.last().push(c),
                ));
            }
        }
        i += 1;
    }
    let ghost pv = char_vecs_view(pieces@);
    pieces.push(cur);
    proof {
        assert(chars@.take(n as int) =~= chars@);
        assert(char_vecs_view(pieces@) =~= pv.push(cur@));
    }
    pieces
}

/// The lines of a text.
#[verifier::loop_isolation(false)]
fn lines_of(chars: &Vec<char>) -> (r: Vec<Vec<char>>)
    ensures
        char_vecs_view(r@) == text_lines(chars@),
        r@.len() >= 1,
{
    let pieces = split_pieces(chars);
    proof {
        lemma_split_nonempty(chars@);
    }
    let ghost p = split_newlines(chars@);
    let n = pieces.len();
    let mut lines: Vec<Vec<char>> = Vec::new();
    let mut i: usize = 0;
    while i < n
        invariant
            n == pieces@.len(),
            n == p.len(),
            n >= 1,
            char_vecs_view(pieces@) == p,
            i <= n,
            char_vecs_view(lines@) == text_lines(chars@).take(i as int),
        decreases n - i,
    {
        let piece = &pieces[i];
        let len = piece.len();
        let mut line: Vec<char> = Vec::new();
        let strip = i < n - 1 && len > 0 && piece[len - 1] == '\r';
        let keep = if strip {
            len - 1
        } else {
            len
        };
        let mut j: usize = 0;
        proof {
            assert(p[i as int] == piece@);
        }
        while j < keep
            invariant
                keep <= len,
                len == piece@.len(),
                j <= keep,
                line@ == piece@.take(j as int),
            decreases keep - j,
        {
            line.push(piece[j]);
            proof {
                assert(line@ =~= piece@.take(j + 1));
            }
            j += 1;
        }
        let ghost lv = char_vecs_view(lines@);
        proof {
            assert(line@ == text_lines(chars@)[i as int]) by {
                if strip {
                    assert(piece@.take(keep as int) =~= strip_cr(piece@));
                } else {
                    assert(piece@.take(keep as int) =~= piece@);
                }
            }
        }
        lines.push(line);
        proof {
            assert(char_vecs_view(lines@) =~= text_lines(chars@).take(i + 1));
        }
        i += 1;
    }
    proof {
        assert(text_lines(chars@).take(n as int) =~= text_lines(chars@));
    }
    lines
}

/// The position of the first character of a line that is not indentation.
#[verifier::loop_isolation(false)]
fn first_non_indent_of(l: &Vec<char>) -> (r: Option<usize>)
    ensures
        match first_non_indent(l@) {
            Some(p) => r matches Some(q) && q as nat == p && p < l@.len(),
            None => r is None,
        },
{
    let n = l.len();
    let mut i: usize = 0;
    proof {
        assert(l@.skip(0) =~= l@);
    }
    while i < n
        invariant
            n == l@.len(),
            i <= n,
            first_non_indent(l@) == add_opt(first_non_indent(l@.skip(i as int)), i as nat),
        decreases n - i,
    {
        proof {
            assert(l@.skip(i as int)[0] == l@[i as int]);
            assert(l@.skip(i as int).drop_first() =~= l@.skip(i + 1));
        }
        let c = l[i];
        if !(c == ' ' || c == '\t') {
            return Some(i);
        }
        i += 1;
    }
    proof {
        assert(l@.skip(n as int) =~= Seq::<char>::empty());
    }
    None
}

/// Whether a line is only indentation.
fn all_indent_of(l: &Vec<char>) -> (r: bool)
    ensures
        r == all_indent(l@),
{
    let n = l.len();
    let mut i: usize = 0;
    while i < n
        invariant
            n == l@.len(),
            i <= n,
            forall|j: int| 0 <= j < i ==> is_indent(#[trigger] l@[j]),
        decreases n - i,
    {
        let c = l[i];
        if !(c == ' ' || c == '\t') {
            return false;
        }
        i += 1;
    }
    true
}

/// Appends the characters of a line from position `from` on.
fn push_from(result: &mut String, line: &Vec<char>, from: usize)
    requires
        from <= line@.len(),
    ensures
        final(result)@ == old(result)@ + line@.skip(from as int),
{
    let len = line.len();
    let mut j: usize = from;
    while j < len
        invariant
            len == line@.len(),
            from <= j <= len,
            result@ == old(result)@ + line@.subrange(from as int, j as int),
        decreases len - j,
    {
        push_char(result, line[j]);
        proof {
            assert(line@.subrange(from as int, j + 1) =~= line@.subrange(from as int, j as int).push(
                line@[j as int],
            ));
        }
        j += 1;
    }
    assert(line@.subrange(from as int, len as int) =~= line@.skip(from as int));
}

/// The indentation common to the lines after the first.
#[verifier::loop_isolation(false)]
fn common_indent_of(lines: &Vec<Vec<char>>) -> (r: usize)
    requires
        lines@.len() >= 1,
    ensures
        r == common_indent(char_vecs_view(lines@)),
{
    let ghost ls = char_vecs_view(lines@);
    let n = lines.len();
    let mut spaces: usize = 0;
    let mut found = false;
    let mut i: usize = 1;
    proof {
        assert(ls.skip(1).take(0) =~= Seq::<Seq<char>>::empty());
    }
    while i < n
        invariant
            n == lines@.len(),
            ls == char_vecs_view(lines@),
            1 <= i <= n,
            found ==> min_indent(ls.skip(1).take(i - 1)) == Some(spaces as nat),
            !found ==> min_indent(ls.skip(1).take(i - 1)) is None,
            !found ==> spaces == 0,
        decreases n - i,
    {
        let ghost prev = ls.skip(1).take(i - 1);
        proof {
            assert(ls.skip(1).take(i as int).drop_last() =~= prev);
            assert(ls.skip(1).take(i as int).last() == lines@[i as int]@);
        }
        let ghost cur = ls.skip(1).take(i as int);
        proof {
            assert(cur.len() > 0);
            assert(min_indent(cur) == match first_non_indent(cur.last()) {
                None => min_indent(prev),
                Some(p) => match min_indent(prev) {
                    None => Some(p),
                    Some(q) => Some(if p < q { p } else { q }),
                },
            });
        }
        match first_non_indent_of(&lines[i]) {
            Some(p) => {
                if !found || p < spaces {
                    spaces = p;
                }
                found = true;
            },
            None => {},
        }
        proof {
            assert(found ==> min_indent(cur) == Some(spaces as nat));
            assert(!found ==> min_indent(cur) is None);
            assert(cur == ls.skip(1).take(i + 1 - 1));
        }
        i += 1;
    }
    proof {
        assert(ls.skip(1).take(n - 1) =~= ls.skip(1));
    }
    spaces
}

/// Removes the indentation common to the lines of a string literal after
/// its first, as the literal would read without the indentation of the code
/// around it.
#[verifier::loop_isolation(false)]
pub fn unindent(s: &str) -> (r: String)
    ensures
        r@ == spec_unindent(s@),
{
    let chars = chars_of(s);
    let lines = lines_of(&chars);
    let ghost ls = text_lines(s@);
    let n = lines.len();
    let spaces = common_indent_of(&lines);
    let mut result = String::new();
    let mut k: usize = 0;
    while k < n
        invariant
            n == lines@.len(),
            char_vecs_view(lines@) == ls,
            n >= 1,
            k <= n,
            spaces == common_indent(ls),
            result@ == unindented(ls, spaces as nat, k as int),
        decreases n - k,
    {
        let line = &lines[k];
        proof {
            assert(line@ == ls[k as int]);
            assert(lines@[0]@ == ls[0]);
        }
        let last = n - 1;
        let newline = (k == 1 && lines[0].len() > 0) || (1 < k && k < last) || (k == last && last
            != 0 && (!all_indent_of(line) || line.len() == 0));
        let ghost before = result@;
        if newline {
            push_char(&mut result, '\n');
        }
        if k == 0 {
            push_from(&mut result, line, 0);
            proof {
                assert(line@.skip(0) =~= line@);
            }
        } else if line.len() > spaces {
            push_from(&mut result, line, spaces);
        }
        proof {
            assert(starts_line(ls, k as int) == newline);
            assert(result@ =~= before + unindented_line(ls, k as int, spaces as nat));
        }
        k += 1;
    }
    result
}

} // verus!
