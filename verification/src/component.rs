//! Components defined by functions: the struct that a component function
//! becomes, whose fields are the function's parameters.
use vstd::prelude::*;

use crate::text::push_char;
use crate::tokens::TokenTree;

verus! {

/// The ASCII uppercase of a character; other characters unchanged.
pub open spec fn ascii_upper(c: char) -> char {
    if 'a' <= c && c <= 'z' {
        ((c as u8 - 32) as u8) as char
    } else {
        c
    }
}

/// The PascalCase form of a snake_case name: underscores dropped, the
/// first character and each one after an underscore in uppercase.
pub open spec fn pascal(s: Seq<char>, capitalize: bool) -> Seq<char>
    decreases s.len(),
{
    if s.len() == 0 {
        Seq::empty()
    } else if s[0] == '_' {
        pascal(s.drop_first(), true)
    } else {
        seq![if capitalize { ascii_upper(s[0]) } else { s[0] }] + pascal(s.drop_first(), false)
    }
}

/// The PascalCase form of a name holds no underscore.
pub proof fn lemma_pascal_no_underscore(s: Seq<char>, capitalize: bool)
    ensures
        !pascal(s, capitalize).contains('_'),
    decreases s.len(),
{
    if s.len() > 0 {
        lemma_pascal_no_underscore(s.drop_first(), true);
        lemma_pascal_no_underscore(s.drop_first(), false);
        if s[0] != '_' {
            let c = if capitalize { ascii_upper(s[0]) } else { s[0] };
            assert(c != '_') by {
                if 'a' <= s[0] && s[0] <= 'z' {
                    assert(('a' as u8) == 97u8);
                    assert(('z' as u8) == 122u8);
                    assert(('_' as u32) == 95u32);
                }
            }
            let rest = pascal(s.drop_first(), false);
            let all = seq![c] + rest;
            assert(!all.contains('_')) by {
                if all.contains('_') {
                    let i = choose|i: int| 0 <= i < all.len() && all[i] == '_';
                    if i > 0 {
                        assert(rest[i - 1] == '_');
                    }
                }
            }
        }
    }
}

/// The ASCII uppercase of a character.
fn to_ascii_upper(c: char) -> (r: char)
    ensures
        r == ascii_upper(c),
{
    if 'a' <= c && c <= 'z' {
        ((c as u8) - 32) as char
    } else {
        c
    }
}

/// The name of the struct a component function becomes: `user_card`
/// gives `UserCard`.
pub fn to_pascal_case(s: &str) -> (r: String)
    ensures
        r@ == pascal(s@, true),
{
    let n = s.unicode_len();
    let mut result = String::new();
    let mut capitalize_next = true;
    let mut i: usize = 0;
    proof {
        assert(s@.skip(0) =~= s@);
    }
    while i < n
        invariant
            n == s@.len(),
            i <= n,
            result@ + pascal(s@.skip(i as int), capitalize_next) == pascal(s@, true),
        decreases n - i,
    {
        let c = s.get_char(i);
        let ghost before = result@;
        proof {
            assert(s@.skip(i as int)[0] == c);
            assert(s@.skip(i as int).drop_first() =~= s@.skip(i + 1));
        }
        if c == '_' {
            capitalize_next = true;
        } else if capitalize_next {
            push_char(&mut result, to_ascii_upper(c));
            capitalize_next = false;
            proof {
                assert(result@ + pascal(s@.skip(i + 1), false) =~= before + (seq![ascii_upper(c)]
                    + pascal(s@.skip(i + 1), false)));
            }
        } else {
            push_char(&mut result, c);
            proof {
                assert(result@ + pascal(s@.skip(i + 1), false) =~= before + (seq![c] + pascal(
                    s@.skip(i + 1),
                    false,
                )));
            }
        }
        i += 1;
    }
    proof {
        assert(s@.skip(n as int) =~= Seq::<char>::empty());
        assert(result@ + Seq::<char>::empty() =~= result@);
    }
    result
}

/// A reference type `&T`, `&'a T` or `&mut T`.
#[derive(Debug)]
pub struct Reference {
    /// Whether it is `&mut`.
    pub mutable: bool,
    /// Whether it names a lifetime.
    pub lifetime: bool,
    /// The tokens of `T`.
    pub elem: Vec<TokenTree>,
}

/// A parameter of a component function.
#[derive(Debug)]
pub enum Param {
    /// `self`, `&self` or `&mut self`.
    Receiver,
    /// A parameter whose pattern is not a plain identifier.
    Pattern,
    /// `name: ty`; `reference` describes `ty` when it is a reference type.
    Typed { name: String, ty: Vec<TokenTree>, reference: Option<Reference> },
}

/// A field of the struct a component function becomes.
#[derive(Debug)]
pub struct Field {
    /// The field's name, the parameter's.
    pub name: String,
    /// The tokens of its type.
    pub ty: Vec<TokenTree>,
    /// Whether the function is called with a reference to the field.
    pub by_ref: bool,
}

/// The struct a component function becomes.
#[derive(Debug)]
pub struct ComponentStruct {
    /// Its name.
    pub name: String,
    /// Its fields, in the order of the parameters.
    pub fields: Vec<Field>,
}

/// Why a function cannot be a component.
#[derive(Debug, Clone, Copy, PartialEq, Eq)]
pub enum ComponentError {
    /// A parameter is `self`.
    Receiver,
    /// A parameter's pattern is not an identifier.
    Pattern,
    /// A parameter is a mutable reference.
    MutableReference,
}

/// The field a parameter becomes: a reference without a lifetime becomes a
/// field of the referenced type, passed back by reference.
pub open spec fn param_field(p: Param) -> Result<(Seq<char>, Seq<TokenTree>, bool), ComponentError> {
    match p {
        Param::Receiver => Err(ComponentError::Receiver),
        Param::Pattern => Err(ComponentError::Pattern),
        Param::Typed { name, ty, reference } => match reference {
            Some(r) => if r.mutable {
                Err(ComponentError::MutableReference)
            } else if r.lifetime {
                Ok((name@, ty@, false))
            } else {
                Ok((name@, r.elem@, true))
            },
            None => Ok((name@, ty@, false)),
        },
    }
}

/// The fields parameters become, or the error of the first that cannot.
pub open spec fn params_fields(ps: Seq<Param>) -> Result<
    Seq<(Seq<char>, Seq<TokenTree>, bool)>,
    ComponentError,
>
    decreases ps.len(),
{
    if ps.len() == 0 {
        Ok(Seq::empty())
    } else {
        match params_fields(ps.drop_last()) {
            Err(e) => Err(e),
            Ok(fs) => match param_field(ps.last()) {
                Err(e) => Err(e),
                Ok(f) => Ok(fs.push(f)),
            },
        }
    }
}

/// The abstract form of fields.
pub open spec fn fields_view(fs: Seq<Field>) -> Seq<(Seq<char>, Seq<TokenTree>, bool)> {
    fs.map_values(|f: Field| (f.name@, f.ty@, f.by_ref))
}

/// Once parameters fail, more parameters fail the same way.
pub proof fn lemma_params_error_stays(ps: Seq<Param>, k: int)
    requires
        0 <= k <= ps.len(),
        params_fields(ps.take(k)) is Err,
    ensures
        params_fields(ps) == params_fields(ps.take(k)),
    decreases ps.len() - k,
{
    if k < ps.len() {
        assert(ps.take(k + 1).drop_last() =~= ps.take(k));
        lemma_params_error_stays(ps, k + 1);
    } else {
        assert(ps.take(k) =~= ps);
    }
}

/// The struct a component function named `fn_name` with parameters
/// `params` becomes, or why it cannot.
#[verifier::loop_isolation(false)]
pub fn generate(fn_name: &str, params: Vec<Param>) -> (r: Result<ComponentStruct, ComponentError>)
    ensures
        match params_fields(params@) {
            Ok(fs) => r matches Ok(c) && c.name@ == pascal(fn_name@, true) && fields_view(c.fields@)
                == fs,
            Err(e) => r matches Err(x) && x == e,
        },
{
    let ghost all = params@;
    let mut params = params;
    let mut fields: Vec<Field> = Vec::new();
    let ghost k: int = 0;
    proof {
        assert(all.take(0) =~= Seq::<Param>::empty());
        assert(fields_view(fields@) =~= Seq::empty());
    }
    while params.len() > 0
        invariant
            0 <= k <= all.len(),
            params@ == all.skip(k),
            params_fields(all.take(k)) == Ok::<_, ComponentError>(fields_view(fields@)),
        decreases params.len(),
    {
        let p = params.remove(0);
        proof {
            assert(p == all[k]);
            assert(params@ =~= all.skip(k + 1));
            assert(all.take(k + 1).drop_last() =~= all.take(k));
            assert(all.take(k + 1).last() == all[k]);
        }
        let ghost fv = fields_view(fields@);
        let ghost pg = p;
        let field = match p {
            Param::Receiver => Err(ComponentError::Receiver),
            Param::Pattern => Err(ComponentError::Pattern),
            Param::Typed { name, ty, reference } => match reference {
                Some(r) => if r.mutable {
                    Err(ComponentError::MutableReference)
                } else if r.lifetime {
                    Ok(Field { name, ty, by_ref: false })
                } else {
                    Ok(Field { name, ty: r.elem, by_ref: true })
                },
                None => Ok(Field { name, ty, by_ref: false }),
            },
        };
        match field {
            Ok(f) => {
                proof {
                    assert(param_field(pg) == Ok::<_, ComponentError>((f.name@, f.ty@, f.by_ref)));
                }
                fields.push(f);
                proof {
                    assert(fields_view(fields@) =~= fv.push((f.name@, f.ty@, f.by_ref)));
                    k = k + 1;
                }
            },
            Err(e) => {
                proof {
                    assert(param_field(pg) == Err::<(Seq<char>, Seq<TokenTree>, bool), _>(e));
                    assert(params_fields(all.take(k + 1)) == Err::<Seq<(Seq<char>, Seq<TokenTree>, bool)>, _>(e));
                    lemma_params_error_stays(all, k + 1);
                }
                return Err(e);
            },
        }
    }
    proof {
        assert(all.take(k) =~= all);
    }
    Ok(ComponentStruct { name: to_pascal_case(fn_name), fields })
}

} // verus!
