use vstd::prelude::*;

use crate::ids::{sp_intern, Interner, InternerV, TypeId};
use crate::lexer::{copy_bytes, Token, TokenV};
use crate::spanned::{sp_span, Span, Spanned, SpannedV};

verus! {

/// A type annotation.
#[derive(Debug)]
pub enum Type {
    /// An inferred type, written `_`.
    Inferred(Spanned<()>),
    /// A named type such as `u8`.
    Type(Spanned<TypeId>),
    /// A tuple type such as `(u8, _)`.
    Tuple(Vec<Spanned<Type>>),
}

/// The mathematical image of a [`Type`].
pub enum TypeV {
    Inferred(SpannedV<()>),
    Type(SpannedV<TypeId>),
    Tuple(Seq<SpannedV<TypeV>>),
}

/// The images of a list of spanned types. The bounds guard keeps the
/// recursion structural; out-of-range entries are never read.
pub open spec fn sp_views_ty(v: Seq<Spanned<Type>>) -> Seq<SpannedV<TypeV>>
    decreases v,
{
    Seq::new(
        v.len(),
        |k: int|
            if 0 <= k < v.len() {
                SpannedV { span: v[k].span, inner: v[k].inner.view() }
            } else {
                arbitrary()
            },
    )
}

impl View for Type {
    type V = TypeV;

    open spec fn view(&self) -> TypeV
        decreases self,
    {
        match self {
            Type::Inferred(s) => TypeV::Inferred(SpannedV { span: s.span, inner: () }),
            Type::Type(s) => TypeV::Type(SpannedV { span: s.span, inner: s.inner }),
            Type::Tuple(v) => TypeV::Tuple(sp_views_ty(v@)),
        }
    }
}

/// The type read at position `i`: the inferred type `_`, a name (interned
/// as a type), or a parenthesized tuple of at least one type. Unlike
/// pattern tuples, type tuples allow no trailing comma.
pub open spec fn sp_type(t: Seq<TokenV>, i: int, m: InternerV) -> (Option<
    (SpannedV<TypeV>, int),
>, InternerV)
    decreases t.len() - i, 0int,
{
    if i < 0 || i >= t.len() {
        (None, m)
    } else {
        match t[i] {
            TokenV::Wildcard => (
                Some(
                    (
                        SpannedV {
                            span: sp_span(i, i + 1),
                            inner: TypeV::Inferred(SpannedV { span: sp_span(i, i + 1), inner: () }),
                        },
                        i + 1,
                    ),
                ),
                m,
            ),
            TokenV::Identifier(x) => {
                let (id, tys) = sp_intern(m.types, x);
                (
                    Some(
                        (
                            SpannedV {
                                span: sp_span(i, i + 1),
                                inner: TypeV::Type(
                                    SpannedV { span: sp_span(i, i + 1), inner: TypeId(id as usize) },
                                ),
                            },
                            i + 1,
                        ),
                    ),
                    InternerV { types: tys, ..m },
                )
            },
            TokenV::LParen => {
                let (r, m1) = sp_type_list(t, i + 1, m);
                match r {
                    Some((ts, j)) => {
                        if 0 <= j < t.len() && t[j] == TokenV::RParen {
                            (
                                Some(
                                    (
                                        SpannedV { span: sp_span(i, j + 1), inner: TypeV::Tuple(ts) },
                                        j + 1,
                                    ),
                                ),
                                m1,
                            )
                        } else {
                            (None, m1)
                        }
                    },
                    None => (None, m1),
                }
            },
            _ => (None, m),
        }
    }
}

/// One or more comma-separated types.
pub open spec fn sp_type_list(t: Seq<TokenV>, i: int, m: InternerV) -> (Option<
    (Seq<SpannedV<TypeV>>, int),
>, InternerV)
    decreases t.len() - i, 1int,
{
    let (r, m1) = sp_type(t, i, m);
    match r {
        None => (None, m1),
        Some((ty, j)) => {
            if j <= i {
                (None, m1)
            } else if 0 <= j < t.len() && t[j] == TokenV::Comma {
                let (r2, m2) = sp_type_list(t, j + 1, m1);
                match r2 {
                    Some((ts, e)) => (Some((seq![ty] + ts, e)), m2),
                    None => (None, m2),
                }
            } else {
                (Some((seq![ty], j)), m1)
            }
        },
    }
}

impl Type {
    /// Reads one type annotation starting at `pos`, interning type names.
    pub fn parser(t: &Vec<Token>, pos: usize, itn: &mut Interner) -> (r: Option<
        (Spanned<Type>, usize),
    >)
        requires
            pos <= t@.len(),
        ensures
            ({
                let (sr, sm) = sp_type(t.deep_view(), pos as int, old(itn)@);
                final(itn)@ == sm && match (r, sr) {
                    (Some(a), Some(b)) => a.0@ == b.0 && a.1 as int == b.1 && pos < a.1 <= t@.len(),
                    (None, None) => true,
                    _ => false,
                }
            }),
        decreases t@.len() - pos, 0int,
    {
        if pos >= t.len() {
            return None;
        }
        assert(t.deep_view()[pos as int] == t@[pos as int]@);
        match &t[pos] {
            Token::Wildcard => {
                let sp = Span::new(pos, pos + 1);
                Some((Spanned::new(Type::Inferred(Spanned::new((), sp)), sp), pos + 1))
            },
            Token::Identifier(x) => {
                let id = itn.intern_type(copy_bytes(x));
                let sp = Span::new(pos, pos + 1);
                Some((Spanned::new(Type::Type(Spanned::new(id, sp)), sp), pos + 1))
            },
            Token::LParen => {
                match parse_type_list(t, pos + 1, itn) {
                    Some((ts, j)) => {
                        if j < t.len() {
                            assert(t.deep_view()[j as int] == t@[j as int]@);
                            match &t[j] {
                                Token::RParen => {
                                    let sp = Span::new(pos, j + 1);
                                    Some((Spanned::new(Type::Tuple(ts), sp), j + 1))
                                },
                                _ => None,
                            }
                        } else {
                            None
                        }
                    },
                    None => None,
                }
            },
            _ => None,
        }
    }
}

/// An optional `:` type annotation at position `j`: `Some((Some(ty), after))`
/// when a colon and a type are read, `Some((None, j))` when no colon stands
/// at `j`, and `None` when the colon is there but no type parses after it.
pub open spec fn sp_ty_annotation(t: Seq<TokenV>, j: int, m: InternerV) -> (Option<
    (Option<SpannedV<TypeV>>, int),
>, InternerV) {
    if 0 <= j < t.len() && t[j] == TokenV::DPoint {
        let (r2, m2) = sp_type(t, j + 1, m);
        match r2 {
            Some((ty, k)) => (Some((Some(ty), k)), m2),
            None => (None, m2),
        }
    } else {
        (Some((None::<SpannedV<TypeV>>, j)), m)
    }
}

pub(crate) fn parse_ty_annotation(t: &Vec<Token>, pos: usize, itn: &mut Interner) -> (r: Option<
    (Option<Spanned<Type>>, usize),
>)
    requires
        pos <= t@.len(),
    ensures
        ({
            let (sr, sm) = sp_ty_annotation(t.deep_view(), pos as int, old(itn)@);
            final(itn)@ == sm && match (r, sr) {
                (Some((Some(a), np)), Some((Some(b), snp))) => a@ == b && np as int == snp && pos
                    < np <= t@.len(),
                (Some((None, np)), Some((None, snp))) => np as int == snp && np == pos,
                (None, None) => true,
                _ => false,
            }
        }),
{
    let mut has_ty = false;
    if pos < t.len() {
        assert(t.deep_view()[pos as int] == t@[pos as int]@);
        has_ty = match &t[pos] {
            Token::DPoint => true,
            _ => false,
        };
    }
    if has_ty {
        match Type::parser(t, pos + 1, itn) {
            Some((ty, k)) => Some((Some(ty), k)),
            None => None,
        }
    } else {
        Some((None, pos))
    }
}

/// An optional `->` return type at position `k`: the arrow is the two
/// tokens `-` and `>`. Without a complete arrow the annotation is absent;
/// with an arrow whose type does not parse, the whole read fails.
pub open spec fn sp_return_type(t: Seq<TokenV>, k: int, m: InternerV) -> (Option<
    (Option<SpannedV<TypeV>>, int),
>, InternerV) {
    if 0 <= k && k + 1 < t.len() && t[k] == TokenV::Minus && t[k + 1] == TokenV::GreaterThan {
        let (r, m1) = sp_type(t, k + 2, m);
        match r {
            Some((ty, l)) => (Some((Some(ty), l)), m1),
            None => (None, m1),
        }
    } else {
        (Some((None::<SpannedV<TypeV>>, k)), m)
    }
}

pub(crate) fn parse_return_type(t: &Vec<Token>, pos: usize, itn: &mut Interner) -> (r: Option<
    (Option<Spanned<Type>>, usize),
>)
    requires
        pos <= t@.len(),
    ensures
        ({
            let (sr, sm) = sp_return_type(t.deep_view(), pos as int, old(itn)@);
            final(itn)@ == sm && match (r, sr) {
                (Some((Some(a), np)), Some((Some(b), snp))) => a@ == b && np as int == snp && pos
                    < np <= t@.len(),
                (Some((None, np)), Some((None, snp))) => np as int == snp && np == pos,
                (None, None) => true,
                _ => false,
            }
        }),
{
    let mut arrow = false;
    if pos < t.len() && pos + 1 < t.len() {
        assert(t.deep_view()[pos as int] == t@[pos as int]@);
        assert(t.deep_view()[pos as int + 1] == t@[pos as int + 1]@);
        let minus = match &t[pos] {
            Token::Minus => true,
            _ => false,
        };
        let gt = match &t[pos + 1] {
            Token::GreaterThan => true,
            _ => false,
        };
        arrow = minus && gt;
    }
    if arrow {
        match Type::parser(t, pos + 2, itn) {
            Some((ty, l)) => Some((Some(ty), l)),
            None => None,
        }
    } else {
        Some((None, pos))
    }
}

fn parse_type_list(t: &Vec<Token>, pos: usize, itn: &mut Interner) -> (r: Option<
    (Vec<Spanned<Type>>, usize),
>)
    requires
        pos <= t@.len(),
    ensures
        ({
            let (sr, sm) = sp_type_list(t.deep_view(), pos as int, old(itn)@);
            final(itn)@ == sm && match (r, sr) {
                (Some(a), Some(b)) => sp_views_ty(a.0@) == b.0 && a.1 as int == b.1 && pos < a.1
                    <= t@.len(),
                (None, None) => true,
                _ => false,
            }
        }),
    decreases t@.len() - pos, 1int,
{
    match Type::parser(t, pos, itn) {
        None => None,
        Some((ty, j)) => {
            let ghost tyv = ty@;
            let mut comma = false;
            if j < t.len() {
                assert(t.deep_view()[j as int] == t@[j as int]@);
                comma = match &t[j] {
                    Token::Comma => true,
                    _ => false,
                };
            }
            if comma {
                match parse_type_list(t, j + 1, itn) {
                    Some((mut rest, e)) => {
                        let ghost restv = rest@;
                        rest.insert(0, ty);
                        assert(sp_views_ty(rest@) =~= seq![tyv] + sp_views_ty(restv)) by {
                            assert(rest@ == restv.insert(0, ty));
                            assert(rest@.len() == restv.len() + 1);
                            assert(rest@[0] == ty);
                            assert(forall|k: int| 1 <= k < rest@.len() ==> rest@[k] == restv[k - 1]);
                        };
                        Some((rest, e))
                    },
                    None => None,
                }
            } else {
                let mut v: Vec<Spanned<Type>> = Vec::new();
                v.push(ty);
                assert(sp_views_ty(v@) =~= seq![tyv]);
                Some((v, j))
            }
        },
    }
}

pub proof fn lemma_views_ty_len(v: Seq<Spanned<Type>>)
    ensures
        sp_views_ty(v).len() == v.len(),
{
}

pub proof fn lemma_views_ty_index(v: Seq<Spanned<Type>>, k: int)
    requires
        0 <= k < v.len(),
    ensures
        sp_views_ty(v).len() == v.len(),
        sp_views_ty(v)[k] == (SpannedV { span: v[k].span, inner: v[k].inner@ }),
{
}

} // verus!
