use vstd::prelude::*;

use crate::ids::{sp_intern, FunctionId, Interner, InternerV};
use crate::lexer::{copy_bytes, Token, TokenV};
use crate::spanned::{sp_span, Span, Spanned, SpannedV};

use super::expression::{sp_expr, Expression, ExpressionV};
use super::{tok_is_equals, tok_is_semicolon};
use super::lemma_cons_index;
use super::pattern::{sp_pattern, Pattern, PatternV};
use super::views::{lemma_views_arg_index, lemma_views_arg_len, sp_views_arg};
use super::ty::{parse_return_type, parse_ty_annotation, sp_return_type, sp_ty_annotation, Type, TypeV};

verus! {

/// A function definition:
/// `fn Name ( (Pattern (: Type)? ,)* ) (-> Type)? = Expression ;`.
#[derive(Debug)]
pub struct Function {
    pub name: Spanned<FunctionId>,
    pub args: Vec<(Spanned<Pattern>, Option<Spanned<Type>>)>,
    pub return_type: Option<Spanned<Type>>,
    pub body: Spanned<Expression>,
}

/// The mathematical image of a [`Function`].
pub struct FunctionV {
    pub name: SpannedV<FunctionId>,
    pub args: Seq<(SpannedV<PatternV>, Option<SpannedV<TypeV>>)>,
    pub return_type: Option<SpannedV<TypeV>>,
    pub body: SpannedV<ExpressionV>,
}

/// One or more comma-separated arguments — a pattern with an optional `:`
/// type annotation — with a trailing comma allowed just before the closing
/// parenthesis.
pub open spec fn sp_args(t: Seq<TokenV>, i: int, m: InternerV) -> (Option<
    (Seq<(SpannedV<PatternV>, Option<SpannedV<TypeV>>)>, int),
>, InternerV)
    decreases t.len() - i,
{
    let (r, m1) = sp_pattern(t, i, m);
    match r {
        None => (None, m1),
        Some((p, j)) => {
            let (tyr, m2) = sp_ty_annotation(t, j, m1);
            match tyr {
                None => (None, m2),
                Some((ty, k)) => {
                    let arg = (p, ty);
                    if 0 <= k && k < t.len() && k > i && t[k] == TokenV::Comma {
                        if k + 1 < t.len() && t[k + 1] == TokenV::RParen {
                            (Some((seq![arg], k + 1)), m2)
                        } else {
                            let (r3, m3) = sp_args(t, k + 1, m2);
                            match r3 {
                                Some((args, e)) => (Some((seq![arg] + args, e)), m3),
                                None => (None, m3),
                            }
                        }
                    } else {
                        (Some((seq![arg], k)), m2)
                    }
                },
            }
        },
    }
}

/// A parenthesized argument list, possibly empty.
pub open spec fn sp_paren_args(t: Seq<TokenV>, i: int, m: InternerV) -> (Option<
    (Seq<(SpannedV<PatternV>, Option<SpannedV<TypeV>>)>, int),
>, InternerV) {
    if !(0 <= i && i < t.len() && t[i] == TokenV::LParen) {
        (None, m)
    } else if i + 1 < t.len() && t[i + 1] == TokenV::RParen {
        (Some((Seq::<(SpannedV<PatternV>, Option<SpannedV<TypeV>>)>::empty(), i + 2)), m)
    } else {
        let (ar, m1) = sp_args(t, i + 1, m);
        match ar {
            Some((args, j)) => {
                if 0 <= j < t.len() && t[j] == TokenV::RParen {
                    (Some((args, j + 1)), m1)
                } else {
                    (None, m1)
                }
            },
            None => (None, m1),
        }
    }
}

/// The function definition read at position `i`.
pub open spec fn sp_function(t: Seq<TokenV>, i: int, m: InternerV) -> (Option<
    (SpannedV<FunctionV>, int),
>, InternerV)
    decreases t.len() - i, 6int,
{
    if !(0 <= i && i + 1 < t.len() && t[i] == TokenV::Fn) {
        (None, m)
    } else {
        match t[i + 1] {
            TokenV::Identifier(x) => {
                let (fid, fns) = sp_intern(m.functions, x);
                let m1 = InternerV { functions: fns, ..m };
                let namev = SpannedV {
                    span: sp_span(i + 1, i + 2),
                    inner: FunctionId(fid as usize),
                };
                let (argsr, m2) = sp_paren_args(t, i + 2, m1);
                match argsr {
                    None => (None, m2),
                    Some((args, k)) => {
                        if k <= i || k > t.len() {
                            (None, m2)
                        } else {
                            sp_function_tail(t, i, namev, args, k, m2)
                        }
                    },
                }
            },
            _ => (None, m),
        }
    }
}

/// The part of a function definition after its argument list: the optional
/// return type, `=`, the body expression, and `;`. `i` is where the
/// definition began; `k` is where the return type may begin.
pub open spec fn sp_function_tail(
    t: Seq<TokenV>,
    i: int,
    namev: SpannedV<FunctionId>,
    args: Seq<(SpannedV<PatternV>, Option<SpannedV<TypeV>>)>,
    k: int,
    m: InternerV,
) -> (Option<(SpannedV<FunctionV>, int)>, InternerV)
    decreases t.len() - k, 6int,
{
    let (rtr, m3) = sp_return_type(t, k, m);
    match rtr {
        None => (None, m3),
        Some((rty, l)) => {
            if 0 <= l && l < t.len() && l >= k && t[l] == TokenV::Equals {
                let (r5, m4) = sp_expr(t, l + 1, m3);
                match r5 {
                    None => (None, m4),
                    Some((body, e)) => {
                        if 0 <= e < t.len() && t[e] == TokenV::Semicolon {
                            (
                                Some(
                                    (
                                        SpannedV {
                                            span: sp_span(i, e + 1),
                                            inner: FunctionV {
                                                name: namev,
                                                args,
                                                return_type: rty,
                                                body,
                                            },
                                        },
                                        e + 1,
                                    ),
                                ),
                                m4,
                            )
                        } else {
                            (None, m4)
                        }
                    },
                }
            } else {
                (None, m3)
            }
        },
    }
}

#[verifier::rlimit(100)]
fn parse_args(t: &Vec<Token>, pos: usize, itn: &mut Interner) -> (r: Option<
    (Vec<(Spanned<Pattern>, Option<Spanned<Type>>)>, usize),
>)
    requires
        pos <= t@.len(),
    ensures
        ({
            let (sr, sm) = sp_args(t.deep_view(), pos as int, old(itn)@);
            final(itn)@ == sm && match (r, sr) {
                (Some(a), Some(b)) => sp_views_arg(a.0@) == b.0 && a.1 as int == b.1 && pos < a.1
                    <= t@.len(),
                (None, None) => true,
                _ => false,
            }
        }),
    decreases t@.len() - pos,
{
    match Pattern::parser(t, pos, itn) {
        None => None,
        Some((p, j)) => {
            match parse_ty_annotation(t, j, itn) {
                None => None,
                Some((ty, k)) => {
                    let arg = (p, ty);
                    let ghost argv = (
                        SpannedV { span: arg.0.span, inner: arg.0.inner.view() },
                        match &arg.1 {
                            Some(ty) => Some(SpannedV { span: ty.span, inner: ty.inner.view() }),
                            None => None,
                        },
                    );
                    let mut comma = false;
                    if k < t.len() {
                        assert(t.deep_view()[k as int] == t@[k as int]@);
                        comma = match &t[k] {
                            Token::Comma => true,
                            _ => false,
                        };
                    }
                    if comma {
                        let mut trailing = false;
                        if k + 1 < t.len() {
                            assert(t.deep_view()[k as int + 1] == t@[k as int + 1]@);
                            trailing = match &t[k + 1] {
                                Token::RParen => true,
                                _ => false,
                            };
                        }
                        if trailing {
                            let mut v: Vec<(Spanned<Pattern>, Option<Spanned<Type>>)> = Vec::new();
                            v.push(arg);
                            proof {
                                lemma_views_arg_index(v@, 0);
                                assert(sp_views_arg(v@) =~= seq![argv]);
                            }
                            Some((v, k + 1))
                        } else {
                            match parse_args(t, k + 1, itn) {
                                Some((mut rest, e)) => {
                                    let ghost restv = rest@;
                                    let mut v: Vec<(Spanned<Pattern>, Option<Spanned<Type>>)> =
                                        Vec::new();
                                    v.push(arg);
                                    v.append(&mut rest);
                                    proof {
                                        assert(v@ =~= seq![arg] + restv);
                                        assert(v@.len() == restv.len() + 1);
                                        let a = sp_views_arg(v@);
                                        let b = seq![argv] + sp_views_arg(restv);
                                        lemma_views_arg_len(v@);
                                        lemma_views_arg_len(restv);
                                        assert forall|q: int| 0 <= q < a.len() implies a[q]
                                            == b[q] by {
                                            lemma_views_arg_index(v@, q);
                                            if q == 0 {
                                                assert(v@[0] == arg);
                                            } else {
                                                lemma_cons_index(arg, restv, q);
                                                assert(v@[q] == restv[q - 1]);
                                                lemma_views_arg_index(restv, q - 1);
                                                lemma_cons_index(argv, sp_views_arg(restv), q);
                                            }
                                        }
                                        assert(a =~= b);
                                    }
                                    Some((v, e))
                                },
                                None => None,
                            }
                        }
                    } else {
                        let mut v: Vec<(Spanned<Pattern>, Option<Spanned<Type>>)> = Vec::new();
                        v.push(arg);
                        proof {
                            lemma_views_arg_index(v@, 0);
                            assert(sp_views_arg(v@) =~= seq![argv]);
                        }
                        Some((v, k))
                    }
                },
            }
        },
    }
}

#[verifier::rlimit(100)]
fn parse_paren_args(t: &Vec<Token>, pos: usize, itn: &mut Interner) -> (r: Option<
    (Vec<(Spanned<Pattern>, Option<Spanned<Type>>)>, usize),
>)
    requires
        pos <= t@.len(),
    ensures
        ({
            let (sr, sm) = sp_paren_args(t.deep_view(), pos as int, old(itn)@);
            final(itn)@ == sm && match (r, sr) {
                (Some(a), Some(b)) => sp_views_arg(a.0@) == b.0 && a.1 as int == b.1 && pos < a.1
                    <= t@.len(),
                (None, None) => true,
                _ => false,
            }
        }),
{
    if pos >= t.len() {
        return None;
    }
    assert(t.deep_view()[pos as int] == t@[pos as int]@);
    let is_paren = match &t[pos] {
        Token::LParen => true,
        _ => false,
    };
    if !is_paren {
        return None;
    }
    let mut empty_args = false;
    if pos + 1 < t.len() {
        assert(t.deep_view()[pos as int + 1] == t@[pos as int + 1]@);
        empty_args = match &t[pos + 1] {
            Token::RParen => true,
            _ => false,
        };
    }
    if empty_args {
        let v: Vec<(Spanned<Pattern>, Option<Spanned<Type>>)> = Vec::new();
        proof {
            lemma_views_arg_len(v@);
            assert(sp_views_arg(v@) =~= Seq::<
                (SpannedV<PatternV>, Option<SpannedV<TypeV>>),
            >::empty());
        }
        Some((v, pos + 2))
    } else {
        match parse_args(t, pos + 1, itn) {
            Some((args, j)) => {
                if j < t.len() {
                    assert(t.deep_view()[j as int] == t@[j as int]@);
                    match &t[j] {
                        Token::RParen => Some((args, j + 1)),
                        _ => None,
                    }
                } else {
                    None
                }
            },
            None => None,
        }
    }
}

impl Function {
    /// Reads one function definition starting at `pos`.
    #[verifier::rlimit(100)]
    pub fn parser(t: &Vec<Token>, pos: usize, itn: &mut Interner) -> (r: Option<
        (Spanned<Function>, usize),
    >)
        requires
            pos <= t@.len(),
        ensures
            ({
                let (sr, sm) = sp_function(t.deep_view(), pos as int, old(itn)@);
                final(itn)@ == sm && match (r, sr) {
                    (Some(a), Some(b)) => a.0@ == b.0 && a.1 as int == b.1 && pos < a.1 <= t@.len(),
                    (None, None) => true,
                    _ => false,
                }
            }),
        decreases t@.len() - pos, 6int,
    {
        if pos >= t.len() {
            return None;
        }
        if pos + 1 >= t.len() {
            return None;
        }
        assert(t.deep_view()[pos as int] == t@[pos as int]@);
        let is_fn = match &t[pos] {
            Token::Fn => true,
            _ => false,
        };
        if !is_fn {
            return None;
        }
        assert(t.deep_view()[pos as int + 1] == t@[pos as int + 1]@);
        let name = match &t[pos + 1] {
            Token::Identifier(x) => itn.intern_function(copy_bytes(x)),
            _ => {
                return None;
            },
        };
        let namesp = Spanned::new(name, Span::new(pos + 1, pos + 2));
        match parse_paren_args(t, pos + 2, itn) {
            None => None,
            Some((args, k)) => parse_function_tail(t, pos, namesp, args, k, itn),
        }
    }
}

#[verifier::rlimit(100)]
#[verifier::spinoff_prover]
fn parse_function_tail(
    t: &Vec<Token>,
    start: usize,
    namesp: Spanned<FunctionId>,
    args: Vec<(Spanned<Pattern>, Option<Spanned<Type>>)>,
    pos: usize,
    itn: &mut Interner,
) -> (r: Option<(Spanned<Function>, usize)>)
    requires
        start < pos <= t@.len(),
    ensures
        ({
            let (sr, sm) = sp_function_tail(
                t.deep_view(),
                start as int,
                namesp@,
                sp_views_arg(args@),
                pos as int,
                old(itn)@,
            );
            final(itn)@ == sm && match (r, sr) {
                (Some(a), Some(b)) => a.0@ == b.0 && a.1 as int == b.1 && pos < a.1 <= t@.len(),
                (None, None) => true,
                _ => false,
            }
        }),
    decreases t@.len() - pos, 6int,
{
    let n = t.len();
    match parse_return_type(t, pos, itn) {
        None => None,
        Some((rty, l)) => {
            if !tok_is_equals(t, l) {
                return None;
            }
            match Expression::parser(t, l + 1, itn) {
                None => None,
                Some((body, e)) => {
                    if !tok_is_semicolon(t, e) {
                        return None;
                    }
                    let sp = Span::new(start, e + 1);
                    Some(
                        (
                            Spanned::new(
                                Function { name: namesp, args, return_type: rty, body },
                                sp,
                            ),
                            e + 1,
                        ),
                    )
                },
            }
        },
    }
}

} // verus!
