use vstd::prelude::*;

use crate::ids::{Interner, InternerV};
use crate::lexer::{Token, TokenV};
use crate::spanned::{sp_span, Span, Spanned, SpannedV};

use super::expression::{sp_expr, Expression, ExpressionV};
use super::{tok_is_equals, tok_is_semicolon};
use super::pattern::{sp_pattern, Pattern, PatternV};
use super::ty::{parse_ty_annotation, sp_ty_annotation, Type, TypeV};

verus! {

/// A variable binding: `let Pattern (: Type)? = Expression ;`.
#[derive(Debug)]
pub struct Variable {
    pub name: Spanned<Pattern>,
    pub ty: Option<Spanned<Type>>,
    pub body: Spanned<Expression>,
}

/// The mathematical image of a [`Variable`].
pub struct VariableV {
    pub name: SpannedV<PatternV>,
    pub ty: Option<SpannedV<TypeV>>,
    pub body: SpannedV<ExpressionV>,
}

/// The variable binding read at position `i`: `let`, a pattern, an optional
/// `:` type annotation, `=`, a body expression, `;`.
pub open spec fn sp_variable(t: Seq<TokenV>, i: int, m: InternerV) -> (Option<
    (SpannedV<VariableV>, int),
>, InternerV)
    decreases t.len() - i, 6int,
{
    if !(0 <= i && i < t.len() && t[i] == TokenV::Let) {
        (None, m)
    } else {
        let (r1, m1) = sp_pattern(t, i + 1, m);
        match r1 {
            None => (None, m1),
            Some((name, j)) => {
                if j <= i || j > t.len() {
                    (None, m1)
                } else {
                    sp_variable_tail(t, i, name, j, m1)
                }
            },
        }
    }
}

/// The part of a variable binding after its pattern: the optional type
/// annotation, `=`, the body expression, and `;`. `i` is where the binding
/// began; `j` is where the annotation may begin.
pub open spec fn sp_variable_tail(
    t: Seq<TokenV>,
    i: int,
    name: SpannedV<PatternV>,
    j: int,
    m: InternerV,
) -> (Option<(SpannedV<VariableV>, int)>, InternerV)
    decreases t.len() - j, 6int,
{
    let (tyr, m2) = sp_ty_annotation(t, j, m);
    match tyr {
        None => (None, m2),
        Some((ty, k)) => {
            if 0 <= k && k < t.len() && k >= j && t[k] == TokenV::Equals {
                let (r3, m3) = sp_expr(t, k + 1, m2);
                match r3 {
                    None => (None, m3),
                    Some((body, e)) => {
                        if 0 <= e < t.len() && t[e] == TokenV::Semicolon {
                            (
                                Some(
                                    (
                                        SpannedV {
                                            span: sp_span(i, e + 1),
                                            inner: VariableV { name, ty, body },
                                        },
                                        e + 1,
                                    ),
                                ),
                                m3,
                            )
                        } else {
                            (None, m3)
                        }
                    },
                }
            } else {
                (None, m2)
            }
        },
    }
}

impl Variable {
    /// Reads one variable binding starting at `pos`.
    #[verifier::rlimit(100)]
    pub fn parser(t: &Vec<Token>, pos: usize, itn: &mut Interner) -> (r: Option<
        (Spanned<Variable>, usize),
    >)
        requires
            pos <= t@.len(),
        ensures
            ({
                let (sr, sm) = sp_variable(t.deep_view(), pos as int, old(itn)@);
                final(itn)@ == sm && match (r, sr) {
                    (Some(a), Some(b)) => a.0@ == b.0 && a.1 as int == b.1 && pos < a.1 <= t@.len(),
                    (None, None) => true,
                    _ => false,
                }
            }),
        decreases t@.len() - pos, 6int,
    {
        if pos >= t.len() {
            return None;
        }
        assert(t.deep_view()[pos as int] == t@[pos as int]@);
        let is_let = match &t[pos] {
            Token::Let => true,
            _ => false,
        };
        if !is_let {
            return None;
        }
        match Pattern::parser(t, pos + 1, itn) {
            None => None,
            Some((name, j)) => parse_variable_tail(t, pos, name, j, itn),
        }
    }
}

#[verifier::rlimit(100)]
#[verifier::spinoff_prover]
fn parse_variable_tail(
    t: &Vec<Token>,
    start: usize,
    name: Spanned<Pattern>,
    pos: usize,
    itn: &mut Interner,
) -> (r: Option<(Spanned<Variable>, usize)>)
    requires
        start < pos <= t@.len(),
    ensures
        ({
            let (sr, sm) = sp_variable_tail(t.deep_view(), start as int, name@, pos as int, old(itn)@);
            final(itn)@ == sm && match (r, sr) {
                (Some(a), Some(b)) => a.0@ == b.0 && a.1 as int == b.1 && pos < a.1 <= t@.len(),
                (None, None) => true,
                _ => false,
            }
        }),
    decreases t@.len() - pos, 6int,
{
    let n = t.len();
    match parse_ty_annotation(t, pos, itn) {
        None => None,
        Some((ty, k)) => {
            if !tok_is_equals(t, k) {
                return None;
            }
            match Expression::parser(t, k + 1, itn) {
                None => None,
                Some((body, e)) => {
                    if !tok_is_semicolon(t, e) {
                        return None;
                    }
                    let sp = Span::new(start, e + 1);
                    Some((Spanned::new(Variable { name, ty, body }, sp), e + 1))
                },
            }
        },
    }
}

} // verus!
