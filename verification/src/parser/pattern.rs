use vstd::prelude::*;

use crate::ids::{sp_intern, Interner, InternerV, VariableId};
use crate::lexer::{copy_bytes, Token, TokenV};
use crate::spanned::{sp_span, Span, Spanned, SpannedV};

use super::literal::{sp_literal, Literal, LiteralV};

verus! {

/// A pattern: the shape allowed in `let` positions and function arguments.
#[derive(Debug)]
pub enum Pattern {
    /// The wildcard `_`: the value is unused.
    Wildcard(Spanned<()>),
    /// A plain binding, as in `let foo = 1;`.
    Variable(Spanned<VariableId>),
    /// A literal, for matching in function heads such as `fn foo(0) = 1;`.
    Literal(Spanned<Literal>),
    /// A tuple destructuring, as in `let (a, b) = c;`.
    Tuple(Vec<Spanned<Pattern>>),
}

/// The mathematical image of a [`Pattern`].
pub enum PatternV {
    Wildcard(SpannedV<()>),
    Variable(SpannedV<VariableId>),
    Literal(SpannedV<LiteralV>),
    Tuple(Seq<SpannedV<PatternV>>),
}

/// The images of a list of spanned patterns. The bounds guard keeps the
/// recursion structural; out-of-range entries are never read.
pub open spec fn sp_views_pat(v: Seq<Spanned<Pattern>>) -> Seq<SpannedV<PatternV>>
    decreases v,
{
    Seq::new(
        v.len(),
        |k: int|
            if 0 <= k < v.len() {
                SpannedV { span: v[k].span, inner: v[k].inner.view() }
            } else {
                arbitrary()
            },
    )
}

impl View for Pattern {
    type V = PatternV;

    open spec fn view(&self) -> PatternV
        decreases self,
    {
        match self {
            Pattern::Wildcard(s) => PatternV::Wildcard(SpannedV { span: s.span, inner: () }),
            Pattern::Variable(s) => PatternV::Variable(SpannedV { span: s.span, inner: s.inner }),
            Pattern::Literal(s) => PatternV::Literal(SpannedV { span: s.span, inner: s.inner@ }),
            Pattern::Tuple(v) => PatternV::Tuple(sp_views_pat(v@)),
        }
    }
}

/// The pattern read at position `i`: a wildcard, a name (interned as a
/// variable), a literal, or a parenthesized tuple of at least one pattern
/// with an optional trailing comma. Interning effects are kept even when
/// the parse fails partway.
pub open spec fn sp_pattern(t: Seq<TokenV>, i: int, m: InternerV) -> (Option<
    (SpannedV<PatternV>, int),
>, InternerV)
    decreases t.len() - i, 0int,
{
    if i < 0 || i >= t.len() {
        (None, m)
    } else {
        match t[i] {
            TokenV::Wildcard => (
                Some(
                    (
                        SpannedV {
                            span: sp_span(i, i + 1),
                            inner: PatternV::Wildcard(SpannedV { span: sp_span(i, i + 1), inner: () }),
                        },
                        i + 1,
                    ),
                ),
                m,
            ),
            TokenV::Identifier(x) => {
                let (id, vars) = sp_intern(m.variables, x);
                (
                    Some(
                        (
                            SpannedV {
                                span: sp_span(i, i + 1),
                                inner: PatternV::Variable(
                                    SpannedV {
                                        span: sp_span(i, i + 1),
                                        inner: VariableId(id as usize),
                                    },
                                ),
                            },
                            i + 1,
                        ),
                    ),
                    InternerV { variables: vars, ..m },
                )
            },
            TokenV::Int(_) => match sp_literal(t, i) {
                Some((l, j)) => (
                    Some((SpannedV { span: l.span, inner: PatternV::Literal(l) }, j)),
                    m,
                ),
                None => (None, m),
            },
            TokenV::Float(_) => match sp_literal(t, i) {
                Some((l, j)) => (
                    Some((SpannedV { span: l.span, inner: PatternV::Literal(l) }, j)),
                    m,
                ),
                None => (None, m),
            },
            TokenV::LParen => {
                let (r, m1) = sp_pattern_list(t, i + 1, m);
                match r {
                    Some((ps, j)) => {
                        if 0 <= j < t.len() && t[j] == TokenV::RParen {
                            (
                                Some(
                                    (
                                        SpannedV {
                                            span: sp_span(i, j + 1),
                                            inner: PatternV::Tuple(ps),
                                        },
                                        j + 1,
                                    ),
                                ),
                                m1,
                            )
                        } else {
                            (None, m1)
                        }
                    },
                    None => (None, m1),
                }
            },
            _ => (None, m),
        }
    }
}

/// One or more comma-separated patterns, with a trailing comma allowed
/// just before the closing parenthesis.
pub open spec fn sp_pattern_list(t: Seq<TokenV>, i: int, m: InternerV) -> (Option<
    (Seq<SpannedV<PatternV>>, int),
>, InternerV)
    decreases t.len() - i, 1int,
{
    let (r, m1) = sp_pattern(t, i, m);
    match r {
        None => (None, m1),
        Some((p, j)) => {
            if j <= i {
                (None, m1)
            } else if 0 <= j < t.len() && t[j] == TokenV::Comma {
                if j + 1 < t.len() && t[j + 1] == TokenV::RParen {
                    (Some((seq![p], j + 1)), m1)
                } else {
                    let (r2, m2) = sp_pattern_list(t, j + 1, m1);
                    match r2 {
                        Some((ps, e)) => (Some((seq![p] + ps, e)), m2),
                        None => (None, m2),
                    }
                }
            } else {
                (Some((seq![p], j)), m1)
            }
        },
    }
}

impl Pattern {
    /// Reads one pattern starting at `pos`, interning variable names.
    pub fn parser(t: &Vec<Token>, pos: usize, itn: &mut Interner) -> (r: Option<
        (Spanned<Pattern>, usize),
    >)
        requires
            pos <= t@.len(),
        ensures
            ({
                let (sr, sm) = sp_pattern(t.deep_view(), pos as int, old(itn)@);
                final(itn)@ == sm && match (r, sr) {
                    (Some(a), Some(b)) => a.0@ == b.0 && a.1 as int == b.1 && pos < a.1 <= t@.len(),
                    (None, None) => true,
                    _ => false,
                }
            }),
        decreases t@.len() - pos, 0int,
    {
        if pos >= t.len() {
            return None;
        }
        assert(t.deep_view()[pos as int] == t@[pos as int]@);
        match &t[pos] {
            Token::Wildcard => {
                let sp = Span::new(pos, pos + 1);
                Some((Spanned::new(Pattern::Wildcard(Spanned::new((), sp)), sp), pos + 1))
            },
            Token::Identifier(x) => {
                let id = itn.intern_variable(copy_bytes(x));
                let sp = Span::new(pos, pos + 1);
                Some((Spanned::new(Pattern::Variable(Spanned::new(id, sp)), sp), pos + 1))
            },
            Token::Int(_) => {
                let l = Literal::parser(t, pos);
                match l {
                    Some((lit, j)) => {
                        let sp = lit.span;
                        Some((Spanned::new(Pattern::Literal(lit), sp), j))
                    },
                    None => None,
                }
            },
            Token::Float(_) => {
                let l = Literal::parser(t, pos);
                match l {
                    Some((lit, j)) => {
                        let sp = lit.span;
                        Some((Spanned::new(Pattern::Literal(lit), sp), j))
                    },
                    None => None,
                }
            },
            Token::LParen => {
                match parse_pattern_list(t, pos + 1, itn) {
                    Some((ps, j)) => {
                        if j < t.len() {
                            assert(t.deep_view()[j as int] == t@[j as int]@);
                            match &t[j] {
                                Token::RParen => {
                                    let sp = Span::new(pos, j + 1);
                                    Some((Spanned::new(Pattern::Tuple(ps), sp), j + 1))
                                },
                                _ => None,
                            }
                        } else {
                            None
                        }
                    },
                    None => None,
                }
            },
            _ => None,
        }
    }
}

fn parse_pattern_list(t: &Vec<Token>, pos: usize, itn: &mut Interner) -> (r: Option<
    (Vec<Spanned<Pattern>>, usize),
>)
    requires
        pos <= t@.len(),
    ensures
        ({
            let (sr, sm) = sp_pattern_list(t.deep_view(), pos as int, old(itn)@);
            final(itn)@ == sm && match (r, sr) {
                (Some(a), Some(b)) => sp_views_pat(a.0@) == b.0 && a.1 as int == b.1 && pos < a.1
                    <= t@.len(),
                (None, None) => true,
                _ => false,
            }
        }),
    decreases t@.len() - pos, 1int,
{
    match Pattern::parser(t, pos, itn) {
        None => None,
        Some((p, j)) => {
            let ghost pv = p@;
            if j < t.len() {
                assert(t.deep_view()[j as int] == t@[j as int]@);
                let comma = match &t[j] {
                    Token::Comma => true,
                    _ => false,
                };
                if comma {
                    let mut trailing = false;
                    if j + 1 < t.len() {
                        assert(t.deep_view()[j as int + 1] == t@[j as int + 1]@);
                        trailing = match &t[j + 1] {
                            Token::RParen => true,
                            _ => false,
                        };
                    }
                    if trailing {
                        let mut v: Vec<Spanned<Pattern>> = Vec::new();
                        v.push(p);
                        assert(sp_views_pat(v@) =~= seq![pv]);
                        Some((v, j + 1))
                    } else {
                        match parse_pattern_list(t, j + 1, itn) {
                            Some((mut rest, e)) => {
                                let ghost restv = rest@;
                                rest.insert(0, p);
                                assert(sp_views_pat(rest@) =~= seq![pv] + sp_views_pat(restv)) by {
                                    assert(rest@ == restv.insert(0, p));
                                    assert(rest@.len() == restv.len() + 1);
                                    assert(rest@[0] == p);
                                    assert(forall|k: int|
                                        1 <= k < rest@.len() ==> rest@[k] == restv[k - 1]);
                                };
                                Some((rest, e))
                            },
                            None => None,
                        }
                    }
                } else {
                    let mut v: Vec<Spanned<Pattern>> = Vec::new();
                    v.push(p);
                    assert(sp_views_pat(v@) =~= seq![pv]);
                    Some((v, j))
                }
            } else {
                let mut v: Vec<Spanned<Pattern>> = Vec::new();
                v.push(p);
                assert(sp_views_pat(v@) =~= seq![pv]);
                Some((v, j))
            }
        },
    }
}

pub proof fn lemma_views_pat_len(v: Seq<Spanned<Pattern>>)
    ensures
        sp_views_pat(v).len() == v.len(),
{
}

pub proof fn lemma_views_pat_index(v: Seq<Spanned<Pattern>>, k: int)
    requires
        0 <= k < v.len(),
    ensures
        sp_views_pat(v).len() == v.len(),
        sp_views_pat(v)[k] == (SpannedV { span: v[k].span, inner: v[k].inner@ }),
{
}

} // verus!
