use vstd::prelude::*;

use crate::ids::{sp_intern, Interner, InternerV, VariableId};
use crate::lexer::{copy_bytes, Token, TokenV};
use crate::spanned::{sp_span, Span, Spanned, SpannedV};

use super::block::{sp_block, BlockExpression, BlockExpressionV};
use super::literal::{sp_literal, Literal, LiteralV};
use super::operations::BinaryOp;

verus! {

/// An expression.
#[derive(Debug)]
pub enum Expression {
    /// A todo expression `_`: it evaluates to nothing and never executes.
    Todo(Spanned<()>),
    /// A literal expression.
    Literal(Spanned<Literal>),
    /// A variable expression.
    Variable(Spanned<VariableId>),
    /// A binary expression of the form `a op b`.
    Binary(Box<Spanned<Expression>>, Spanned<BinaryOp>, Box<Spanned<Expression>>),
    /// A function call; reserved — no grammar production builds it yet.
    FunctionCall,
    /// A block expression, as in `let a = { let x = 2; x * 3 };`.
    Block(BlockExpression),
    /// An if expression; reserved — no grammar production builds it yet.
    If,
}

/// The mathematical image of an [`Expression`].
pub enum ExpressionV {
    Todo(SpannedV<()>),
    Literal(SpannedV<LiteralV>),
    Variable(SpannedV<VariableId>),
    Binary(Box<SpannedV<ExpressionV>>, SpannedV<BinaryOp>, Box<SpannedV<ExpressionV>>),
    FunctionCall,
    Block(BlockExpressionV),
    If,
}

/// The atomic expression read at position `i`: a todo `_`, a literal, a
/// variable (interned), a parenthesized expression (re-spanned to include
/// the parentheses), or a block.
pub open spec fn sp_atom(t: Seq<TokenV>, i: int, m: InternerV) -> (Option<
    (SpannedV<ExpressionV>, int),
>, InternerV)
    decreases t.len() - i, 3int,
{
    if i < 0 || i >= t.len() {
        (None, m)
    } else {
        match t[i] {
            TokenV::Wildcard => (
                Some(
                    (
                        SpannedV {
                            span: sp_span(i, i + 1),
                            inner: ExpressionV::Todo(
                                SpannedV { span: sp_span(i, i + 1), inner: () },
                            ),
                        },
                        i + 1,
                    ),
                ),
                m,
            ),
            TokenV::Int(_) => match sp_literal(t, i) {
                Some((l, j)) => (
                    Some((SpannedV { span: l.span, inner: ExpressionV::Literal(l) }, j)),
                    m,
                ),
                None => (None, m),
            },
            TokenV::Float(_) => match sp_literal(t, i) {
                Some((l, j)) => (
                    Some((SpannedV { span: l.span, inner: ExpressionV::Literal(l) }, j)),
                    m,
                ),
                None => (None, m),
            },
            TokenV::Identifier(x) => {
                let (id, vars) = sp_intern(m.variables, x);
                (
                    Some(
                        (
                            SpannedV {
                                span: sp_span(i, i + 1),
                                inner: ExpressionV::Variable(
                                    SpannedV {
                                        span: sp_span(i, i + 1),
                                        inner: VariableId(id as usize),
                                    },
                                ),
                            },
                            i + 1,
                        ),
                    ),
                    InternerV { variables: vars, ..m },
                )
            },
            TokenV::LParen => {
                let (r, m1) = sp_expr(t, i + 1, m);
                match r {
                    Some((e, j)) => {
                        if 0 <= j < t.len() && t[j] == TokenV::RParen {
                            (Some((SpannedV { span: sp_span(i, j + 1), inner: e.inner }, j + 1)), m1)
                        } else {
                            (None, m1)
                        }
                    },
                    None => (None, m1),
                }
            },
            TokenV::LBrace => {
                let (r, m1) = sp_block(t, i, m);
                match r {
                    Some((b, j)) => (
                        Some(
                            (SpannedV { span: sp_span(i, j), inner: ExpressionV::Block(b) }, j),
                        ),
                        m1,
                    ),
                    None => (None, m1),
                }
            },
            _ => (None, m),
        }
    }
}

/// A product chain: an atom followed by any number of `*` or `/` atoms,
/// grouped left-to-right.
pub open spec fn sp_mul(t: Seq<TokenV>, i: int, m: InternerV) -> (Option<
    (SpannedV<ExpressionV>, int),
>, InternerV)
    decreases t.len() - i, 4int,
{
    let (r, m1) = sp_atom(t, i, m);
    match r {
        None => (None, m1),
        Some((lhs, j)) => {
            if j <= i || j > t.len() {
                (None, m1)
            } else {
                sp_mul_rest(t, j, lhs, m1)
            }
        },
    }
}

pub open spec fn sp_mul_rest(t: Seq<TokenV>, i: int, lhs: SpannedV<ExpressionV>, m: InternerV) -> (Option<
    (SpannedV<ExpressionV>, int),
>, InternerV)
    decreases t.len() - i, 4int,
{
    if 0 <= i && i < t.len() && (t[i] == TokenV::Star || t[i] == TokenV::Slash) {
        let op = if t[i] == TokenV::Star {
            BinaryOp::Multiply
        } else {
            BinaryOp::Divide
        };
        let (r, m1) = sp_atom(t, i + 1, m);
        match r {
            None => (None, m1),
            Some((rhs, j)) => {
                if j <= i + 1 || j > t.len() {
                    (None, m1)
                } else {
                    let combined = SpannedV {
                        span: Span { start: lhs.span.start, end: j as usize },
                        inner: ExpressionV::Binary(
                            Box::new(lhs),
                            SpannedV { span: sp_span(i, i + 1), inner: op },
                            Box::new(rhs),
                        ),
                    };
                    sp_mul_rest(t, j, combined, m1)
                }
            },
        }
    } else {
        (Some((lhs, i)), m)
    }
}

/// A sum chain over product chains: `*` and `/` bind at level 2, `+` and
/// `-` at level 1, all left-associative.
pub open spec fn sp_expr(t: Seq<TokenV>, i: int, m: InternerV) -> (Option<
    (SpannedV<ExpressionV>, int),
>, InternerV)
    decreases t.len() - i, 5int,
{
    let (r, m1) = sp_mul(t, i, m);
    match r {
        None => (None, m1),
        Some((lhs, j)) => {
            if j <= i || j > t.len() {
                (None, m1)
            } else {
                sp_expr_rest(t, j, lhs, m1)
            }
        },
    }
}

pub open spec fn sp_expr_rest(t: Seq<TokenV>, i: int, lhs: SpannedV<ExpressionV>, m: InternerV) -> (Option<
    (SpannedV<ExpressionV>, int),
>, InternerV)
    decreases t.len() - i, 5int,
{
    if 0 <= i && i < t.len() && (t[i] == TokenV::Plus || t[i] == TokenV::Minus) {
        let op = if t[i] == TokenV::Plus {
            BinaryOp::Add
        } else {
            BinaryOp::Subtract
        };
        let (r, m1) = sp_mul(t, i + 1, m);
        match r {
            None => (None, m1),
            Some((rhs, j)) => {
                if j <= i + 1 || j > t.len() {
                    (None, m1)
                } else {
                    let combined = SpannedV {
                        span: Span { start: lhs.span.start, end: j as usize },
                        inner: ExpressionV::Binary(
                            Box::new(lhs),
                            SpannedV { span: sp_span(i, i + 1), inner: op },
                            Box::new(rhs),
                        ),
                    };
                    sp_expr_rest(t, j, combined, m1)
                }
            },
        }
    } else {
        (Some((lhs, i)), m)
    }
}

impl Expression {
    /// Reads one expression starting at `pos`, with precedence climbing.
    #[verifier::rlimit(100)]
    pub fn parser(t: &Vec<Token>, pos: usize, itn: &mut Interner) -> (r: Option<
        (Spanned<Expression>, usize),
    >)
        requires
            pos <= t@.len(),
        ensures
            ({
                let (sr, sm) = sp_expr(t.deep_view(), pos as int, old(itn)@);
                final(itn)@ == sm && match (r, sr) {
                    (Some(a), Some(b)) => a.0@ == b.0 && a.1 as int == b.1 && pos < a.1 <= t@.len(),
                    (None, None) => true,
                    _ => false,
                }
            }),
        decreases t@.len() - pos, 5int,
    {
        match parse_mul(t, pos, itn) {
            None => None,
            Some((lhs, j)) => parse_expr_rest(t, j, lhs, itn),
        }
    }
}

#[verifier::rlimit(100)]
fn parse_atom(t: &Vec<Token>, pos: usize, itn: &mut Interner) -> (r: Option<
    (Spanned<Expression>, usize),
>)
    requires
        pos <= t@.len(),
    ensures
        ({
            let (sr, sm) = sp_atom(t.deep_view(), pos as int, old(itn)@);
            final(itn)@ == sm && match (r, sr) {
                (Some(a), Some(b)) => a.0@ == b.0 && a.1 as int == b.1 && pos < a.1 <= t@.len(),
                (None, None) => true,
                _ => false,
            }
        }),
    decreases t@.len() - pos, 3int,
{
    if pos >= t.len() {
        return None;
    }
    assert(t.deep_view()[pos as int] == t@[pos as int]@);
    match &t[pos] {
        Token::Wildcard => {
            let sp = Span::new(pos, pos + 1);
            Some((Spanned::new(Expression::Todo(Spanned::new((), sp)), sp), pos + 1))
        },
        Token::Int(_) => {
            match Literal::parser(t, pos) {
                Some((lit, j)) => {
                    let sp = lit.span;
                    Some((Spanned::new(Expression::Literal(lit), sp), j))
                },
                None => None,
            }
        },
        Token::Float(_) => {
            match Literal::parser(t, pos) {
                Some((lit, j)) => {
                    let sp = lit.span;
                    Some((Spanned::new(Expression::Literal(lit), sp), j))
                },
                None => None,
            }
        },
        Token::Identifier(x) => {
            let id = itn.intern_variable(copy_bytes(x));
            let sp = Span::new(pos, pos + 1);
            Some((Spanned::new(Expression::Variable(Spanned::new(id, sp)), sp), pos + 1))
        },
        Token::LParen => {
            match Expression::parser(t, pos + 1, itn) {
                Some((e, j)) => {
                    if j < t.len() {
                        assert(t.deep_view()[j as int] == t@[j as int]@);
                        match &t[j] {
                            Token::RParen => {
                                let sp = Span::new(pos, j + 1);
                                Some((Spanned::new(e.into_inner(), sp), j + 1))
                            },
                            _ => None,
                        }
                    } else {
                        None
                    }
                },
                None => None,
            }
        },
        Token::LBrace => {
            match BlockExpression::parser(t, pos, itn) {
                Some((b, j)) => {
                    let sp = Span::new(pos, j);
                    Some((Spanned::new(Expression::Block(b), sp), j))
                },
                None => None,
            }
        },
        _ => None,
    }
}

#[verifier::rlimit(100)]
fn parse_mul(t: &Vec<Token>, pos: usize, itn: &mut Interner) -> (r: Option<
    (Spanned<Expression>, usize),
>)
    requires
        pos <= t@.len(),
    ensures
        ({
            let (sr, sm) = sp_mul(t.deep_view(), pos as int, old(itn)@);
            final(itn)@ == sm && match (r, sr) {
                (Some(a), Some(b)) => a.0@ == b.0 && a.1 as int == b.1 && pos < a.1 <= t@.len(),
                (None, None) => true,
                _ => false,
            }
        }),
    decreases t@.len() - pos, 4int,
{
    match parse_atom(t, pos, itn) {
        None => None,
        Some((lhs, j)) => parse_mul_rest(t, j, lhs, itn),
    }
}

#[verifier::rlimit(100)]
fn parse_mul_rest(t: &Vec<Token>, pos: usize, lhs: Spanned<Expression>, itn: &mut Interner) -> (r:
    Option<(Spanned<Expression>, usize)>)
    requires
        pos <= t@.len(),
    ensures
        ({
            let (sr, sm) = sp_mul_rest(t.deep_view(), pos as int, lhs@, old(itn)@);
            final(itn)@ == sm && match (r, sr) {
                (Some(a), Some(b)) => a.0@ == b.0 && a.1 as int == b.1 && pos <= a.1 <= t@.len(),
                (None, None) => true,
                _ => false,
            }
        }),
    decreases t@.len() - pos, 4int,
{
    let mut is_op = false;
    let mut star = false;
    if pos < t.len() {
        assert(t.deep_view()[pos as int] == t@[pos as int]@);
        match &t[pos] {
            Token::Star => {
                is_op = true;
                star = true;
            },
            Token::Slash => {
                is_op = true;
            },
            _ => {},
        }
    }
    if is_op {
        let op = if star {
            BinaryOp::Multiply
        } else {
            BinaryOp::Divide
        };
        match parse_atom(t, pos + 1, itn) {
            None => None,
            Some((rhs, j)) => {
                let sp = Span::new(lhs.span.start, j);
                let opspan = Spanned::new(op, Span::new(pos, pos + 1));
                let combined = Spanned::new(
                    Expression::Binary(Box::new(lhs), opspan, Box::new(rhs)),
                    sp,
                );
                parse_mul_rest(t, j, combined, itn)
            },
        }
    } else {
        Some((lhs, pos))
    }
}

#[verifier::rlimit(100)]
fn parse_expr_rest(t: &Vec<Token>, pos: usize, lhs: Spanned<Expression>, itn: &mut Interner) -> (r:
    Option<(Spanned<Expression>, usize)>)
    requires
        pos <= t@.len(),
    ensures
        ({
            let (sr, sm) = sp_expr_rest(t.deep_view(), pos as int, lhs@, old(itn)@);
            final(itn)@ == sm && match (r, sr) {
                (Some(a), Some(b)) => a.0@ == b.0 && a.1 as int == b.1 && pos <= a.1 <= t@.len(),
                (None, None) => true,
                _ => false,
            }
        }),
    decreases t@.len() - pos, 5int,
{
    let mut is_op = false;
    let mut plus = false;
    if pos < t.len() {
        assert(t.deep_view()[pos as int] == t@[pos as int]@);
        match &t[pos] {
            Token::Plus => {
                is_op = true;
                plus = true;
            },
            Token::Minus => {
                is_op = true;
            },
            _ => {},
        }
    }
    if is_op {
        let op = if plus {
            BinaryOp::Add
        } else {
            BinaryOp::Subtract
        };
        match parse_mul(t, pos + 1, itn) {
            None => None,
            Some((rhs, j)) => {
                let sp = Span::new(lhs.span.start, j);
                let opspan = Spanned::new(op, Span::new(pos, pos + 1));
                let combined = Spanned::new(
                    Expression::Binary(Box::new(lhs), opspan, Box::new(rhs)),
                    sp,
                );
                parse_expr_rest(t, j, combined, itn)
            },
        }
    } else {
        Some((lhs, pos))
    }
}

} // verus!
