use vstd::prelude::*;

use crate::ids::{Interner, InternerV};
use crate::lexer::{Token, TokenV};
use crate::spanned::{Spanned, SpannedV};

use super::expression::{sp_expr, Expression, ExpressionV};
use super::lemma_cons_index;
use super::statement::{sp_statement, Statement, StatementV};
use super::views::{lemma_views_stmt_index, lemma_views_stmt_len, sp_views_stmt};

verus! {

/// A braced block: statements followed by an optional return expression.
#[derive(Debug)]
pub struct BlockExpression {
    pub statements: Vec<Spanned<Statement>>,
    /// The expression at the end of a block; its value is returned from the
    /// block.
    pub return_expr: Option<Box<Spanned<Expression>>>,
}

/// The mathematical image of a [`BlockExpression`].
pub struct BlockExpressionV {
    pub statements: Seq<SpannedV<StatementV>>,
    pub return_expr: Option<Box<SpannedV<ExpressionV>>>,
}

/// As many complete statements as parse, one after the other, starting at
/// `i`. Never fails: it stops in front of the first token run that is no
/// complete statement. Interning effects of a failed attempt are kept.
pub open spec fn sp_statements(t: Seq<TokenV>, i: int, m: InternerV) -> (
    Seq<SpannedV<StatementV>>,
    int,
    InternerV,
)
    decreases t.len() - i, 8int,
{
    if !(0 <= i && i < t.len() && (t[i] == TokenV::Let || t[i] == TokenV::Fn)) {
        (Seq::empty(), i, m)
    } else {
        let (r, m1) = sp_statement(t, i, m);
        match r {
            None => (Seq::empty(), i, m1),
            Some((s, j)) => {
                if j <= i || j > t.len() {
                    (Seq::empty(), i, m1)
                } else {
                    let (ss, e, m2) = sp_statements(t, j, m1);
                    (seq![s] + ss, e, m2)
                }
            },
        }
    }
}

/// The block read at position `i`: `{`, statements, an optional return
/// expression, `}`.
pub open spec fn sp_block(t: Seq<TokenV>, i: int, m: InternerV) -> (Option<
    (BlockExpressionV, int),
>, InternerV)
    decreases t.len() - i, 2int,
{
    if !(0 <= i && i < t.len() && t[i] == TokenV::LBrace) {
        (None, m)
    } else {
        let (ss, j, m1) = sp_statements(t, i + 1, m);
        if j <= i || j > t.len() {
            (None, m1)
        } else {
            let (r2, m2) = sp_expr(t, j, m1);
            match r2 {
                Some((e, k)) => {
                    if 0 <= k < t.len() && t[k] == TokenV::RBrace {
                        (
                            Some(
                                (
                                    BlockExpressionV {
                                        statements: ss,
                                        return_expr: Some(Box::new(e)),
                                    },
                                    k + 1,
                                ),
                            ),
                            m2,
                        )
                    } else {
                        (None, m2)
                    }
                },
                None => {
                    if j < t.len() && t[j] == TokenV::RBrace {
                        (
                            Some(
                                (BlockExpressionV { statements: ss, return_expr: None }, j + 1),
                            ),
                            m2,
                        )
                    } else {
                        (None, m2)
                    }
                },
            }
        }
    }
}

#[verifier::rlimit(100)]
pub(crate) fn parse_statements(t: &Vec<Token>, pos: usize, itn: &mut Interner) -> (r: (
    Vec<Spanned<Statement>>,
    usize,
))
    requires
        pos <= t@.len(),
    ensures
        ({
            let (ss, e, sm) = sp_statements(t.deep_view(), pos as int, old(itn)@);
            final(itn)@ == sm && sp_views_stmt(r.0@) == ss && r.1 as int == e && pos <= r.1
                <= t@.len()
        }),
    decreases t@.len() - pos, 8int,
{
    let mut start = false;
    if pos < t.len() {
        assert(t.deep_view()[pos as int] == t@[pos as int]@);
        start = match &t[pos] {
            Token::Let => true,
            Token::Fn => true,
            _ => false,
        };
    }
    if !start {
        let v: Vec<Spanned<Statement>> = Vec::new();
        proof {
            lemma_views_stmt_len(v@);
            assert(sp_views_stmt(v@) =~= Seq::<SpannedV<StatementV>>::empty());
        }
        (v, pos)
    } else {
        match Statement::parser(t, pos, itn) {
            None => {
                let v: Vec<Spanned<Statement>> = Vec::new();
                proof {
                    lemma_views_stmt_len(v@);
                    assert(sp_views_stmt(v@) =~= Seq::<SpannedV<StatementV>>::empty());
                }
                (v, pos)
            },
            Some((s, j)) => {
                let ghost sv = s@;
                let (mut rest, e) = parse_statements(t, j, itn);
                let ghost restv = rest@;
                let mut v: Vec<Spanned<Statement>> = Vec::new();
                v.push(s);
                v.append(&mut rest);
                proof {
                    assert(v@ =~= seq![s] + restv);
                    assert(v@.len() == restv.len() + 1);
                    let a = sp_views_stmt(v@);
                    let b = seq![sv] + sp_views_stmt(restv);
                    lemma_views_stmt_len(v@);
                    lemma_views_stmt_len(restv);
                    assert forall|k: int| 0 <= k < a.len() implies a[k] == b[k] by {
                        lemma_views_stmt_index(v@, k);
                        if k == 0 {
                            assert(v@[0] == s);
                        } else {
                            lemma_cons_index(s, restv, k);
                            assert(v@[k] == restv[k - 1]);
                            lemma_views_stmt_index(restv, k - 1);
                            lemma_cons_index(sv, sp_views_stmt(restv), k);
                        }
                    }
                    assert(a =~= b);
                }
                (v, e)
            },
        }
    }
}

impl BlockExpression {
    /// Reads one braced block starting at `pos`.
    #[verifier::rlimit(100)]
    pub fn parser(t: &Vec<Token>, pos: usize, itn: &mut Interner) -> (r: Option<
        (BlockExpression, usize),
    >)
        requires
            pos <= t@.len(),
        ensures
            ({
                let (sr, sm) = sp_block(t.deep_view(), pos as int, old(itn)@);
                final(itn)@ == sm && match (r, sr) {
                    (Some(a), Some(b)) => a.0@ == b.0 && a.1 as int == b.1 && pos < a.1 <= t@.len(),
                    (None, None) => true,
                    _ => false,
                }
            }),
        decreases t@.len() - pos, 2int,
    {
        if pos >= t.len() {
            return None;
        }
        assert(t.deep_view()[pos as int] == t@[pos as int]@);
        let brace = match &t[pos] {
            Token::LBrace => true,
            _ => false,
        };
        if !brace {
            return None;
        }
        let (ss, j) = parse_statements(t, pos + 1, itn);
        match Expression::parser(t, j, itn) {
            Some((e, k)) => {
                if k < t.len() {
                    assert(t.deep_view()[k as int] == t@[k as int]@);
                    match &t[k] {
                        Token::RBrace => Some(
                            (
                                BlockExpression {
                                    statements: ss,
                                    return_expr: Some(Box::new(e)),
                                },
                                k + 1,
                            ),
                        ),
                        _ => None,
                    }
                } else {
                    None
                }
            },
            None => {
                if j < t.len() {
                    assert(t.deep_view()[j as int] == t@[j as int]@);
                    match &t[j] {
                        Token::RBrace => Some(
                            (BlockExpression { statements: ss, return_expr: None }, j + 1),
                        ),
                        _ => None,
                    }
                } else {
                    None
                }
            },
        }
    }
}

} // verus!

