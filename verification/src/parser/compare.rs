use vstd::prelude::*;

use crate::ids::bytes_eq;
use crate::spanned::Spanned;

use super::block::BlockExpression;
use super::expression::Expression;
use super::function::Function;
use super::literal::Literal;
use super::pattern::{sp_views_pat, Pattern};
use super::statement::Statement;
use super::ty::{sp_views_ty, Type};
use super::variable::Variable;
use super::views::{
    lemma_views_arg_index, lemma_views_arg_len, lemma_views_stmt_index, lemma_views_stmt_len,
    lemma_views_stmt_plain_index, lemma_views_stmt_plain_len, sp_views_arg, sp_views_stmt,
    sp_views_stmt_plain,
};
use super::Program;

verus! {

// Structural equality of syntax tree nodes, stated against their
// mathematical images. The incremental engine uses these for its early
// cutoff checks; derived `==` is opaque to the verifier, so equality is
// spelled out here.

/// True when the two literals are structurally equal.
pub fn literal_eq(a: &Literal, b: &Literal) -> (r: bool)
    ensures
        r == (a@ == b@),
{
    match (a, b) {
        (Literal::AbstractInt(x), Literal::AbstractInt(y)) => *x == *y,
        (Literal::AbstractFloat(x), Literal::AbstractFloat(y)) => bytes_eq(x, y),
        _ => false,
    }
}

/// True when the two patterns are structurally equal.
pub fn pattern_eq(a: &Pattern, b: &Pattern) -> (r: bool)
    ensures
        r == (a@ == b@),
    decreases *a,
{
    match (a, b) {
        (Pattern::Wildcard(x), Pattern::Wildcard(y)) => x.span == y.span,
        (Pattern::Variable(x), Pattern::Variable(y)) => x.span == y.span && x.inner == y.inner,
        (Pattern::Literal(x), Pattern::Literal(y)) => x.span == y.span && literal_eq(
            &x.inner,
            &y.inner,
        ),
        (Pattern::Tuple(xs), Pattern::Tuple(ys)) => {
            let ghost xv = sp_views_pat(xs@);
            let ghost yv = sp_views_pat(ys@);
            proof {
                crate::parser::pattern::lemma_views_pat_len(xs@);
                crate::parser::pattern::lemma_views_pat_len(ys@);
            }
            if xs.len() != ys.len() {
                assert(xv.len() != yv.len());
                return false;
            }
            let n = xs.len();
            let mut i: usize = 0;
            while i < n
                invariant
                    0 <= i <= n,
                    n == xs@.len() == ys@.len(),
                    *a == Pattern::Tuple(*xs),
                    *b == Pattern::Tuple(*ys),
                    xv == sp_views_pat(xs@),
                    yv == sp_views_pat(ys@),
                    xv.len() == n && yv.len() == n,
                    forall|k: int| 0 <= k < i ==> xv[k] == yv[k],
                decreases n - i,
            {
                proof {
                    crate::parser::pattern::lemma_views_pat_index(xs@, i as int);
                    crate::parser::pattern::lemma_views_pat_index(ys@, i as int);
                    assert(decreases_to!(*a => a->Tuple_0));
                    assert(a->Tuple_0 == *xs);
                    assert(decreases_to!(*xs => xs@));
                    assert(decreases_to!(xs@ => xs@[i as int]));
                    assert(decreases_to!(xs@[i as int] => xs@[i as int].inner));
                }
                if xs[i].span != ys[i].span {
                    assert(xv[i as int] != yv[i as int]);
                    return false;
                }
                if !pattern_eq(&xs[i].inner, &ys[i].inner) {
                    assert(xv[i as int] != yv[i as int]);
                    return false;
                }
                assert(xv[i as int] == yv[i as int]);
                i += 1;
            }
            assert(xv =~= yv);
            true
        },
        _ => false,
    }
}

/// True when the two type annotations are structurally equal.
pub fn type_eq(a: &Type, b: &Type) -> (r: bool)
    ensures
        r == (a@ == b@),
    decreases *a,
{
    match (a, b) {
        (Type::Inferred(x), Type::Inferred(y)) => x.span == y.span,
        (Type::Type(x), Type::Type(y)) => x.span == y.span && x.inner == y.inner,
        (Type::Tuple(xs), Type::Tuple(ys)) => {
            let ghost xv = sp_views_ty(xs@);
            let ghost yv = sp_views_ty(ys@);
            proof {
                crate::parser::ty::lemma_views_ty_len(xs@);
                crate::parser::ty::lemma_views_ty_len(ys@);
            }
            if xs.len() != ys.len() {
                assert(xv.len() != yv.len());
                return false;
            }
            let n = xs.len();
            let mut i: usize = 0;
            while i < n
                invariant
                    0 <= i <= n,
                    n == xs@.len() == ys@.len(),
                    *a == Type::Tuple(*xs),
                    *b == Type::Tuple(*ys),
                    xv == sp_views_ty(xs@),
                    yv == sp_views_ty(ys@),
                    xv.len() == n && yv.len() == n,
                    forall|k: int| 0 <= k < i ==> xv[k] == yv[k],
                decreases n - i,
            {
                proof {
                    crate::parser::ty::lemma_views_ty_index(xs@, i as int);
                    crate::parser::ty::lemma_views_ty_index(ys@, i as int);
                    assert(decreases_to!(*a => a->Tuple_0));
                    assert(a->Tuple_0 == *xs);
                    assert(decreases_to!(*xs => xs@));
                    assert(decreases_to!(xs@ => xs@[i as int]));
                    assert(decreases_to!(xs@[i as int] => xs@[i as int].inner));
                }
                if xs[i].span != ys[i].span {
                    assert(xv[i as int] != yv[i as int]);
                    return false;
                }
                if !type_eq(&xs[i].inner, &ys[i].inner) {
                    assert(xv[i as int] != yv[i as int]);
                    return false;
                }
                assert(xv[i as int] == yv[i as int]);
                i += 1;
            }
            assert(xv =~= yv);
            true
        },
        _ => false,
    }
}

fn opt_type_eq(a: &Option<Spanned<Type>>, b: &Option<Spanned<Type>>) -> (r: bool)
    ensures
        r == (match (a, b) {
            (Some(x), Some(y)) => x@ == y@,
            (None, None) => true,
            _ => false,
        }),
{
    match (a, b) {
        (Some(x), Some(y)) => x.span == y.span && type_eq(&x.inner, &y.inner),
        (None, None) => true,
        _ => false,
    }
}

/// True when the two expressions are structurally equal.
pub fn expression_eq(a: &Expression, b: &Expression) -> (r: bool)
    ensures
        r == (a@ == b@),
    decreases *a,
{
    match (a, b) {
        (Expression::Todo(x), Expression::Todo(y)) => x.span == y.span,
        (Expression::Literal(x), Expression::Literal(y)) => x.span == y.span && literal_eq(
            &x.inner,
            &y.inner,
        ),
        (Expression::Variable(x), Expression::Variable(y)) => x.span == y.span && x.inner
            == y.inner,
        (Expression::Binary(l1, o1, r1), Expression::Binary(l2, o2, r2)) => {
            l1.span == l2.span && o1.span == o2.span && o1.inner == o2.inner && r1.span == r2.span
                && expression_eq(&l1.inner, &l2.inner) && expression_eq(&r1.inner, &r2.inner)
        },
        (Expression::FunctionCall, Expression::FunctionCall) => true,
        (Expression::Block(x), Expression::Block(y)) => block_eq(x, y),
        (Expression::If, Expression::If) => true,
        _ => false,
    }
}

/// True when the two blocks are structurally equal.
pub fn block_eq(a: &BlockExpression, b: &BlockExpression) -> (r: bool)
    ensures
        r == (a@ == b@),
    decreases *a,
{
    let ghost xv = sp_views_stmt(a.statements@);
    let ghost yv = sp_views_stmt(b.statements@);
    proof {
        lemma_views_stmt_len(a.statements@);
        lemma_views_stmt_len(b.statements@);
    }
    if a.statements.len() != b.statements.len() {
        assert(xv.len() != yv.len());
        return false;
    }
    let n = a.statements.len();
    let mut i: usize = 0;
    while i < n
        invariant
            0 <= i <= n,
            n == a.statements@.len() == b.statements@.len(),
            xv == sp_views_stmt(a.statements@),
            yv == sp_views_stmt(b.statements@),
            xv.len() == n && yv.len() == n,
            forall|k: int| 0 <= k < i ==> xv[k] == yv[k],
        decreases n - i,
    {
        proof {
            lemma_views_stmt_index(a.statements@, i as int);
            lemma_views_stmt_index(b.statements@, i as int);
        }
        if a.statements[i].span != b.statements[i].span {
            assert(xv[i as int] != yv[i as int]);
            return false;
        }
        if !statement_eq(&a.statements[i].inner, &b.statements[i].inner) {
            assert(xv[i as int] != yv[i as int]);
            return false;
        }
        assert(xv[i as int] == yv[i as int]);
        i += 1;
    }
    assert(xv =~= yv);
    match (&a.return_expr, &b.return_expr) {
        (Some(x), Some(y)) => x.span == y.span && expression_eq(&x.inner, &y.inner),
        (None, None) => true,
        _ => false,
    }
}

/// True when the two statements are structurally equal.
pub fn statement_eq(a: &Statement, b: &Statement) -> (r: bool)
    ensures
        r == (a@ == b@),
    decreases *a,
{
    match (a, b) {
        (Statement::Function(x), Statement::Function(y)) => function_eq(x, y),
        (Statement::Variable(x), Statement::Variable(y)) => variable_eq(x, y),
        _ => false,
    }
}

/// True when the two function definitions are structurally equal.
pub fn function_eq(a: &Function, b: &Function) -> (r: bool)
    ensures
        r == (a@ == b@),
    decreases *a,
{
    if !(a.name.span == b.name.span && a.name.inner == b.name.inner) {
        return false;
    }
    let ghost xv = sp_views_arg(a.args@);
    let ghost yv = sp_views_arg(b.args@);
    proof {
        lemma_views_arg_len(a.args@);
        lemma_views_arg_len(b.args@);
    }
    if a.args.len() != b.args.len() {
        assert(xv.len() != yv.len());
        return false;
    }
    let n = a.args.len();
    let mut i: usize = 0;
    while i < n
        invariant
            0 <= i <= n,
            n == a.args@.len() == b.args@.len(),
            xv == sp_views_arg(a.args@),
            yv == sp_views_arg(b.args@),
            xv.len() == n && yv.len() == n,
            forall|k: int| 0 <= k < i ==> xv[k] == yv[k],
        decreases n - i,
    {
        proof {
            lemma_views_arg_index(a.args@, i as int);
            lemma_views_arg_index(b.args@, i as int);
        }
        if a.args[i].0.span != b.args[i].0.span {
            assert(xv[i as int] != yv[i as int]);
            return false;
        }
        if !pattern_eq(&a.args[i].0.inner, &b.args[i].0.inner) {
            assert(xv[i as int] != yv[i as int]);
            return false;
        }
        if !opt_type_eq(&a.args[i].1, &b.args[i].1) {
            assert(xv[i as int] != yv[i as int]);
            return false;
        }
        assert(xv[i as int] == yv[i as int]);
        i += 1;
    }
    assert(xv =~= yv);
    opt_type_eq(&a.return_type, &b.return_type) && a.body.span == b.body.span && expression_eq(
        &a.body.inner,
        &b.body.inner,
    )
}

/// True when the two variable bindings are structurally equal.
pub fn variable_eq(a: &Variable, b: &Variable) -> (r: bool)
    ensures
        r == (a@ == b@),
    decreases *a,
{
    a.name.span == b.name.span && pattern_eq(&a.name.inner, &b.name.inner) && opt_type_eq(
        &a.ty,
        &b.ty,
    ) && a.body.span == b.body.span && expression_eq(&a.body.inner, &b.body.inner)
}

/// True when the two programs are structurally equal.
pub fn program_eq(a: &Program, b: &Program) -> (r: bool)
    ensures
        r == (a@ == b@),
{
    let ghost xv = sp_views_stmt_plain(a.statements@);
    let ghost yv = sp_views_stmt_plain(b.statements@);
    proof {
        lemma_views_stmt_plain_len(a.statements@);
        lemma_views_stmt_plain_len(b.statements@);
    }
    if a.statements.len() != b.statements.len() {
        assert(xv.len() != yv.len());
        return false;
    }
    let n = a.statements.len();
    let mut i: usize = 0;
    while i < n
        invariant
            0 <= i <= n,
            n == a.statements@.len() == b.statements@.len(),
            xv == sp_views_stmt_plain(a.statements@),
            yv == sp_views_stmt_plain(b.statements@),
            xv.len() == n && yv.len() == n,
            forall|k: int| 0 <= k < i ==> xv[k] == yv[k],
        decreases n - i,
    {
        proof {
            lemma_views_stmt_plain_index(a.statements@, i as int);
            lemma_views_stmt_plain_index(b.statements@, i as int);
        }
        if !statement_eq(&a.statements[i], &b.statements[i]) {
            assert(xv[i as int] != yv[i as int]);
            return false;
        }
        assert(xv[i as int] == yv[i as int]);
        i += 1;
    }
    assert(xv =~= yv);
    true
}

} // verus!
