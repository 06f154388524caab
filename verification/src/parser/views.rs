use vstd::prelude::*;

use crate::spanned::{Spanned, SpannedV};

use super::block::{BlockExpression, BlockExpressionV};
use super::expression::{Expression, ExpressionV};
use super::function::{Function, FunctionV};
use super::pattern::{Pattern, PatternV};
use super::statement::{Statement, StatementV};
use super::ty::{Type, TypeV};
use super::variable::{Variable, VariableV};

verus! {

// The mathematical images of the syntax tree nodes. The node types are
// mutually recursive, so their view functions form one recursive family
// and are kept together here.

/// The images of a list of spanned statements, element by element.
pub open spec fn sp_views_stmt(v: Seq<Spanned<Statement>>) -> Seq<SpannedV<StatementV>>
    decreases v,
{
    if v.len() == 0 {
        Seq::empty()
    } else {
        seq![SpannedV { span: v[0].span, inner: statement_view(v[0].inner) }] + sp_views_stmt(
            v.drop_first(),
        )
    }
}

pub open spec fn statement_view(s: Statement) -> StatementV
    decreases s,
{
    match s {
        Statement::Function(f) => StatementV::Function(function_view(f)),
        Statement::Variable(v) => StatementV::Variable(variable_view(v)),
    }
}

pub open spec fn function_view(f: Function) -> FunctionV
    decreases f,
{
    FunctionV {
        name: SpannedV { span: f.name.span, inner: f.name.inner },
        args: sp_views_arg(f.args@),
        return_type: match f.return_type {
            Some(ty) => Some(SpannedV { span: ty.span, inner: ty.inner.view() }),
            None => None,
        },
        body: SpannedV { span: f.body.span, inner: expression_view(f.body.inner) },
    }
}

pub open spec fn variable_view(v: Variable) -> VariableV
    decreases v,
{
    VariableV {
        name: SpannedV { span: v.name.span, inner: v.name.inner.view() },
        ty: match v.ty {
            Some(ty) => Some(SpannedV { span: ty.span, inner: ty.inner.view() }),
            None => None,
        },
        body: SpannedV { span: v.body.span, inner: expression_view(v.body.inner) },
    }
}

pub open spec fn expression_view(e: Expression) -> ExpressionV
    decreases e,
{
    match e {
        Expression::Todo(s) => ExpressionV::Todo(SpannedV { span: s.span, inner: () }),
        Expression::Literal(s) => ExpressionV::Literal(SpannedV { span: s.span, inner: s.inner@ }),
        Expression::Variable(s) => ExpressionV::Variable(SpannedV { span: s.span, inner: s.inner }),
        Expression::Binary(l, op, r) => ExpressionV::Binary(
            Box::new(SpannedV { span: l.span, inner: expression_view(l.inner) }),
            SpannedV { span: op.span, inner: op.inner },
            Box::new(SpannedV { span: r.span, inner: expression_view(r.inner) }),
        ),
        Expression::FunctionCall => ExpressionV::FunctionCall,
        Expression::Block(b) => ExpressionV::Block(block_view(b)),
        Expression::If => ExpressionV::If,
    }
}

pub open spec fn block_view(b: BlockExpression) -> BlockExpressionV
    decreases b,
{
    BlockExpressionV {
        statements: sp_views_stmt(b.statements@),
        return_expr: match b.return_expr {
            Some(e) => Some(Box::new(SpannedV { span: e.span, inner: expression_view(e.inner) })),
            None => None,
        },
    }
}

/// The images of an argument list. Arguments hold patterns and types only,
/// so this does not take part in the expression recursion.
pub open spec fn sp_views_arg(v: Seq<(Spanned<Pattern>, Option<Spanned<Type>>)>) -> Seq<
    (SpannedV<PatternV>, Option<SpannedV<TypeV>>),
>
    decreases v,
{
    if v.len() == 0 {
        Seq::empty()
    } else {
        seq![
            (
                SpannedV { span: v[0].0.span, inner: v[0].0.inner.view() },
                match v[0].1 {
                    Some(ty) => Some(SpannedV { span: ty.span, inner: ty.inner.view() }),
                    None => None,
                },
            ),
        ] + sp_views_arg(v.drop_first())
    }
}

impl View for Statement {
    type V = StatementV;

    open spec fn view(&self) -> StatementV {
        statement_view(*self)
    }
}

impl View for Function {
    type V = FunctionV;

    open spec fn view(&self) -> FunctionV {
        function_view(*self)
    }
}

impl View for Variable {
    type V = VariableV;

    open spec fn view(&self) -> VariableV {
        variable_view(*self)
    }
}

impl View for Expression {
    type V = ExpressionV;

    open spec fn view(&self) -> ExpressionV {
        expression_view(*self)
    }
}

impl View for BlockExpression {
    type V = BlockExpressionV;

    open spec fn view(&self) -> BlockExpressionV {
        block_view(*self)
    }
}

pub proof fn lemma_views_stmt_len(v: Seq<Spanned<Statement>>)
    ensures
        sp_views_stmt(v).len() == v.len(),
    decreases v.len(),
{
    if v.len() > 0 {
        lemma_views_stmt_len(v.drop_first());
    }
}

pub proof fn lemma_views_stmt_index(v: Seq<Spanned<Statement>>, k: int)
    requires
        0 <= k < v.len(),
    ensures
        sp_views_stmt(v).len() == v.len(),
        sp_views_stmt(v)[k] == (SpannedV { span: v[k].span, inner: v[k].inner@ }),
    decreases k,
{
    lemma_views_stmt_len(v);
    lemma_views_stmt_len(v.drop_first());
    if k > 0 {
        lemma_views_stmt_index(v.drop_first(), k - 1);
        assert(v.drop_first()[k - 1] == v[k]);
    }
}

pub proof fn lemma_views_arg_len(v: Seq<(Spanned<Pattern>, Option<Spanned<Type>>)>)
    ensures
        sp_views_arg(v).len() == v.len(),
    decreases v.len(),
{
    if v.len() > 0 {
        lemma_views_arg_len(v.drop_first());
    }
}

pub proof fn lemma_views_arg_index(v: Seq<(Spanned<Pattern>, Option<Spanned<Type>>)>, k: int)
    requires
        0 <= k < v.len(),
    ensures
        sp_views_arg(v).len() == v.len(),
        sp_views_arg(v)[k] == (
            SpannedV { span: v[k].0.span, inner: v[k].0.inner@ },
            match v[k].1 {
                Some(ty) => Some(SpannedV { span: ty.span, inner: ty.inner@ }),
                None => None,
            },
        ),
    decreases k,
{
    lemma_views_arg_len(v);
    lemma_views_arg_len(v.drop_first());
    if k > 0 {
        lemma_views_arg_index(v.drop_first(), k - 1);
        assert(v.drop_first()[k - 1] == v[k]);
    }
}

/// The images of a list of bare statements, element by element.
pub open spec fn sp_views_stmt_plain(v: Seq<Statement>) -> Seq<StatementV>
    decreases v,
{
    if v.len() == 0 {
        Seq::empty()
    } else {
        seq![statement_view(v[0])] + sp_views_stmt_plain(v.drop_first())
    }
}

pub proof fn lemma_views_stmt_plain_len(v: Seq<Statement>)
    ensures
        sp_views_stmt_plain(v).len() == v.len(),
    decreases v.len(),
{
    if v.len() > 0 {
        lemma_views_stmt_plain_len(v.drop_first());
    }
}

pub proof fn lemma_views_stmt_plain_index(v: Seq<Statement>, k: int)
    requires
        0 <= k < v.len(),
    ensures
        sp_views_stmt_plain(v).len() == v.len(),
        sp_views_stmt_plain(v)[k] == statement_view(v[k]),
    decreases k,
{
    lemma_views_stmt_plain_len(v);
    lemma_views_stmt_plain_len(v.drop_first());
    if k > 0 {
        lemma_views_stmt_plain_index(v.drop_first(), k - 1);
        assert(v.drop_first()[k - 1] == v[k]);
    }
}

} // verus!
