use vstd::prelude::*;

use crate::ids::{FunctionId, VariableId};
use crate::parser::block::{BlockExpression, BlockExpressionV};
use crate::parser::expression::{Expression, ExpressionV};
use crate::parser::pattern::{sp_views_pat, Pattern, PatternV};
use crate::parser::statement::{Statement, StatementV};
use crate::parser::{Program, ProgramV};
use crate::spanned::{Span, Spanned, SpannedV};

verus! {

/// A lexical scope: the program itself, or one block, identified by the
/// block expression's span.
#[derive(PartialEq, Eq, Structural, Debug, Hash, Clone, Copy)]
pub enum ScopeId {
    Program,
    Block(Span),
}

/// The parent of each block scope: an ordered list of (child, parent)
/// edges. The program scope is the root and has no entry.
#[derive(Debug)]
pub struct ScopeParentTable {
    pub table: Vec<(ScopeId, ScopeId)>,
}

impl View for ScopeParentTable {
    type V = Seq<(ScopeId, ScopeId)>;

    open spec fn view(&self) -> Seq<(ScopeId, ScopeId)> {
        self.table@
    }
}

/// The names declared directly in one scope, in declaration order.
#[derive(Debug)]
pub struct SymbolNode {
    pub functions: Vec<FunctionId>,
    pub variables: Vec<VariableId>,
}

/// The mathematical image of a [`SymbolNode`].
pub struct SymbolNodeV {
    pub functions: Seq<FunctionId>,
    pub variables: Seq<VariableId>,
}

impl View for SymbolNode {
    type V = SymbolNodeV;

    open spec fn view(&self) -> SymbolNodeV {
        SymbolNodeV { functions: self.functions@, variables: self.variables@ }
    }
}

/// One (scope, names) entry per scope reached by walking the syntax tree.
#[derive(Debug)]
pub struct SymbolTable {
    pub items: Vec<(ScopeId, SymbolNode)>,
}

impl View for SymbolTable {
    type V = Seq<(ScopeId, SymbolNodeV)>;

    open spec fn view(&self) -> Seq<(ScopeId, SymbolNodeV)> {
        Seq::new(self.items@.len(), |k: int| (self.items@[k].0, self.items@[k].1@))
    }
}

// ===== Scope parent edges =====

/// The scope edges contributed by one expression under the given enclosing
/// scope: each block emits one (block, enclosing) edge, with the blocks of
/// its statements and of its return expression nested under it; binary
/// operands are walked on both sides; every other expression is a leaf.
pub open spec fn sp_scope_expr(e: SpannedV<ExpressionV>, parent: ScopeId) -> Seq<(ScopeId, ScopeId)>
    decreases e,
{
    match e.inner {
        ExpressionV::Binary(l, _op, r) => sp_scope_expr(*l, parent) + sp_scope_expr(*r, parent),
        ExpressionV::Block(b) => seq![(ScopeId::Block(e.span), parent)] + sp_scope_block(
            b,
            ScopeId::Block(e.span),
        ),
        _ => Seq::empty(),
    }
}

/// The scope edges contributed by the inside of a block whose own scope id
/// is `me`.
pub open spec fn sp_scope_block(b: BlockExpressionV, me: ScopeId) -> Seq<(ScopeId, ScopeId)>
    decreases b,
{
    sp_scope_stmts(b.statements, 0, me) + (match b.return_expr {
        Some(e) => sp_scope_expr(*e, me),
        None => Seq::empty(),
    })
}

/// The scope edges contributed by the statement bodies from index `k` on.
pub open spec fn sp_scope_stmts(ss: Seq<SpannedV<StatementV>>, k: int, parent: ScopeId) -> Seq<
    (ScopeId, ScopeId),
>
    decreases ss, ss.len() - k,
{
    if k < 0 || k >= ss.len() {
        Seq::empty()
    } else {
        (match ss[k].inner {
            StatementV::Function(f) => sp_scope_expr(f.body, parent),
            StatementV::Variable(v) => sp_scope_expr(v.body, parent),
        }) + sp_scope_stmts(ss, k + 1, parent)
    }
}

/// The scope edges contributed by bare statements from index `k` on.
pub open spec fn sp_scope_stmts_plain(ss: Seq<StatementV>, k: int, parent: ScopeId) -> Seq<
    (ScopeId, ScopeId),
>
    decreases ss, ss.len() - k,
{
    if k < 0 || k >= ss.len() {
        Seq::empty()
    } else {
        (match ss[k] {
            StatementV::Function(f) => sp_scope_expr(f.body, parent),
            StatementV::Variable(v) => sp_scope_expr(v.body, parent),
        }) + sp_scope_stmts_plain(ss, k + 1, parent)
    }
}

/// The whole scope parent table of a program.
pub open spec fn sp_scope_program(p: ProgramV) -> Seq<(ScopeId, ScopeId)> {
    sp_scope_stmts_plain(p.statements, 0, ScopeId::Program)
}

// ===== Pattern flattening =====

/// The leaf variable bindings of a pattern, left to right. Wildcards and
/// literals bind nothing; tuples recurse depth-first.
pub open spec fn sp_flatten_pattern(p: PatternV) -> Seq<VariableId>
    decreases p,
{
    match p {
        PatternV::Wildcard(_) => Seq::empty(),
        PatternV::Variable(s) => seq![s.inner],
        PatternV::Literal(_) => Seq::empty(),
        PatternV::Tuple(ps) => sp_flatten_tuple(ps, 0),
    }
}

pub open spec fn sp_flatten_tuple(ps: Seq<SpannedV<PatternV>>, k: int) -> Seq<VariableId>
    decreases ps, ps.len() - k,
{
    if k < 0 || k >= ps.len() {
        Seq::empty()
    } else {
        sp_flatten_pattern(ps[k].inner) + sp_flatten_tuple(ps, k + 1)
    }
}

// ===== Symbol table entries =====

/// The function names declared directly by the statements from `k` on.
pub open spec fn sp_symbols_fns(ss: Seq<StatementV>, k: int) -> Seq<FunctionId>
    decreases ss.len() - k,
{
    if k < 0 || k >= ss.len() {
        Seq::empty()
    } else {
        (match ss[k] {
            StatementV::Function(f) => seq![f.name.inner],
            StatementV::Variable(_) => Seq::empty(),
        }) + sp_symbols_fns(ss, k + 1)
    }
}

/// The variable names declared directly by the statements from `k` on:
/// each `let` pattern flattened to its leaf bindings.
pub open spec fn sp_symbols_vars(ss: Seq<StatementV>, k: int) -> Seq<VariableId>
    decreases ss.len() - k,
{
    if k < 0 || k >= ss.len() {
        Seq::empty()
    } else {
        (match ss[k] {
            StatementV::Function(_) => Seq::empty(),
            StatementV::Variable(v) => sp_flatten_pattern(v.name.inner),
        }) + sp_symbols_vars(ss, k + 1)
    }
}

/// The bare statements of a spanned statement list.
pub open spec fn sp_inners(ss: Seq<SpannedV<StatementV>>) -> Seq<StatementV> {
    Seq::new(ss.len(), |k: int| ss[k].inner)
}

/// The symbol table entries contributed by one expression: entries of
/// nested scopes come before the entry of the enclosing scope.
pub open spec fn sp_symtab_expr(e: SpannedV<ExpressionV>) -> Seq<(ScopeId, SymbolNodeV)>
    decreases e,
{
    match e.inner {
        ExpressionV::Binary(l, _op, r) => sp_symtab_expr(*l) + sp_symtab_expr(*r),
        ExpressionV::Block(b) => sp_symtab_block(b, ScopeId::Block(e.span)),
        _ => Seq::empty(),
    }
}

/// The symbol table entries of a block whose scope id is `me`: first the
/// entries of scopes nested in its statements and return expression, then
/// the block's own entry.
pub open spec fn sp_symtab_block(b: BlockExpressionV, me: ScopeId) -> Seq<(ScopeId, SymbolNodeV)>
    decreases b,
{
    sp_symtab_stmts(b.statements, 0) + (match b.return_expr {
        Some(e) => sp_symtab_expr(*e),
        None => Seq::empty(),
    }) + seq![
        (
            me,
            SymbolNodeV {
                functions: sp_symbols_fns(sp_inners(b.statements), 0),
                variables: sp_symbols_vars(sp_inners(b.statements), 0),
            },
        ),
    ]
}

/// The symbol table entries contributed by the statement bodies from `k` on.
pub open spec fn sp_symtab_stmts(ss: Seq<SpannedV<StatementV>>, k: int) -> Seq<
    (ScopeId, SymbolNodeV),
>
    decreases ss, ss.len() - k,
{
    if k < 0 || k >= ss.len() {
        Seq::empty()
    } else {
        (match ss[k].inner {
            StatementV::Function(f) => sp_symtab_expr(f.body),
            StatementV::Variable(v) => sp_symtab_expr(v.body),
        }) + sp_symtab_stmts(ss, k + 1)
    }
}

/// The symbol table entries contributed by bare statement bodies from `k` on.
pub open spec fn sp_symtab_stmts_plain(ss: Seq<StatementV>, k: int) -> Seq<(ScopeId, SymbolNodeV)>
    decreases ss, ss.len() - k,
{
    if k < 0 || k >= ss.len() {
        Seq::empty()
    } else {
        (match ss[k] {
            StatementV::Function(f) => sp_symtab_expr(f.body),
            StatementV::Variable(v) => sp_symtab_expr(v.body),
        }) + sp_symtab_stmts_plain(ss, k + 1)
    }
}

/// The whole symbol table of a program: entries of nested scopes first,
/// the program scope's own entry last.
pub open spec fn sp_symtab_program(p: ProgramV) -> Seq<(ScopeId, SymbolNodeV)> {
    sp_symtab_stmts_plain(p.statements, 0) + seq![
        (
            ScopeId::Program,
            SymbolNodeV {
                functions: sp_symbols_fns(p.statements, 0),
                variables: sp_symbols_vars(p.statements, 0),
            },
        ),
    ]
}

/// The parent recorded for `s` in the edges from `k` on: the second
/// component of the first edge whose first component is `s`, if any.
pub open spec fn sp_parent_of_from(tbl: Seq<(ScopeId, ScopeId)>, s: ScopeId, k: int) -> Option<
    ScopeId,
>
    decreases tbl.len() - k,
{
    if k < 0 || k >= tbl.len() {
        None
    } else if tbl[k].0 == s {
        Some(tbl[k].1)
    } else {
        sp_parent_of_from(tbl, s, k + 1)
    }
}

/// The parent recorded for `s`, by a point query over the edge list.
pub open spec fn sp_parent_of(tbl: Seq<(ScopeId, ScopeId)>, s: ScopeId) -> Option<ScopeId> {
    sp_parent_of_from(tbl, s, 0)
}

/// The view of a symbol table entry list.
pub open spec fn sp_items_view(items: Seq<(ScopeId, SymbolNode)>) -> Seq<(ScopeId, SymbolNodeV)> {
    Seq::new(items.len(), |k: int| (items[k].0, items[k].1@))
}

fn build_scope_parent_table_expression(
    expression: &Spanned<Expression>,
    parent: ScopeId,
    map: &mut Vec<(ScopeId, ScopeId)>,
)
    ensures
        final(map)@ == old(map)@ + sp_scope_expr(expression@, parent),
    decreases expression.inner,
{
    let ghost m0 = map@;
    match &expression.inner {
        Expression::Binary(l, _op, r) => {
            build_scope_parent_table_expression(&**l, parent, map);
            build_scope_parent_table_expression(&**r, parent, map);
            assert(map@ =~= m0 + sp_scope_expr(expression@, parent));
        },
        Expression::Block(b) => {
            let me = ScopeId::Block(expression.span);
            map.push((me, parent));
            assert(map@ =~= m0 + seq![(me, parent)]);
            build_scope_parent_table(b, me, map);
            assert(map@ =~= m0 + sp_scope_expr(expression@, parent));
        },
        _ => {
            assert(map@ =~= m0 + sp_scope_expr(expression@, parent));
        },
    }
}

fn build_scope_parent_table(node: &BlockExpression, me: ScopeId, map: &mut Vec<(ScopeId, ScopeId)>)
    ensures
        final(map)@ == old(map)@ + sp_scope_block(node@, me),
    decreases node,
{
    let ghost m0 = map@;
    let ghost ssv = node@.statements;
    proof {
        crate::parser::views::lemma_views_stmt_len(node.statements@);
    }
    let n = node.statements.len();
    let mut i: usize = 0;
    while i < n
        invariant
            0 <= i <= n,
            n == node.statements@.len(),
            ssv == node@.statements,
            ssv.len() == n,
            m0 + sp_scope_stmts(ssv, 0, me) == map@ + sp_scope_stmts(ssv, i as int, me),
        decreases n - i,
    {
        let ghost mcur = map@;
        proof {
            crate::parser::views::lemma_views_stmt_index(node.statements@, i as int);
        }
        match &node.statements[i].inner {
            Statement::Function(f) => {
                build_scope_parent_table_expression(&f.body, me, map);
            },
            Statement::Variable(v) => {
                build_scope_parent_table_expression(&v.body, me, map);
            },
        }
        proof {
            assert(m0 + sp_scope_stmts(ssv, 0, me) =~= map@ + sp_scope_stmts(ssv, i + 1, me));
        }
        i += 1;
    }
    assert(sp_scope_stmts(ssv, n as int, me) =~= Seq::<(ScopeId, ScopeId)>::empty());
    assert(map@ =~= m0 + sp_scope_stmts(ssv, 0, me));
    match &node.return_expr {
        Some(e) => {
            build_scope_parent_table_expression(&**e, me, map);
            assert(map@ =~= m0 + sp_scope_block(node@, me));
        },
        None => {
            assert(map@ =~= m0 + sp_scope_block(node@, me));
        },
    }
}

/// Derives the scope parent table of a program: one (child, parent) edge
/// per block scope, in depth-first order; the program scope is the root.
pub fn create_scope_parent_table(program: &Program) -> (r: ScopeParentTable)
    ensures
        r@ == sp_scope_program(program@),
{
    let ghost ssv = program@.statements;
    proof {
        crate::parser::views::lemma_views_stmt_plain_len(program.statements@);
    }
    let mut map: Vec<(ScopeId, ScopeId)> = Vec::new();
    let ghost m0 = map@;
    let n = program.statements.len();
    let mut i: usize = 0;
    while i < n
        invariant
            0 <= i <= n,
            n == program.statements@.len(),
            ssv == program@.statements,
            ssv.len() == n,
            m0 + sp_scope_stmts_plain(ssv, 0, ScopeId::Program) == map@ + sp_scope_stmts_plain(
                ssv,
                i as int,
                ScopeId::Program,
            ),
            m0 == Seq::<(ScopeId, ScopeId)>::empty(),
        decreases n - i,
    {
        proof {
            crate::parser::views::lemma_views_stmt_plain_index(program.statements@, i as int);
        }
        match &program.statements[i] {
            Statement::Function(f) => {
                build_scope_parent_table_expression(&f.body, ScopeId::Program, &mut map);
            },
            Statement::Variable(v) => {
                build_scope_parent_table_expression(&v.body, ScopeId::Program, &mut map);
            },
        }
        proof {
            assert(m0 + sp_scope_stmts_plain(ssv, 0, ScopeId::Program) =~= map@
                + sp_scope_stmts_plain(ssv, i + 1, ScopeId::Program));
        }
        i += 1;
    }
    assert(sp_scope_stmts_plain(ssv, n as int, ScopeId::Program) =~= Seq::<
        (ScopeId, ScopeId),
    >::empty());
    assert(map@ =~= sp_scope_program(program@));
    ScopeParentTable { table: map }
}

/// The parent of `scope` in the table, by a point query over the edge
/// list, or `None` for the root and for scopes the table does not know.
pub fn get_parent_scope(scope: ScopeId, table: &ScopeParentTable) -> (r: Option<ScopeId>)
    ensures
        r == sp_parent_of(table@, scope),
{
    let n = table.table.len();
    let mut i: usize = 0;
    while i < n
        invariant
            0 <= i <= n,
            n == table.table@.len(),
            sp_parent_of(table@, scope) == sp_parent_of_from(table@, scope, i as int),
        decreases n - i,
    {
        let (c, p) = table.table[i];
        if c == scope {
            return Some(p);
        }
        i += 1;
    }
    None
}

/// Appends the leaf variable bindings of a pattern, left to right:
/// wildcards and literals contribute none, tuples recurse depth-first.
pub fn build_symbol_table_pattern(pattern: &Pattern, variables: &mut Vec<VariableId>)
    ensures
        final(variables)@ == old(variables)@ + sp_flatten_pattern(pattern@),
    decreases pattern,
{
    let ghost v0 = variables@;
    match pattern {
        Pattern::Variable(s) => {
            variables.push(s.inner);
            assert(variables@ =~= v0 + sp_flatten_pattern(pattern@));
        },
        Pattern::Tuple(ps) => {
            let ghost psv = sp_views_pat(ps@);
            proof {
                crate::parser::pattern::lemma_views_pat_len(ps@);
            }
            let n = ps.len();
            let mut i: usize = 0;
            while i < n
                invariant
                    0 <= i <= n,
                    n == ps@.len(),
                    *pattern == Pattern::Tuple(*ps),
                    psv == sp_views_pat(ps@),
                    psv.len() == n,
                    v0 + sp_flatten_tuple(psv, 0) == variables@ + sp_flatten_tuple(psv, i as int),
                decreases n - i,
            {
                proof {
                    crate::parser::pattern::lemma_views_pat_index(ps@, i as int);
                    assert(decreases_to!(*pattern => pattern->Tuple_0));
                    assert(pattern->Tuple_0 == *ps);
                    assert(decreases_to!(*ps => ps@));
                    assert(decreases_to!(ps@ => ps@[i as int]));
                    assert(decreases_to!(ps@[i as int] => ps@[i as int].inner));
                }
                build_symbol_table_pattern(&ps[i].inner, variables);
                proof {
                    assert(v0 + sp_flatten_tuple(psv, 0) =~= variables@ + sp_flatten_tuple(
                        psv,
                        i + 1,
                    ));
                }
                i += 1;
            }
            assert(sp_flatten_tuple(psv, n as int) =~= Seq::<VariableId>::empty());
            assert(variables@ =~= v0 + sp_flatten_pattern(pattern@));
        },
        _ => {
            assert(variables@ =~= v0 + sp_flatten_pattern(pattern@));
        },
    }
}

fn build_symbol_table_expression(
    expression: &Spanned<Expression>,
    items: &mut Vec<(ScopeId, SymbolNode)>,
)
    ensures
        sp_items_view(final(items)@) == sp_items_view(old(items)@) + sp_symtab_expr(expression@),
    decreases expression.inner,
{
    let ghost i0 = sp_items_view(items@);
    match &expression.inner {
        Expression::Binary(l, _op, r) => {
            build_symbol_table_expression(&**l, items);
            build_symbol_table_expression(&**r, items);
            assert(sp_items_view(items@) =~= i0 + sp_symtab_expr(expression@));
        },
        Expression::Block(b) => {
            let me = ScopeId::Block(expression.span);
            build_symbol_table(b, me, items);
            assert(sp_items_view(items@) =~= i0 + sp_symtab_expr(expression@));
        },
        _ => {
            assert(sp_items_view(items@) =~= i0 + sp_symtab_expr(expression@));
        },
    }
}

fn build_symbol_table(node: &BlockExpression, me: ScopeId, items: &mut Vec<(ScopeId, SymbolNode)>)
    ensures
        sp_items_view(final(items)@) == sp_items_view(old(items)@) + sp_symtab_block(node@, me),
    decreases node,
{
    let ghost i0 = sp_items_view(items@);
    let ghost ssv = node@.statements;
    proof {
        crate::parser::views::lemma_views_stmt_len(node.statements@);
        assert(sp_inners(ssv).len() == ssv.len());
    }
    let n = node.statements.len();
    let mut functions: Vec<FunctionId> = Vec::new();
    let mut variables: Vec<VariableId> = Vec::new();
    let mut i: usize = 0;
    while i < n
        invariant
            0 <= i <= n,
            n == node.statements@.len(),
            ssv == node@.statements,
            ssv.len() == n,
            sp_inners(ssv).len() == n,
            Seq::<FunctionId>::empty() + sp_symbols_fns(sp_inners(ssv), 0) == functions@
                + sp_symbols_fns(sp_inners(ssv), i as int),
            Seq::<VariableId>::empty() + sp_symbols_vars(sp_inners(ssv), 0) == variables@
                + sp_symbols_vars(sp_inners(ssv), i as int),
            i0 + sp_symtab_stmts(ssv, 0) == sp_items_view(items@) + sp_symtab_stmts(
                ssv,
                i as int,
            ),
        decreases n - i,
    {
        proof {
            crate::parser::views::lemma_views_stmt_index(node.statements@, i as int);
            assert(sp_inners(ssv)[i as int] == ssv[i as int].inner);
        }
        match &node.statements[i].inner {
            Statement::Function(f) => {
                functions.push(f.name.inner);
                build_symbol_table_expression(&f.body, items);
            },
            Statement::Variable(v) => {
                build_symbol_table_pattern(&v.name.inner, &mut variables);
                build_symbol_table_expression(&v.body, items);
            },
        }
        proof {
            assert(Seq::<FunctionId>::empty() + sp_symbols_fns(sp_inners(ssv), 0) =~= functions@
                + sp_symbols_fns(sp_inners(ssv), i + 1));
            assert(Seq::<VariableId>::empty() + sp_symbols_vars(sp_inners(ssv), 0) =~= variables@
                + sp_symbols_vars(sp_inners(ssv), i + 1));
            assert(i0 + sp_symtab_stmts(ssv, 0) =~= sp_items_view(items@) + sp_symtab_stmts(
                ssv,
                i + 1,
            ));
        }
        i += 1;
    }
    proof {
        assert(sp_symtab_stmts(ssv, n as int) =~= Seq::<(ScopeId, SymbolNodeV)>::empty());
        assert(sp_symbols_fns(sp_inners(ssv), n as int) =~= Seq::<FunctionId>::empty());
        assert(sp_symbols_vars(sp_inners(ssv), n as int) =~= Seq::<VariableId>::empty());
        assert(functions@ =~= sp_symbols_fns(sp_inners(ssv), 0));
        assert(variables@ =~= sp_symbols_vars(sp_inners(ssv), 0));
        assert(sp_items_view(items@) =~= i0 + sp_symtab_stmts(ssv, 0));
    }
    match &node.return_expr {
        Some(e) => {
            build_symbol_table_expression(&**e, items);
        },
        None => {},
    }
    let ghost before_push = sp_items_view(items@);
    let entry = (me, SymbolNode { functions, variables });
    let ghost entryv = (me, entry.1@);
    items.push(entry);
    proof {
        let a = sp_items_view(items@);
        assert(a.len() == before_push.len() + 1);
        assert forall|k: int| 0 <= k < a.len() implies a[k] == before_push.push(entryv)[k] by {
        }
        assert(a =~= before_push.push(entryv));
        assert(a =~= i0 + sp_symtab_block(node@, me));
    }
}

/// Derives the symbol table of a program: for every scope, the function
/// names and the flattened `let` bindings declared directly in it, entries
/// of nested scopes first and the program scope's entry last.
pub fn create_symbol_table(program: &Program) -> (r: SymbolTable)
    ensures
        r@ == sp_symtab_program(program@),
{
    let ghost ssv = program@.statements;
    proof {
        crate::parser::views::lemma_views_stmt_plain_len(program.statements@);
    }
    let n = program.statements.len();
    let mut items: Vec<(ScopeId, SymbolNode)> = Vec::new();
    let mut functions: Vec<FunctionId> = Vec::new();
    let mut variables: Vec<VariableId> = Vec::new();
    let ghost i0 = sp_items_view(items@);
    let mut i: usize = 0;
    while i < n
        invariant
            0 <= i <= n,
            n == program.statements@.len(),
            ssv == program@.statements,
            ssv.len() == n,
            i0 == Seq::<(ScopeId, SymbolNodeV)>::empty(),
            Seq::<FunctionId>::empty() + sp_symbols_fns(ssv, 0) == functions@ + sp_symbols_fns(
                ssv,
                i as int,
            ),
            Seq::<VariableId>::empty() + sp_symbols_vars(ssv, 0) == variables@ + sp_symbols_vars(
                ssv,
                i as int,
            ),
            i0 + sp_symtab_stmts_plain(ssv, 0) == sp_items_view(items@) + sp_symtab_stmts_plain(
                ssv,
                i as int,
            ),
        decreases n - i,
    {
        proof {
            crate::parser::views::lemma_views_stmt_plain_index(program.statements@, i as int);
        }
        match &program.statements[i] {
            Statement::Function(f) => {
                functions.push(f.name.inner);
                build_symbol_table_expression(&f.body, &mut items);
            },
            Statement::Variable(v) => {
                build_symbol_table_pattern(&v.name.inner, &mut variables);
                build_symbol_table_expression(&v.body, &mut items);
            },
        }
        proof {
            assert(Seq::<FunctionId>::empty() + sp_symbols_fns(ssv, 0) =~= functions@
                + sp_symbols_fns(ssv, i + 1));
            assert(Seq::<VariableId>::empty() + sp_symbols_vars(ssv, 0) =~= variables@
                + sp_symbols_vars(ssv, i + 1));
            assert(i0 + sp_symtab_stmts_plain(ssv, 0) =~= sp_items_view(items@)
                + sp_symtab_stmts_plain(ssv, i + 1));
        }
        i += 1;
    }
    proof {
        assert(sp_symtab_stmts_plain(ssv, n as int) =~= Seq::<(ScopeId, SymbolNodeV)>::empty());
        assert(sp_symbols_fns(ssv, n as int) =~= Seq::<FunctionId>::empty());
        assert(sp_symbols_vars(ssv, n as int) =~= Seq::<VariableId>::empty());
        assert(functions@ =~= sp_symbols_fns(ssv, 0));
        assert(variables@ =~= sp_symbols_vars(ssv, 0));
        assert(sp_items_view(items@) =~= sp_symtab_stmts_plain(ssv, 0));
    }
    let ghost before_push = sp_items_view(items@);
    let entry = (ScopeId::Program, SymbolNode { functions, variables });
    let ghost entryv = (ScopeId::Program, entry.1@);
    items.push(entry);
    let r = SymbolTable { items };
    proof {
        let a = r@;
        assert(a.len() == before_push.len() + 1);
        assert forall|k: int| 0 <= k < a.len() implies a[k] == before_push.push(entryv)[k] by {
        }
        assert(a =~= before_push.push(entryv));
        assert(a =~= sp_symtab_program(program@));
    }
    r
}

} // verus!
