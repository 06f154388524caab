use exprfront::engine::{create_session, Session};
use exprfront::ids::Interner;
use exprfront::lexer::lex_source;
use exprfront::parser::compare::program_eq;
use exprfront::parser::{compile_tokenstream, Program};
use exprfront::symbols::{
    create_scope_parent_table, create_symbol_table, get_parent_scope, ScopeId,
};

fn session_with(code: &str) -> Session {
    let mut s = create_session();
    s.set_source(code.as_bytes().to_vec());
    s
}

fn compile(code: &str) -> Program {
    let lexed = lex_source(&code.as_bytes().to_vec());
    let mut itn = Interner::new();
    compile_tokenstream(&lexed, &mut itn).0
}

#[test]
fn caching_serves_second_parse_from_memo() {
    // Parsing identical unchanged source twice yields structurally equal
    // programs and the second access runs nothing.
    let mut s = session_with("let a = 1; fn foo(x) = x * 2;");
    let first_len = s.parse().statements.len();
    assert_eq!(s.parse_runs, 1);
    assert_eq!(s.lex_runs, 1);
    let second_len = s.parse().statements.len();
    assert_eq!(second_len, first_len);
    assert_eq!(s.parse_runs, 1);
    assert_eq!(s.lex_runs, 1);
}

#[test]
fn caching_results_structurally_equal() {
    let mut s = session_with("let a = { 1 + 2 } * 3;");
    let p1 = compile("let a = { 1 + 2 } * 3;");
    assert!(program_eq(s.parse(), &p1));
    assert!(program_eq(s.parse(), &p1));
    assert_eq!(s.parse_runs, 1);
}

#[test]
fn early_cutoff_on_whitespace_edit() {
    // Editing "let a=1;" to "let  a = 1 ;" re-lexes to the same token
    // sequence, so nothing past the lexer re-runs.
    let mut s = session_with("let a=1;");
    s.parse();
    s.scope_parents();
    s.symbol_table();
    assert_eq!(s.lex_runs, 1);
    assert_eq!(s.parse_runs, 1);
    assert_eq!(s.scope_runs, 1);
    assert_eq!(s.symbol_runs, 1);
    s.update_source("let  a = 1 ;".as_bytes().to_vec());
    s.parse();
    s.scope_parents();
    s.symbol_table();
    assert_eq!(s.lex_runs, 2);
    assert_eq!(s.parse_runs, 1);
    assert_eq!(s.scope_runs, 1);
    assert_eq!(s.symbol_runs, 1);
}

#[test]
fn real_edit_reparses() {
    let mut s = session_with("let a = 1;");
    s.parse();
    assert_eq!(s.parse_runs, 1);
    s.update_source("let a = 2;".as_bytes().to_vec());
    s.parse();
    assert_eq!(s.lex_runs, 2);
    assert_eq!(s.parse_runs, 2);
}

#[test]
fn block_scoping_parents() {
    // Both blocks of the binding's body sit directly under the program
    // scope.
    let program = compile("let x = { let a = 5; a * 2 } * { 5 + 3 };");
    let table = create_scope_parent_table(&program);
    assert_eq!(table.table.len(), 2);
    assert_eq!(table.table[0].1, ScopeId::Program);
    assert_eq!(table.table[1].1, ScopeId::Program);
    let first_block = table.table[0].0;
    assert_eq!(get_parent_scope(first_block, &table), Some(ScopeId::Program));
    assert_eq!(get_parent_scope(ScopeId::Program, &table), None);
}

#[test]
fn symbol_completeness_at_program_scope() {
    // A tuple binding and a function declare variables a, b and function
    // foo at program scope. (The grammar has no tuple expressions, so the
    // bound value is a parenthesized literal.)
    let code = "let (a,b) = (1); fn foo(x) = x;";
    let lexed = lex_source(&code.as_bytes().to_vec());
    let mut itn = Interner::new();
    let (program, errors) = compile_tokenstream(&lexed, &mut itn);
    assert_eq!(errors.len(), 0);
    let table = create_symbol_table(&program);
    let (scope, node) = &table.items[table.items.len() - 1];
    assert_eq!(*scope, ScopeId::Program);
    assert_eq!(node.variables.len(), 2);
    assert_eq!(node.functions.len(), 1);
    assert_eq!(itn.variable_text(node.variables[0]).unwrap(), &b"a".to_vec());
    assert_eq!(itn.variable_text(node.variables[1]).unwrap(), &b"b".to_vec());
    assert_eq!(itn.function_text(node.functions[0]).unwrap(), &b"foo".to_vec());
}

#[test]
fn pattern_flattening_nested() {
    // A nested tuple pattern flattens to its leaf bindings, left to right;
    // wildcards and literals contribute none.
    let code = "let ((a, (b, _)), 1, c) = d;";
    let lexed = lex_source(&code.as_bytes().to_vec());
    let mut itn = Interner::new();
    let (program, errors) = compile_tokenstream(&lexed, &mut itn);
    assert_eq!(errors.len(), 0);
    let table = create_symbol_table(&program);
    let (_, node) = &table.items[table.items.len() - 1];
    assert_eq!(node.variables.len(), 3);
    assert_eq!(itn.variable_text(node.variables[0]).unwrap(), &b"a".to_vec());
    assert_eq!(itn.variable_text(node.variables[1]).unwrap(), &b"b".to_vec());
    assert_eq!(itn.variable_text(node.variables[2]).unwrap(), &b"c".to_vec());
}

#[test]
fn recovery_records_diagnostic_and_continues() {
    // A malformed statement yields one diagnostic; parsing resumes after
    // the next semicolon and still delivers the good statement.
    let code = "let = ; fn f() = 1;";
    let lexed = lex_source(&code.as_bytes().to_vec());
    let mut itn = Interner::new();
    let (program, errors) = compile_tokenstream(&lexed, &mut itn);
    assert_eq!(errors.len(), 1);
    assert_eq!(errors[0].message, "expected a statement");
    assert_eq!(errors[0].start, 0);
    assert_eq!(errors[0].end, 3);
    assert_eq!(program.statements.len(), 1);
}

#[test]
fn tuple_expression_is_rejected_with_recovery() {
    // Expressions have no tuple form: "(1,2)" fails the binding, one
    // diagnostic is recorded, and the function after it still parses.
    let code = "let (a,b) = (1,2); fn foo(x) = x;";
    let lexed = lex_source(&code.as_bytes().to_vec());
    let mut itn = Interner::new();
    let (program, errors) = compile_tokenstream(&lexed, &mut itn);
    assert_eq!(errors.len(), 1);
    assert_eq!(program.statements.len(), 1);
    let table = create_symbol_table(&program);
    let (_, node) = &table.items[table.items.len() - 1];
    assert_eq!(node.functions.len(), 1);
    assert_eq!(itn.function_text(node.functions[0]).unwrap(), &b"foo".to_vec());
}

#[test]
fn empty_source_parses_to_empty_program() {
    let mut s = session_with("");
    assert_eq!(s.parse().statements.len(), 0);
    assert_eq!(s.parse_errors().len(), 0);
}

#[test]
fn nested_block_parent_is_inner_block() {
    // A block nested inside another block's statements hangs under the
    // inner block, not under the program.
    let program = compile("let x = { let y = { 1 }; y };");
    let table = create_scope_parent_table(&program);
    assert_eq!(table.table.len(), 2);
    let outer = table.table[0].0;
    assert_eq!(table.table[0].1, ScopeId::Program);
    assert_eq!(table.table[1].1, outer);
}

#[test]
fn redeclaration_keeps_both_entries() {
    // Re-declaring a name in one scope is not collapsed: both occurrences
    // appear, in order, and share one interned id.
    let code = "let a = 1; let a = 2;";
    let lexed = lex_source(&code.as_bytes().to_vec());
    let mut itn = Interner::new();
    let (program, errors) = compile_tokenstream(&lexed, &mut itn);
    assert_eq!(errors.len(), 0);
    let table = create_symbol_table(&program);
    let (_, node) = &table.items[table.items.len() - 1];
    assert_eq!(node.variables.len(), 2);
    assert_eq!(node.variables[0], node.variables[1]);
}

#[test]
fn empty_block_has_no_statements_and_no_return() {
    let program = compile("let a = {};");
    assert_eq!(program.statements.len(), 1);
    let exprfront::parser::statement::Statement::Variable(v) = &program.statements[0] else {
        panic!()
    };
    let exprfront::parser::expression::Expression::Block(b) = &v.body.inner else { panic!() };
    assert_eq!(b.statements.len(), 0);
    assert!(b.return_expr.is_none());
}
