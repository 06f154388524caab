use exprfront::ids::Interner;
use exprfront::lexer::lex_source;
use exprfront::parser::expression::Expression;
use exprfront::parser::function::Function;
use exprfront::parser::literal::Literal;
use exprfront::parser::operations::BinaryOp;
use exprfront::parser::pattern::Pattern;
use exprfront::parser::ty::Type;
use exprfront::parser::variable::Variable;
use exprfront::spanned::Spanned;
use exprfront::stream::Stream;

fn tokens_of(code: &str) -> Vec<exprfront::lexer::Token> {
    let lexed = lex_source(&code.as_bytes().to_vec());
    let stream = Stream::from_iter(&lexed.tokens);
    stream.parts
}

fn compile_expression(code: &str) -> Spanned<Expression> {
    let t = tokens_of(code);
    let mut itn = Interner::new();
    Expression::parser(&t, 0, &mut itn).unwrap().0
}

#[test]
fn todo() {
    let out = compile_expression("_");
    assert!(matches!(out.inner, Expression::Todo(_)));
}

#[test]
fn expression_variable() {
    let out = compile_expression("a");
    assert!(matches!(out.inner, Expression::Variable(_)));
}

#[test]
fn expression_literal() {
    let out = compile_expression("20");
    assert!(matches!(out.inner, Expression::Literal(_)));
}

#[test]
fn add() {
    let out = compile_expression("a + b");
    let Expression::Binary(_a, b, _c) = out.inner else { panic!() };
    assert_eq!(b.inner, BinaryOp::Add);
}

#[test]
fn paren() {
    let out = compile_expression("(a + b) * c");
    let Expression::Binary(a, b, _c) = out.inner else { panic!() };
    assert_eq!(b.inner, BinaryOp::Multiply);
    let Expression::Binary(_a2, b2, _c2) = &a.inner else { panic!() };
    assert_eq!(b2.inner, BinaryOp::Add);
}

#[test]
fn block() {
    let code = "{
            let a = 5;
            a * 2
        } * { 5 + 3}";
    let out = compile_expression(code);
    println!("{:?}", out);
    let Expression::Binary(l, _op, r) = out.inner else { panic!() };
    let Expression::Block(x) = &l.inner else { panic!() };
    assert_eq!(x.statements.len(), 1);
    assert!(x.return_expr.is_some());
    let Expression::Block(x) = &r.inner else { panic!() };
    assert_eq!(x.statements.len(), 0);
    assert!(x.return_expr.is_some());
}

#[test]
fn function() {
    let t = tokens_of("fn fib(0) = 1;");
    let mut itn = Interner::new();
    let _ = Function::parser(&t, 0, &mut itn).unwrap();
}

#[test]
fn typed_function() {
    let t = tokens_of("fn fib(x: u8) -> u8 = x + 2;");
    let mut itn = Interner::new();
    let _ = Function::parser(&t, 0, &mut itn).unwrap();
}

#[test]
fn unsigned() {
    let t = tokens_of("125");
    Literal::parser(&t, 0).unwrap();
}

#[test]
fn float() {
    let t = tokens_of("1.25");
    Literal::parser(&t, 0).unwrap();
}

#[test]
fn pattern_wildcard() {
    let t = tokens_of("_");
    let mut itn = Interner::new();
    let out = Pattern::parser(&t, 0, &mut itn).unwrap().0;
    assert!(matches!(out.inner, Pattern::Wildcard(_)));
}

#[test]
fn variable() {
    let t = tokens_of("foo");
    let mut itn = Interner::new();
    let out = Pattern::parser(&t, 0, &mut itn).unwrap().0;
    assert!(matches!(out.inner, Pattern::Variable(_)));
}

#[test]
fn pattern_literal() {
    let t = tokens_of("12");
    let mut itn = Interner::new();
    let out = Pattern::parser(&t, 0, &mut itn).unwrap().0;
    assert!(matches!(out.inner, Pattern::Literal(_)));
}

#[test]
fn pattern_tuple() {
    let t = tokens_of("(1, _)");
    let mut itn = Interner::new();
    let out = Pattern::parser(&t, 0, &mut itn).unwrap().0;
    assert!(matches!(out.inner, Pattern::Tuple(_)));
}

#[test]
fn ty_wildcard() {
    let t = tokens_of("_");
    let mut itn = Interner::new();
    let out = Type::parser(&t, 0, &mut itn).unwrap().0;
    assert!(matches!(out.inner, Type::Inferred(_)));
}

#[test]
fn ty_variable() {
    let t = tokens_of("a");
    let mut itn = Interner::new();
    let out = Type::parser(&t, 0, &mut itn).unwrap().0;
    assert!(matches!(out.inner, Type::Type(_)));
}

#[test]
fn ty_tuple() {
    let t = tokens_of("(a, _)");
    let mut itn = Interner::new();
    let out = Type::parser(&t, 0, &mut itn).unwrap().0;
    let Type::Tuple(x) = out.inner else { panic!() };
    assert_eq!(x.len(), 2);
}

#[test]
fn variable_variable() {
    let t = tokens_of("let a = a * 2 ;");
    let mut itn = Interner::new();
    let _ = Variable::parser(&t, 0, &mut itn).unwrap();
}

#[test]
fn pattern_variable() {
    let t = tokens_of("let (a, b) = a * 2 ;");
    let mut itn = Interner::new();
    let _ = Variable::parser(&t, 0, &mut itn).unwrap();
}

#[test]
fn typed_variable() {
    let t = tokens_of("let a: u8 = a * 2 ;");
    let mut itn = Interner::new();
    let _ = Variable::parser(&t, 0, &mut itn).unwrap();
}

#[test]
fn precedence_add_then_mul() {
    // "a + b * c" groups as a + (b * c).
    let out = compile_expression("a + b * c");
    let Expression::Binary(l, op, r) = out.inner else { panic!() };
    assert_eq!(op.inner, BinaryOp::Add);
    assert!(matches!(l.inner, Expression::Variable(_)));
    let Expression::Binary(_rl, rop, _rr) = &r.inner else { panic!() };
    assert_eq!(rop.inner, BinaryOp::Multiply);
}

#[test]
fn left_associative_subtraction() {
    // "a - b - c" groups as (a - b) - c.
    let out = compile_expression("a - b - c");
    let Expression::Binary(l, op, r) = out.inner else { panic!() };
    assert_eq!(op.inner, BinaryOp::Subtract);
    assert!(matches!(r.inner, Expression::Variable(_)));
    let Expression::Binary(_ll, lop, _lr) = &l.inner else { panic!() };
    assert_eq!(lop.inner, BinaryOp::Subtract);
}

#[test]
fn division_precedence() {
    // "a / b + c" groups as (a / b) + c.
    let out = compile_expression("a / b + c");
    let Expression::Binary(l, op, _r) = out.inner else { panic!() };
    assert_eq!(op.inner, BinaryOp::Add);
    let Expression::Binary(_ll, lop, _lr) = &l.inner else { panic!() };
    assert_eq!(lop.inner, BinaryOp::Divide);
}

#[test]
fn operator_table_levels() {
    assert_eq!(BinaryOp::Multiply.precedence(), 2);
    assert_eq!(BinaryOp::Divide.precedence(), 2);
    assert_eq!(BinaryOp::Add.precedence(), 1);
    assert_eq!(BinaryOp::Subtract.precedence(), 1);
}
