use exprfront::ids::Interner;
use exprfront::lexer::{lex_source, Token};
use exprfront::spanned::Span;

fn lex(code: &str) -> Vec<(Token, Span)> {
    lex_source(&code.as_bytes().to_vec()).tokens
}

#[test]
fn lexing_covers_all_non_trivia() {
    // Concatenating the bytes under the spans reconstructs exactly the
    // non-whitespace, non-comment content, in order.
    let code = "let a=1; // note\n  b + 2.5e1 @";
    let bytes = code.as_bytes();
    let toks = lex(code);
    let mut covered: Vec<u8> = Vec::new();
    let mut last_end = 0;
    for (_, sp) in &toks {
        assert!(sp.start >= last_end, "spans overlap or go backwards");
        assert!(sp.start < sp.end && sp.end <= bytes.len());
        for k in last_end..sp.start {
            let b = bytes[k];
            let trivia = b == b' ' || b == b'\t' || b == b'\n' || b == 12 || covered_by_comment(
                bytes, k,
            );
            assert!(trivia, "gap byte {} is no trivia", b as char);
        }
        covered.extend_from_slice(&bytes[sp.start..sp.end]);
        last_end = sp.end;
    }
    assert_eq!(covered, b"leta=1;b+2.5e1@".to_vec());
}

fn covered_by_comment(bytes: &[u8], k: usize) -> bool {
    // Is byte k inside a line comment?
    let mut i = 0;
    while i + 1 < bytes.len() {
        if bytes[i] == b'/' && bytes[i + 1] == b'/' {
            let mut j = i;
            while j < bytes.len() && bytes[j] != b'\n' {
                j += 1;
            }
            if i <= k && k < j {
                return true;
            }
            i = j;
        } else {
            i += 1;
        }
    }
    false
}

#[test]
fn empty_input_lexes_to_nothing() {
    assert_eq!(lex("").len(), 0);
    assert_eq!(lex("   // only a comment").len(), 0);
}

#[test]
fn keywords_and_identifiers() {
    let toks = lex("let fn if else true false lets _ _x");
    let kinds: Vec<&Token> = toks.iter().map(|p| &p.0).collect();
    assert!(matches!(kinds[0], Token::Let));
    assert!(matches!(kinds[1], Token::Fn));
    assert!(matches!(kinds[2], Token::If));
    assert!(matches!(kinds[3], Token::Else));
    assert!(matches!(kinds[4], Token::True));
    assert!(matches!(kinds[5], Token::False));
    assert!(matches!(kinds[6], Token::Identifier(_)));
    assert!(matches!(kinds[7], Token::Wildcard));
    assert!(matches!(kinds[8], Token::Identifier(_)));
}

#[test]
fn integer_value_and_span() {
    let toks = lex(" 125 ");
    assert_eq!(toks.len(), 1);
    assert!(matches!(toks[0].0, Token::Int(125)));
    assert_eq!(toks[0].1, Span { start: 1, end: 4 });
}

#[test]
fn float_with_exponent_keeps_text() {
    let toks = lex("2.5e10");
    assert_eq!(toks.len(), 1);
    let Token::Float(text) = &toks[0].0 else { panic!() };
    assert_eq!(text, &b"2.5e10".to_vec());
}

#[test]
fn dot_without_fraction_is_error() {
    // "1." is an integer followed by an unmatched dot.
    let toks = lex("1.");
    assert_eq!(toks.len(), 2);
    assert!(matches!(toks[0].0, Token::Int(1)));
    assert!(matches!(toks[1].0, Token::Error));
}

#[test]
fn oversized_integer_is_error_token() {
    // A digit run whose value exceeds u64 becomes an error token covering
    // the whole run; lexing never fails.
    let toks = lex("99999999999999999999 7");
    assert_eq!(toks.len(), 2);
    assert!(matches!(toks[0].0, Token::Error));
    assert_eq!(toks[0].1, Span { start: 0, end: 20 });
    assert!(matches!(toks[1].0, Token::Int(7)));
}

#[test]
fn unmatched_byte_is_error_token() {
    let toks = lex("a @ b");
    assert_eq!(toks.len(), 3);
    assert!(matches!(toks[1].0, Token::Error));
}

#[test]
fn interning_identity() {
    // Equal texts get equal ids; unequal texts never alias.
    let mut itn = Interner::new();
    let a1 = itn.intern_variable(b"a".to_vec());
    let b1 = itn.intern_variable(b"b".to_vec());
    let a2 = itn.intern_variable(b"a".to_vec());
    assert_eq!(a1, a2);
    assert_ne!(a1, b1);
    assert_eq!(itn.variable_text(a1).unwrap(), &b"a".to_vec());
    // Kinds are partitioned: a function name does not alias a variable name.
    let fa = itn.intern_function(b"a".to_vec());
    assert_eq!(itn.function_text(fa).unwrap(), &b"a".to_vec());
}

#[test]
fn span_merge_covers_both() {
    let a = Span::new(2, 5);
    let b = Span::new(4, 9);
    let m = a.merge(b);
    assert_eq!(m, Span { start: 2, end: 9 });
    let m2 = b.merge(a);
    assert_eq!(m2, Span { start: 2, end: 9 });
}

#[test]
fn block_ids_intern_by_value() {
    let mut itn = Interner::new();
    let x = itn.intern_block(7);
    let y = itn.intern_block(9);
    let z = itn.intern_block(7);
    assert_eq!(x, z);
    assert_ne!(x, y);
}
