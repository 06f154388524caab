use vstd::prelude::*;

use crate::ids::{Interner, InternerV};
use crate::lexer::{Token, TokenV};
use crate::spanned::{Spanned, SpannedV};

use super::function::{sp_function, Function, FunctionV};
use super::variable::{sp_variable, Variable, VariableV};

verus! {

/// One statement: a function definition or a variable binding. The variants
/// are not spanned themselves; a `Spanned<Statement>` spans the whole
/// statement.
#[derive(Debug)]
pub enum Statement {
    Function(Function),
    Variable(Variable),
}

/// The mathematical image of a [`Statement`].
pub enum StatementV {
    Function(FunctionV),
    Variable(VariableV),
}

/// The statement read at position `i`: a function if it opens with `fn`, a
/// variable binding if it opens with `let`.
pub open spec fn sp_statement(t: Seq<TokenV>, i: int, m: InternerV) -> (Option<
    (SpannedV<StatementV>, int),
>, InternerV)
    decreases t.len() - i, 7int,
{
    if i < 0 || i >= t.len() {
        (None, m)
    } else if t[i] == TokenV::Fn {
        let (r, m1) = sp_function(t, i, m);
        match r {
            Some((f, j)) => (
                Some((SpannedV { span: f.span, inner: StatementV::Function(f.inner) }, j)),
                m1,
            ),
            None => (None, m1),
        }
    } else if t[i] == TokenV::Let {
        let (r, m1) = sp_variable(t, i, m);
        match r {
            Some((v, j)) => (
                Some((SpannedV { span: v.span, inner: StatementV::Variable(v.inner) }, j)),
                m1,
            ),
            None => (None, m1),
        }
    } else {
        (None, m)
    }
}

impl Statement {
    /// Reads one statement starting at `pos`.
    #[verifier::rlimit(100)]
    pub fn parser(t: &Vec<Token>, pos: usize, itn: &mut Interner) -> (r: Option<
        (Spanned<Statement>, usize),
    >)
        requires
            pos <= t@.len(),
        ensures
            ({
                let (sr, sm) = sp_statement(t.deep_view(), pos as int, old(itn)@);
                final(itn)@ == sm && match (r, sr) {
                    (Some(a), Some(b)) => a.0@ == b.0 && a.1 as int == b.1 && pos < a.1 <= t@.len(),
                    (None, None) => true,
                    _ => false,
                }
            }),
        decreases t@.len() - pos, 7int,
    {
        if pos >= t.len() {
            return None;
        }
        assert(t.deep_view()[pos as int] == t@[pos as int]@);
        match &t[pos] {
            Token::Fn => {
                match Function::parser(t, pos, itn) {
                    Some((f, j)) => {
                        let sp = f.span;
                        Some((Spanned::new(Statement::Function(f.into_inner()), sp), j))
                    },
                    None => None,
                }
            },
            Token::Let => {
                match Variable::parser(t, pos, itn) {
                    Some((v, j)) => {
                        let sp = v.span;
                        Some((Spanned::new(Statement::Variable(v.into_inner()), sp), j))
                    },
                    None => None,
                }
            },
            _ => None,
        }
    }
}

} // verus!
