pub mod block;
pub mod compare;
pub mod expression;
pub mod function;
pub mod literal;
pub mod operations;
pub mod pattern;
pub mod statement;
pub mod ty;
pub mod variable;
pub mod views;

use vstd::prelude::*;

use crate::ids::{Interner, InternerV};
use crate::lexer::{LexedSource, Token, TokenV};
use statement::{sp_statement, Statement, StatementV};
use views::{lemma_views_stmt_plain_index, lemma_views_stmt_plain_len, sp_views_stmt_plain};

verus! {

/// A whole source file: its statements in order.
#[derive(Debug)]
pub struct Program {
    pub statements: Vec<Statement>,
}

/// The mathematical image of a [`Program`].
pub struct ProgramV {
    pub statements: Seq<StatementV>,
}

impl View for Program {
    type V = ProgramV;

    open spec fn view(&self) -> ProgramV {
        ProgramV { statements: sp_views_stmt_plain(self.statements@) }
    }
}

/// A diagnostic for a token run that did not parse as a statement. `start`
/// and `end` are token indices: the malformed run reaches from `start` to
/// just before the boundary where parsing resumed.
#[derive(Debug)]
pub struct ParseError {
    pub start: usize,
    pub end: usize,
    pub message: String,
}

/// The mathematical image of a [`ParseError`].
pub struct ParseErrorV {
    pub start: int,
    pub end: int,
    pub message: Seq<char>,
}

impl View for ParseError {
    type V = ParseErrorV;

    open spec fn view(&self) -> ParseErrorV {
        ParseErrorV {
            start: self.start as int,
            end: self.end as int,
            message: self.message@,
        }
    }
}

impl DeepView for ParseError {
    type V = ParseErrorV;

    open spec fn deep_view(&self) -> ParseErrorV {
        self.view()
    }
}

/// The diagnostic recorded when a token run is no statement.
pub open spec fn sp_expected_statement() -> Seq<char> {
    "expected a statement"@
}

/// The position just after the next `;` at or after `i`, or the end of the
/// token sequence: where parsing resumes after a malformed statement.
pub open spec fn sp_semi_skip(t: Seq<TokenV>, i: int) -> int
    decreases t.len() - i,
{
    if i < 0 || i >= t.len() {
        t.len() as int
    } else if t[i] == TokenV::Semicolon {
        i + 1
    } else {
        sp_semi_skip(t, i + 1)
    }
}

pub proof fn lemma_sp_semi_skip_bounds(t: Seq<TokenV>, i: int)
    requires
        0 <= i < t.len(),
    ensures
        i < sp_semi_skip(t, i) <= t.len(),
    decreases t.len() - i,
{
    if t[i] != TokenV::Semicolon {
        if i + 1 < t.len() {
            lemma_sp_semi_skip_bounds(t, i + 1);
        } else {
            assert(sp_semi_skip(t, i + 1) == t.len());
        }
    }
}

fn semi_skip_exec(t: &Vec<Token>, pos: usize) -> (r: usize)
    requires
        pos <= t@.len(),
    ensures
        r as int == sp_semi_skip(t.deep_view(), pos as int),
        pos <= r <= t@.len(),
{
    let n = t.len();
    let mut e = pos;
    loop
        invariant
            pos <= e <= n,
            n == t@.len(),
            sp_semi_skip(t.deep_view(), pos as int) == sp_semi_skip(t.deep_view(), e as int),
        decreases n - e,
    {
        if e >= n {
            assert(sp_semi_skip(t.deep_view(), e as int) == n);
            return e;
        }
        assert(t.deep_view()[e as int] == t@[e as int]@);
        let found = match &t[e] {
            Token::Semicolon => true,
            _ => false,
        };
        if found {
            assert(sp_semi_skip(t.deep_view(), e as int) == e + 1);
            return e + 1;
        }
        e += 1;
    }
}

/// The program read from position `i` to the end of the token sequence:
/// statements are accumulated in order; a token run that is no statement
/// yields one diagnostic and parsing resumes after the next `;` (or at the
/// end). Parsing a program never fails outright.
pub open spec fn sp_program_from(t: Seq<TokenV>, i: int, m: InternerV) -> (
    Seq<StatementV>,
    Seq<ParseErrorV>,
    InternerV,
)
    decreases t.len() - i,
{
    if i < 0 || i >= t.len() {
        (Seq::empty(), Seq::empty(), m)
    } else {
        let (r, m1) = sp_statement(t, i, m);
        match r {
            Some((s, j)) => {
                if j <= i || j > t.len() {
                    (Seq::empty(), Seq::empty(), m1)
                } else {
                    let (ss, ds, m2) = sp_program_from(t, j, m1);
                    (seq![s.inner] + ss, ds, m2)
                }
            },
            None => {
                let e = sp_semi_skip(t, i);
                proof {
                    lemma_sp_semi_skip_bounds(t, i);
                }
                let (ss, ds, m2) = sp_program_from(t, e, m1);
                (
                    ss,
                    seq![ParseErrorV { start: i, end: e, message: sp_expected_statement() }] + ds,
                    m2,
                )
            },
        }
    }
}

/// The whole program and its diagnostics, read from the start.
pub open spec fn sp_program(t: Seq<TokenV>, m: InternerV) -> (
    (ProgramV, Seq<ParseErrorV>),
    InternerV,
) {
    let (ss, ds, m1) = sp_program_from(t, 0, m);
    ((ProgramV { statements: ss }, ds), m1)
}

#[verifier::rlimit(100)]
fn parse_program_from(t: &Vec<Token>, pos: usize, itn: &mut Interner) -> (r: (
    Vec<Statement>,
    Vec<ParseError>,
))
    requires
        pos <= t@.len(),
    ensures
        ({
            let (ss, ds, sm) = sp_program_from(t.deep_view(), pos as int, old(itn)@);
            final(itn)@ == sm && sp_views_stmt_plain(r.0@) == ss && r.1.deep_view() == ds
        }),
    decreases t@.len() - pos,
{
    let n = t.len();
    if pos >= n {
        let vs: Vec<Statement> = Vec::new();
        let ds: Vec<ParseError> = Vec::new();
        proof {
            lemma_views_stmt_plain_len(vs@);
            assert(sp_views_stmt_plain(vs@) =~= Seq::<StatementV>::empty());
            assert(ds.deep_view() =~= Seq::<ParseErrorV>::empty());
        }
        return (vs, ds);
    }
    match Statement::parser(t, pos, itn) {
        Some((s, j)) => {
            let ghost sv = s@;
            let s0 = s.into_inner();
            let (mut rest, ds) = parse_program_from(t, j, itn);
            let ghost restv = rest@;
            let mut vs: Vec<Statement> = Vec::new();
            vs.push(s0);
            vs.append(&mut rest);
            proof {
                assert(vs@ =~= seq![s0] + restv);
                assert(vs@.len() == restv.len() + 1);
                let a = sp_views_stmt_plain(vs@);
                let b = seq![sv.inner] + sp_views_stmt_plain(restv);
                lemma_views_stmt_plain_len(vs@);
                lemma_views_stmt_plain_len(restv);
                assert forall|k: int| 0 <= k < a.len() implies a[k] == b[k] by {
                    lemma_views_stmt_plain_index(vs@, k);
                    if k == 0 {
                        assert(vs@[0] == s0);
                    } else {
                        lemma_cons_index(s0, restv, k);
                        assert(vs@[k] == restv[k - 1]);
                        lemma_views_stmt_plain_index(restv, k - 1);
                        lemma_cons_index(sv.inner, sp_views_stmt_plain(restv), k);
                    }
                }
                assert(a =~= b);
            }
            (vs, ds)
        },
        None => {
            // Skip forward to just after the next statement boundary.
            let ghost tv = t.deep_view();
            let boundary = semi_skip_exec(t, pos);
            proof {
                lemma_sp_semi_skip_bounds(tv, pos as int);
            }
            let (vs, mut rest) = parse_program_from(t, boundary, itn);
            let ghost restq = rest@;
            let ghost restd = rest.deep_view();
            let err = ParseError {
                start: pos,
                end: boundary,
                message: "expected a statement".to_string(),
            };
            let ghost errv = err@;
            let mut ds: Vec<ParseError> = Vec::new();
            ds.push(err);
            ds.append(&mut rest);
            proof {
                assert(errv.message == sp_expected_statement());
                assert(ds@ =~= seq![err] + restq);
                assert(ds@.len() == restq.len() + 1);
                assert(restd.len() == restq.len());
                let a = ds.deep_view();
                let b = seq![errv] + restd;
                assert forall|k: int| 0 <= k < a.len() implies a[k] == b[k] by {
                    assert(a[k] == ds@[k].deep_view());
                    if k == 0 {
                        assert(ds@[0] == err);
                    } else {
                        lemma_cons_index(err, restq, k);
                        assert(ds@[k] == restq[k - 1]);
                        assert(restd[k - 1] == restq[k - 1].deep_view());
                        lemma_cons_index(errv, restd, k);
                    }
                }
                assert(a =~= b);
            }
            (vs, ds)
        },
    }
}

impl Program {
    /// Parses a whole token sequence into a program, collecting diagnostics
    /// for malformed statements instead of failing.
    pub fn parser(t: &Vec<Token>, itn: &mut Interner) -> (r: (Program, Vec<ParseError>))
        ensures
            ({
                let ((pv, ds), sm) = sp_program(t.deep_view(), old(itn)@);
                final(itn)@ == sm && r.0@ == pv && r.1.deep_view() == ds
            }),
    {
        let (ss, ds) = parse_program_from(t, 0, itn);
        (Program { statements: ss }, ds)
    }
}

/// Parses the tokens of a lexed source. The spans are dropped first: a
/// parse depends on the token sequence alone.
pub fn compile_tokenstream(ls: &LexedSource, itn: &mut Interner) -> (r: (Program, Vec<ParseError>))
    ensures
        ({
            let ((pv, ds), sm) = sp_program(crate::stream::sp_tokens_of(ls@), old(itn)@);
            final(itn)@ == sm && r.0@ == pv && r.1.deep_view() == ds
        }),
{
    let stream = crate::stream::Stream::from_iter(&ls.tokens);
    Program::parser(&stream.parts, itn)
}

/// True when the token at `j` is `=`.
pub(crate) fn tok_is_equals(t: &Vec<Token>, j: usize) -> (r: bool)
    ensures
        r == (j < t@.len() && t.deep_view()[j as int] == TokenV::Equals),
{
    if j < t.len() {
        assert(t.deep_view()[j as int] == t@[j as int]@);
        match &t[j] {
            Token::Equals => true,
            _ => false,
        }
    } else {
        false
    }
}

/// True when the token at `j` is `;`.
pub(crate) fn tok_is_semicolon(t: &Vec<Token>, j: usize) -> (r: bool)
    ensures
        r == (j < t@.len() && t.deep_view()[j as int] == TokenV::Semicolon),
{
    if j < t.len() {
        assert(t.deep_view()[j as int] == t@[j as int]@);
        match &t[j] {
            Token::Semicolon => true,
            _ => false,
        }
    } else {
        false
    }
}

/// Indexing a sequence built by putting one element in front of another
/// sequence.
pub proof fn lemma_cons_index<T>(x: T, r: Seq<T>, k: int)
    requires
        1 <= k < r.len() + 1,
    ensures
        (seq![x] + r).len() == r.len() + 1,
        (seq![x] + r)[k] == r[k - 1],
        (seq![x] + r)[0] == x,
{
}

} // verus!
