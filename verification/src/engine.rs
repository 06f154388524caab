use vstd::prelude::*;

use crate::ids::{Interner, InternerV};
use crate::lexer::{lex_of, lex_source, LexedSource, TokenV};
use crate::parser::compare::program_eq;
use crate::parser::{sp_program, ParseError, Program, ProgramV};
use crate::stream::{sp_tokens_of, Stream};
use crate::symbols::{
    create_scope_parent_table, create_symbol_table, sp_scope_program, sp_symtab_program,
    ScopeParentTable, SymbolTable,
};

verus! {

/// The versioned input cell: the current source text and the revision at
/// which it was last replaced. It is the sole root of change.
#[derive(Debug)]
pub struct ProgramSource {
    pub raw_text: Vec<u8>,
    pub changed_at: u64,
}

/// A memoized derived value: the value, the revision at which it last
/// changed, and the revision at which it was last verified against its
/// dependency.
#[derive(Debug)]
pub struct LexMemo {
    pub value: LexedSource,
    pub changed_at: u64,
    pub verified_at: u64,
}

#[derive(Debug)]
pub struct TokensMemo {
    pub value: Stream,
    pub changed_at: u64,
    pub verified_at: u64,
}

pub struct ParseMemo {
    pub program: Program,
    pub errors: Vec<ParseError>,
    /// The token sequence this parse ran on.
    pub basis_tokens: Ghost<Seq<TokenV>>,
    /// The interner contents when this parse started.
    pub basis_interner: Ghost<InternerV>,
    /// The revision at which the program component last changed.
    pub changed_at: u64,
    pub verified_at: u64,
}

#[derive(Debug)]
pub struct ScopesMemo {
    pub value: ScopeParentTable,
    pub changed_at: u64,
    pub verified_at: u64,
}

#[derive(Debug)]
pub struct SymbolsMemo {
    pub value: SymbolTable,
    pub changed_at: u64,
    pub verified_at: u64,
}

/// The next value of a counter, stopping at the top of its range.
pub open spec fn bump(x: u64) -> u64 {
    if x < u64::MAX {
        (x + 1) as u64
    } else {
        x
    }
}

fn bump_exec(x: u64) -> (r: u64)
    ensures
        r == bump(x),
{
    if x < u64::MAX {
        x + 1
    } else {
        x
    }
}

/// One compilation session: the interner, the source cell, the memo store
/// of the derived queries, and a run counter per query.
///
/// Each derived value is kept with the revision at which it last changed
/// and the revision at which it was last verified against its dependency.
/// On access, a query whose dependency has not changed since its last
/// verification is served from the memo without recomputation; otherwise
/// the query re-executes, and a recomputed value that is structurally
/// equal to the cached one keeps its old change revision (early cutoff),
/// so queries further down still see their dependency as unchanged.
///
/// The dependencies form a fixed chain: the source feeds the lexer; the
/// token sequence (spans dropped) feeds the parser; the parsed program
/// feeds the scope and symbol builders. The parser reads the token
/// sequence without spans, so an edit that only moves tokens around never
/// reaches the parser or anything after it.
pub struct Session {
    pub interner: Interner,
    pub revision: u64,
    pub source: ProgramSource,
    pub lex_memo: Option<LexMemo>,
    pub tokens_memo: Option<TokensMemo>,
    pub parse_memo: Option<ParseMemo>,
    pub scopes_memo: Option<ScopesMemo>,
    pub symbols_memo: Option<SymbolsMemo>,
    pub lex_runs: u64,
    pub tokens_runs: u64,
    pub parse_runs: u64,
    pub scope_runs: u64,
    pub symbol_runs: u64,
}

impl Session {
    /// The memo store is consistent: every memoized value that counts as
    /// verified against its dependency equals the mathematical function of
    /// that dependency.
    pub open spec fn wf(self) -> bool {
        &&& self.source.changed_at <= self.revision
        &&& match self.lex_memo {
            Some(m) => m.changed_at <= m.verified_at <= self.revision && (m.verified_at
                >= self.source.changed_at ==> m.value@ == lex_of(self.source.raw_text@)),
            None => true,
        }
        &&& match self.tokens_memo {
            Some(m) => match self.lex_memo {
                Some(lm) => m.changed_at <= m.verified_at <= self.revision && m.verified_at
                    <= lm.verified_at && (m.verified_at >= lm.changed_at ==> m.value@
                    == sp_tokens_of(lm.value@)),
                None => false,
            },
            None => true,
        }
        &&& match self.parse_memo {
            Some(pm) => match self.tokens_memo {
                Some(tm) => {
                    &&& pm.changed_at <= pm.verified_at <= self.revision
                    &&& pm.verified_at <= tm.verified_at
                    &&& (pm.program@, pm.errors.deep_view()) == sp_program(
                        pm.basis_tokens@,
                        pm.basis_interner@,
                    ).0
                    &&& (pm.verified_at >= tm.changed_at ==> pm.basis_tokens@ == tm.value@)
                },
                None => false,
            },
            None => true,
        }
        &&& match self.scopes_memo {
            Some(sm) => match self.parse_memo {
                Some(pm) => sm.changed_at <= sm.verified_at <= self.revision && sm.verified_at
                    <= pm.verified_at && (sm.verified_at >= pm.changed_at ==> sm.value@
                    == sp_scope_program(pm.program@)),
                None => false,
            },
            None => true,
        }
        &&& match self.symbols_memo {
            Some(sm) => match self.parse_memo {
                Some(pm) => sm.changed_at <= sm.verified_at <= self.revision && sm.verified_at
                    <= pm.verified_at && (sm.verified_at >= pm.changed_at ==> sm.value@
                    == sp_symtab_program(pm.program@)),
                None => false,
            },
            None => true,
        }
    }

    /// Will the next access serve the lexer query from the memo?
    pub open spec fn lex_would_hit(self) -> bool {
        match self.lex_memo {
            Some(m) => m.verified_at >= self.source.changed_at,
            None => false,
        }
    }

    /// The revision at which the lexer value counts as last changed, after
    /// the next access.
    pub open spec fn lex_changed_after(self) -> u64 {
        match self.lex_memo {
            Some(m) => if m.verified_at >= self.source.changed_at {
                m.changed_at
            } else if m.value@ == lex_of(self.source.raw_text@) {
                m.changed_at
            } else {
                self.revision
            },
            None => self.revision,
        }
    }

    /// Will the next access serve the token-sequence query from the memo?
    pub open spec fn tokens_would_hit(self) -> bool {
        match self.tokens_memo {
            Some(m) => m.verified_at >= self.lex_changed_after(),
            None => false,
        }
    }

    /// The revision at which the token sequence counts as last changed,
    /// after the next access.
    pub open spec fn tokens_changed_after(self) -> u64 {
        match self.tokens_memo {
            Some(m) => if self.tokens_would_hit() {
                m.changed_at
            } else if m.value@ == sp_tokens_of(lex_of(self.source.raw_text@)) {
                m.changed_at
            } else {
                self.revision
            },
            None => self.revision,
        }
    }

    /// Will the next access serve the parse query from the memo?
    pub open spec fn parse_would_hit(self) -> bool {
        match self.parse_memo {
            Some(m) => m.verified_at >= self.tokens_changed_after(),
            None => false,
        }
    }

    /// The program the next parse access yields.
    pub open spec fn parse_program_after(self) -> ProgramV {
        match self.parse_memo {
            Some(m) => if self.parse_would_hit() {
                m.program@
            } else {
                sp_program(sp_tokens_of(lex_of(self.source.raw_text@)), self.interner@).0.0
            },
            None => sp_program(sp_tokens_of(lex_of(self.source.raw_text@)), self.interner@).0.0,
        }
    }

    /// The revision at which the program counts as last changed, after the
    /// next access.
    pub open spec fn parse_changed_after(self) -> u64 {
        match self.parse_memo {
            Some(m) => if self.parse_would_hit() {
                m.changed_at
            } else if m.program@ == sp_program(
                sp_tokens_of(lex_of(self.source.raw_text@)),
                self.interner@,
            ).0.0 {
                m.changed_at
            } else {
                self.revision
            },
            None => self.revision,
        }
    }

    /// Will the next access serve the scope-table query from the memo?
    pub open spec fn scopes_would_hit(self) -> bool {
        match self.scopes_memo {
            Some(m) => m.verified_at >= self.parse_changed_after(),
            None => false,
        }
    }

    /// Will the next access serve the symbol-table query from the memo?
    pub open spec fn symbols_would_hit(self) -> bool {
        match self.symbols_memo {
            Some(m) => m.verified_at >= self.parse_changed_after(),
            None => false,
        }
    }
}

/// A fresh session: empty source at revision zero, an empty interner, an
/// empty memo store, and all run counters at zero.
pub fn create_session() -> (r: Session)
    ensures
        r.wf(),
        r.revision == 0 && r.source.raw_text@ == Seq::<u8>::empty() && r.source.changed_at == 0,
        r.interner@.variables == Seq::<Seq<u8>>::empty(),
        r.interner@.functions == Seq::<Seq<u8>>::empty(),
        r.interner@.types == Seq::<Seq<u8>>::empty(),
        r.lex_memo is None && r.tokens_memo is None && r.parse_memo is None && r.scopes_memo
            is None && r.symbols_memo is None,
        r.lex_runs == 0 && r.tokens_runs == 0 && r.parse_runs == 0 && r.scope_runs == 0
            && r.symbol_runs == 0,
{
    let text: Vec<u8> = Vec::new();
    assert(text@ =~= Seq::<u8>::empty());
    Session {
        interner: Interner::new(),
        revision: 0,
        source: ProgramSource { raw_text: text, changed_at: 0 },
        lex_memo: None,
        tokens_memo: None,
        parse_memo: None,
        scopes_memo: None,
        symbols_memo: None,
        lex_runs: 0,
        tokens_runs: 0,
        parse_runs: 0,
        scope_runs: 0,
        symbol_runs: 0,
    }
}

impl Session {
    /// Replaces the source text and advances the session's revision: the
    /// sole mutation a session admits. Every memoized value stays in
    /// place; re-verification happens lazily on the next access.
    pub fn update_source(&mut self, text: Vec<u8>)
        requires
            old(self).wf(),
            old(self).revision < u64::MAX,
        ensures
            final(self).wf(),
            final(self).revision == old(self).revision + 1,
            final(self).source.raw_text@ == text@,
            final(self).source.changed_at == final(self).revision,
            final(self).interner == old(self).interner,
            final(self).lex_memo == old(self).lex_memo,
            final(self).tokens_memo == old(self).tokens_memo,
            final(self).parse_memo == old(self).parse_memo,
            final(self).scopes_memo == old(self).scopes_memo,
            final(self).symbols_memo == old(self).symbols_memo,
            final(self).lex_runs == old(self).lex_runs,
            final(self).tokens_runs == old(self).tokens_runs,
            final(self).parse_runs == old(self).parse_runs,
            final(self).scope_runs == old(self).scope_runs,
            final(self).symbol_runs == old(self).symbol_runs,
    {
        self.revision = self.revision + 1;
        self.source = ProgramSource { raw_text: text, changed_at: self.revision };
    }

    /// Sets the source text: replacement by a new text and a new revision.
    pub fn set_source(&mut self, text: Vec<u8>)
        requires
            old(self).wf(),
            old(self).revision < u64::MAX,
        ensures
            final(self).wf(),
            final(self).revision == old(self).revision + 1,
            final(self).source.raw_text@ == text@,
            final(self).source.changed_at == final(self).revision,
    {
        self.update_source(text);
    }

    fn ensure_lex(&mut self)
        requires
            old(self).wf(),
        ensures
            final(self).wf(),
            final(self).interner == old(self).interner,
            final(self).revision == old(self).revision,
            final(self).source == old(self).source,
            final(self).tokens_memo == old(self).tokens_memo,
            final(self).parse_memo == old(self).parse_memo,
            final(self).scopes_memo == old(self).scopes_memo,
            final(self).symbols_memo == old(self).symbols_memo,
            final(self).tokens_runs == old(self).tokens_runs,
            final(self).parse_runs == old(self).parse_runs,
            final(self).scope_runs == old(self).scope_runs,
            final(self).symbol_runs == old(self).symbol_runs,
            match final(self).lex_memo {
                Some(m) => m.value@ == lex_of(final(self).source.raw_text@) && m.verified_at
                    == final(self).revision && m.changed_at == old(self).lex_changed_after(),
                None => false,
            },
            final(self).lex_runs == if old(self).lex_would_hit() {
                old(self).lex_runs
            } else {
                bump(old(self).lex_runs)
            },
    {
        let hit = match &self.lex_memo {
            Some(m) => m.verified_at >= self.source.changed_at,
            None => false,
        };
        if hit {
            match self.lex_memo.take() {
                Some(mut m) => {
                    m.verified_at = self.revision;
                    self.lex_memo = Some(m);
                },
                None => {
                },
            }
        } else {
            let fresh = lex_source(&self.source.raw_text);
            self.lex_runs = bump_exec(self.lex_runs);
            match self.lex_memo.take() {
                Some(mut m) => {
                    let same = crate::lexer::lexed_eq(&fresh, &m.value);
                    m.value = fresh;
                    if !same {
                        m.changed_at = self.revision;
                    }
                    m.verified_at = self.revision;
                    self.lex_memo = Some(m);
                },
                None => {
                    self.lex_memo = Some(
                        LexMemo {
                            value: fresh,
                            changed_at: self.revision,
                            verified_at: self.revision,
                        },
                    );
                },
            }
        }
    }

    fn ensure_tokens(&mut self)
        requires
            old(self).wf(),
        ensures
            final(self).wf(),
            final(self).interner == old(self).interner,
            final(self).revision == old(self).revision,
            final(self).source == old(self).source,
            final(self).parse_memo == old(self).parse_memo,
            final(self).scopes_memo == old(self).scopes_memo,
            final(self).symbols_memo == old(self).symbols_memo,
            final(self).parse_runs == old(self).parse_runs,
            final(self).scope_runs == old(self).scope_runs,
            final(self).symbol_runs == old(self).symbol_runs,
            match final(self).tokens_memo {
                Some(m) => m.value@ == sp_tokens_of(lex_of(final(self).source.raw_text@))
                    && m.verified_at == final(self).revision && m.changed_at == old(self).tokens_changed_after(),
                None => false,
            },
            final(self).tokens_runs == if old(self).tokens_would_hit() {
                old(self).tokens_runs
            } else {
                bump(old(self).tokens_runs)
            },
            final(self).lex_runs == if old(self).lex_would_hit() {
                old(self).lex_runs
            } else {
                bump(old(self).lex_runs)
            },
            match final(self).lex_memo {
                Some(m) => m.verified_at == final(self).revision && m.changed_at == old(self).lex_changed_after(),
                None => false,
            },
    {
        self.ensure_lex();
        let hit = match (&self.tokens_memo, &self.lex_memo) {
            (Some(tm), Some(lm)) => tm.verified_at >= lm.changed_at,
            _ => false,
        };
        if hit {
            match self.tokens_memo.take() {
                Some(mut m) => {
                    m.verified_at = self.revision;
                    self.tokens_memo = Some(m);
                },
                None => {
                },
            }
        } else {
            let fresh = match &self.lex_memo {
                Some(lm) => Stream::from_iter(&lm.value.tokens),
                None => Stream { parts: Vec::new() },
            };
            self.tokens_runs = bump_exec(self.tokens_runs);
            match self.tokens_memo.take() {
                Some(mut m) => {
                    let same = crate::lexer::token_vec_eq(&fresh.parts, &m.value.parts);
                    m.value = fresh;
                    if !same {
                        m.changed_at = self.revision;
                    }
                    m.verified_at = self.revision;
                    self.tokens_memo = Some(m);
                },
                None => {
                    self.tokens_memo = Some(
                        TokensMemo {
                            value: fresh,
                            changed_at: self.revision,
                            verified_at: self.revision,
                        },
                    );
                },
            }
        }
    }

    fn ensure_parse(&mut self)
        requires
            old(self).wf(),
        ensures
            final(self).wf(),
            final(self).revision == old(self).revision,
            final(self).source == old(self).source,
            final(self).scopes_memo == old(self).scopes_memo,
            final(self).symbols_memo == old(self).symbols_memo,
            final(self).scope_runs == old(self).scope_runs,
            final(self).symbol_runs == old(self).symbol_runs,
            match final(self).parse_memo {
                Some(m) => m.program@ == old(self).parse_program_after() && m.verified_at == final(self).revision && m.changed_at == old(self).parse_changed_after(),
                None => false,
            },
            old(self).parse_would_hit() ==> final(self).interner == old(self).interner && final(self).parse_memo is Some && old(self).parse_memo is Some && (match (
                final(self).parse_memo,
                old(self).parse_memo,
            ) {
                (Some(a), Some(b)) => a.program@ == b.program@ && a.errors == b.errors,
                _ => false,
            }),
            !old(self).parse_would_hit() ==> (match final(self).parse_memo {
                Some(m) => {
                    let ((pv, ds), mi) = sp_program(
                        sp_tokens_of(lex_of(old(self).source.raw_text@)),
                        old(self).interner@,
                    );
                    m.program@ == pv && m.errors.deep_view() == ds && final(self).interner@ == mi
                },
                None => false,
            }),
            final(self).parse_runs == if old(self).parse_would_hit() {
                old(self).parse_runs
            } else {
                bump(old(self).parse_runs)
            },
            final(self).tokens_runs == if old(self).tokens_would_hit() {
                old(self).tokens_runs
            } else {
                bump(old(self).tokens_runs)
            },
            final(self).lex_runs == if old(self).lex_would_hit() {
                old(self).lex_runs
            } else {
                bump(old(self).lex_runs)
            },
            match final(self).tokens_memo {
                Some(m) => m.verified_at == final(self).revision,
                None => false,
            },
            match final(self).lex_memo {
                Some(m) => m.verified_at == final(self).revision,
                None => false,
            },
    {
        self.ensure_tokens();
        let hit = match (&self.parse_memo, &self.tokens_memo) {
            (Some(pm), Some(tm)) => pm.verified_at >= tm.changed_at,
            _ => false,
        };
        if hit {
            match self.parse_memo.take() {
                Some(mut m) => {
                    m.verified_at = self.revision;
                    self.parse_memo = Some(m);
                },
                None => {
                },
            }
        } else {
            let ghost bi = self.interner@;
            let ghost bt = match &self.tokens_memo {
                Some(tm) => tm.value@,
                None => Seq::<TokenV>::empty(),
            };
            let (prog, errs) = match &self.tokens_memo {
                Some(tm) => Program::parser(&tm.value.parts, &mut self.interner),
                None => (Program { statements: Vec::new() }, Vec::new()),
            };
            self.parse_runs = bump_exec(self.parse_runs);
            match self.parse_memo.take() {
                Some(m) => {
                    let same = program_eq(&prog, &m.program);
                    let ca = if same {
                        m.changed_at
                    } else {
                        self.revision
                    };
                    self.parse_memo = Some(
                        ParseMemo {
                            program: prog,
                            errors: errs,
                            basis_tokens: Ghost(bt),
                            basis_interner: Ghost(bi),
                            changed_at: ca,
                            verified_at: self.revision,
                        },
                    );
                },
                None => {
                    self.parse_memo = Some(
                        ParseMemo {
                            program: prog,
                            errors: errs,
                            basis_tokens: Ghost(bt),
                            basis_interner: Ghost(bi),
                            changed_at: self.revision,
                            verified_at: self.revision,
                        },
                    );
                },
            }
        }
    }

    /// Derives (or reuses) the token-and-span sequence of the current
    /// source text.
    pub fn lex(&mut self) -> (r: &LexedSource)
        requires
            old(self).wf(),
        ensures
            final(self).wf(),
            r@ == lex_of(old(self).source.raw_text@),
            final(self).source == old(self).source,
            final(self).revision == old(self).revision,
            final(self).interner == old(self).interner,
            final(self).lex_runs == if old(self).lex_would_hit() {
                old(self).lex_runs
            } else {
                bump(old(self).lex_runs)
            },
            final(self).parse_runs == old(self).parse_runs,
            final(self).scope_runs == old(self).scope_runs,
            final(self).symbol_runs == old(self).symbol_runs,
    {
        self.ensure_lex();
        match &self.lex_memo {
            Some(m) => &m.value,
            None => unreached(),
        }
    }

    /// Parses (or reuses) the program of the current source text. A second
    /// access with nothing changed in between is served from the memo with
    /// no recomputation and yields the structurally identical program; an
    /// edit whose token sequence is unchanged never reaches the parser.
    pub fn parse(&mut self) -> (r: &Program)
        requires
            old(self).wf(),
        ensures
            final(self).wf(),
            r@ == old(self).parse_program_after(),
            final(self).source == old(self).source,
            final(self).revision == old(self).revision,
            final(self).parse_runs == if old(self).parse_would_hit() {
                old(self).parse_runs
            } else {
                bump(old(self).parse_runs)
            },
            final(self).scope_runs == old(self).scope_runs,
            final(self).symbol_runs == old(self).symbol_runs,
            final(self).parse_would_hit(),
    {
        self.ensure_parse();
        match &self.parse_memo {
            Some(m) => &m.program,
            None => unreached(),
        }
    }

    /// The diagnostics recorded by the most recent parse of the current
    /// source text.
    pub fn parse_errors(&mut self) -> (r: &Vec<ParseError>)
        requires
            old(self).wf(),
        ensures
            final(self).wf(),
            old(self).parse_would_hit() ==> final(self).parse_runs == old(self).parse_runs,
            !old(self).parse_would_hit() ==> r.deep_view() == sp_program(
                sp_tokens_of(lex_of(old(self).source.raw_text@)),
                old(self).interner@,
            ).0.1,
            final(self).source == old(self).source,
            final(self).revision == old(self).revision,
    {
        self.ensure_parse();
        match &self.parse_memo {
            Some(m) => &m.errors,
            None => unreached(),
        }
    }

    /// Derives (or reuses) the scope parent table of the current program.
    /// It is recomputed only when the program itself changed — not when an
    /// edit re-lexed or re-parsed to structurally identical results.
    pub fn scope_parents(&mut self) -> (r: &ScopeParentTable)
        requires
            old(self).wf(),
        ensures
            final(self).wf(),
            r@ == sp_scope_program(old(self).parse_program_after()),
            final(self).source == old(self).source,
            final(self).revision == old(self).revision,
            final(self).scope_runs == if old(self).scopes_would_hit() {
                old(self).scope_runs
            } else {
                bump(old(self).scope_runs)
            },
            final(self).parse_runs == if old(self).parse_would_hit() {
                old(self).parse_runs
            } else {
                bump(old(self).parse_runs)
            },
            final(self).symbol_runs == old(self).symbol_runs,
    {
        self.ensure_parse();
        let hit = match (&self.scopes_memo, &self.parse_memo) {
            (Some(sm), Some(pm)) => sm.verified_at >= pm.changed_at,
            _ => false,
        };
        if hit {
            match self.scopes_memo.take() {
                Some(mut m) => {
                    m.verified_at = self.revision;
                    self.scopes_memo = Some(m);
                },
                None => {
                },
            }
        } else {
            let fresh = match &self.parse_memo {
                Some(pm) => create_scope_parent_table(&pm.program),
                None => ScopeParentTable { table: Vec::new() },
            };
            self.scope_runs = bump_exec(self.scope_runs);
            match self.scopes_memo.take() {
                Some(mut m) => {
                    let same = scope_table_eq(&fresh, &m.value);
                    m.value = fresh;
                    if !same {
                        m.changed_at = self.revision;
                    }
                    m.verified_at = self.revision;
                    self.scopes_memo = Some(m);
                },
                None => {
                    self.scopes_memo = Some(
                        ScopesMemo {
                            value: fresh,
                            changed_at: self.revision,
                            verified_at: self.revision,
                        },
                    );
                },
            }
        }
        match &self.scopes_memo {
            Some(m) => &m.value,
            None => unreached(),
        }
    }

    /// Derives (or reuses) the symbol table of the current program. As for
    /// the scope table, it is recomputed only when the program changed.
    pub fn symbol_table(&mut self) -> (r: &SymbolTable)
        requires
            old(self).wf(),
        ensures
            final(self).wf(),
            r@ == sp_symtab_program(old(self).parse_program_after()),
            final(self).source == old(self).source,
            final(self).revision == old(self).revision,
            final(self).symbol_runs == if old(self).symbols_would_hit() {
                old(self).symbol_runs
            } else {
                bump(old(self).symbol_runs)
            },
            final(self).parse_runs == if old(self).parse_would_hit() {
                old(self).parse_runs
            } else {
                bump(old(self).parse_runs)
            },
            final(self).scope_runs == old(self).scope_runs,
    {
        self.ensure_parse();
        let hit = match (&self.symbols_memo, &self.parse_memo) {
            (Some(sm), Some(pm)) => sm.verified_at >= pm.changed_at,
            _ => false,
        };
        if hit {
            match self.symbols_memo.take() {
                Some(mut m) => {
                    m.verified_at = self.revision;
                    self.symbols_memo = Some(m);
                },
                None => {
                },
            }
        } else {
            let fresh = match &self.parse_memo {
                Some(pm) => create_symbol_table(&pm.program),
                None => SymbolTable { items: Vec::new() },
            };
            self.symbol_runs = bump_exec(self.symbol_runs);
            match self.symbols_memo.take() {
                Some(mut m) => {
                    let same = symbol_table_eq(&fresh, &m.value);
                    m.value = fresh;
                    if !same {
                        m.changed_at = self.revision;
                    }
                    m.verified_at = self.revision;
                    self.symbols_memo = Some(m);
                },
                None => {
                    self.symbols_memo = Some(
                        SymbolsMemo {
                            value: fresh,
                            changed_at: self.revision,
                            verified_at: self.revision,
                        },
                    );
                },
            }
        }
        match &self.symbols_memo {
            Some(m) => &m.value,
            None => unreached(),
        }
    }
}

/// Law (early cutoff): when the current source re-lexes to the very token
/// sequence the parser last ran on, and every stage downstream of the
/// token sequence was verified against its dependency, then the next
/// access serves the parse, the scope table and the symbol table from the
/// memo — an edit that only moves whitespace or comments around triggers
/// no re-parsing, no re-scoping and no re-symbol-tabling. Together with
/// the run-counter clauses of [`Session::parse`], [`Session::scope_parents`]
/// and [`Session::symbol_table`], none of their counters moves.
pub proof fn lemma_early_cutoff(s: Session)
    requires
        s.wf(),
        match s.tokens_memo {
            Some(tm) => tm.value@ == sp_tokens_of(lex_of(s.source.raw_text@)),
            None => false,
        },
        match (s.parse_memo, s.tokens_memo) {
            (Some(pm), Some(tm)) => pm.verified_at >= tm.changed_at,
            _ => false,
        },
        match (s.scopes_memo, s.parse_memo) {
            (Some(sm), Some(pm)) => sm.verified_at >= pm.changed_at,
            _ => false,
        },
        match (s.symbols_memo, s.parse_memo) {
            (Some(sm), Some(pm)) => sm.verified_at >= pm.changed_at,
            _ => false,
        },
    ensures
        s.parse_would_hit(),
        s.scopes_would_hit(),
        s.symbols_would_hit(),
{
    match s.tokens_memo {
        Some(tm) => {
            assert(s.tokens_changed_after() == tm.changed_at);
        },
        None => {
        },
    }
}

/// True when the two scope tables hold the same edges in the same order.
pub fn scope_table_eq(a: &ScopeParentTable, b: &ScopeParentTable) -> (r: bool)
    ensures
        r == (a@ == b@),
{
    if a.table.len() != b.table.len() {
        assert(a@ != b@);
        return false;
    }
    let n = a.table.len();
    let mut i: usize = 0;
    while i < n
        invariant
            0 <= i <= n,
            n == a.table@.len() == b.table@.len(),
            forall|k: int| 0 <= k < i ==> a.table@[k] == b.table@[k],
        decreases n - i,
    {
        let x = a.table[i];
        let y = b.table[i];
        if !(x.0 == y.0 && x.1 == y.1) {
            assert(a@[i as int] != b@[i as int]);
            return false;
        }
        i += 1;
    }
    assert(a@ =~= b@);
    true
}

fn id_vecs_eq(a: &Vec<crate::ids::FunctionId>, b: &Vec<crate::ids::FunctionId>) -> (r: bool)
    ensures
        r == (a@ == b@),
{
    if a.len() != b.len() {
        assert(a@ != b@);
        return false;
    }
    let n = a.len();
    let mut i: usize = 0;
    while i < n
        invariant
            0 <= i <= n,
            n == a@.len() == b@.len(),
            forall|k: int| 0 <= k < i ==> a@[k] == b@[k],
        decreases n - i,
    {
        if a[i] != b[i] {
            return false;
        }
        i += 1;
    }
    assert(a@ =~= b@);
    true
}

fn var_vecs_eq(a: &Vec<crate::ids::VariableId>, b: &Vec<crate::ids::VariableId>) -> (r: bool)
    ensures
        r == (a@ == b@),
{
    if a.len() != b.len() {
        assert(a@ != b@);
        return false;
    }
    let n = a.len();
    let mut i: usize = 0;
    while i < n
        invariant
            0 <= i <= n,
            n == a@.len() == b@.len(),
            forall|k: int| 0 <= k < i ==> a@[k] == b@[k],
        decreases n - i,
    {
        if a[i] != b[i] {
            return false;
        }
        i += 1;
    }
    assert(a@ =~= b@);
    true
}

/// True when the two symbol tables hold the same entries in the same order.
pub fn symbol_table_eq(a: &SymbolTable, b: &SymbolTable) -> (r: bool)
    ensures
        r == (a@ == b@),
{
    if a.items.len() != b.items.len() {
        assert(a@.len() != b@.len());
        return false;
    }
    let n = a.items.len();
    let mut i: usize = 0;
    while i < n
        invariant
            0 <= i <= n,
            n == a.items@.len() == b.items@.len(),
            forall|k: int| 0 <= k < i ==> a@[k] == b@[k],
        decreases n - i,
    {
        let ok = a.items[i].0 == b.items[i].0 && id_vecs_eq(
            &a.items[i].1.functions,
            &b.items[i].1.functions,
        ) && var_vecs_eq(&a.items[i].1.variables, &b.items[i].1.variables);
        if !ok {
            assert(a@[i as int] != b@[i as int]);
            return false;
        }
        assert(a@[i as int] == b@[i as int]);
        i += 1;
    }
    assert(a@ =~= b@);
    true
}

} // verus!
