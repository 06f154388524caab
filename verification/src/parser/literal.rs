use vstd::prelude::*;

use crate::lexer::{Token, TokenV};
use crate::spanned::{sp_span, Spanned, SpannedV};

verus! {

/// A parsed literal.
#[derive(Debug)]
pub enum Literal {
    /// Any integer, signed or not, stored as a u64 though it may stand for a
    /// negative number.
    AbstractInt(u64),
    /// Any float, kept as the bytes of its literal text; it may stand for an
    /// f32 as well as an f64.
    AbstractFloat(Vec<u8>),
}

/// The mathematical image of a [`Literal`].
pub enum LiteralV {
    AbstractInt(u64),
    AbstractFloat(Seq<u8>),
}

impl View for Literal {
    type V = LiteralV;

    open spec fn view(&self) -> LiteralV {
        match self {
            Literal::AbstractInt(v) => LiteralV::AbstractInt(*v),
            Literal::AbstractFloat(t) => LiteralV::AbstractFloat(t@),
        }
    }
}

/// The literal read at position `i`: an integer or float token, spanned
/// with the one token index it covers.
pub open spec fn sp_literal(t: Seq<TokenV>, i: int) -> Option<(SpannedV<LiteralV>, int)> {
    if 0 <= i < t.len() {
        match t[i] {
            TokenV::Int(v) => Some(
                (
                    SpannedV { span: sp_span(i, i + 1), inner: LiteralV::AbstractInt(v) },
                    i + 1,
                ),
            ),
            TokenV::Float(x) => Some(
                (
                    SpannedV { span: sp_span(i, i + 1), inner: LiteralV::AbstractFloat(x) },
                    i + 1,
                ),
            ),
            _ => None,
        }
    } else {
        None
    }
}

impl Literal {
    /// Reads one literal token at `pos`.
    pub fn parser(t: &Vec<Token>, pos: usize) -> (r: Option<(Spanned<Literal>, usize)>)
        requires
            pos <= t@.len(),
        ensures
            match (r, sp_literal(t.deep_view(), pos as int)) {
                (Some(a), Some(b)) => a.0@ == b.0 && a.1 as int == b.1 && pos < a.1 <= t@.len(),
                (None, None) => true,
                _ => false,
            },
    {
        if pos >= t.len() {
            return None;
        }
        assert(t.deep_view()[pos as int] == t@[pos as int]@);
        match &t[pos] {
            Token::Int(v) => Some(
                (
                    Spanned::new(Literal::AbstractInt(*v), crate::spanned::Span::new(pos, pos + 1)),
                    pos + 1,
                ),
            ),
            Token::Float(x) => Some(
                (
                    Spanned::new(
                        Literal::AbstractFloat(crate::lexer::copy_bytes(x)),
                        crate::spanned::Span::new(pos, pos + 1),
                    ),
                    pos + 1,
                ),
            ),
            _ => None,
        }
    }
}

} // verus!
