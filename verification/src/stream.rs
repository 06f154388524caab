use vstd::prelude::*;

use crate::lexer::{clone_token, lex_of, lex_source, Token, TokenV};
use crate::spanned::Span;

verus! {

/// The token sequence alone, with the spans dropped.
pub open spec fn sp_tokens_of(s: Seq<(TokenV, Span)>) -> Seq<TokenV> {
    Seq::new(s.len(), |k: int| s[k].0)
}

/// The parser's input: the tokens of a lexed source, buffered in order.
/// The spans are dropped on construction, so everything parsed from a
/// stream is a function of the token sequence alone.
#[derive(Debug)]
pub struct Stream {
    pub parts: Vec<Token>,
}

impl View for Stream {
    type V = Seq<TokenV>;

    open spec fn view(&self) -> Seq<TokenV> {
        self.parts.deep_view()
    }
}

impl Stream {
    /// Buffers the tokens of the given (token, span) pairs.
    pub fn from_iter(tokens: &Vec<(Token, Span)>) -> (r: Stream)
        ensures
            r@ == sp_tokens_of(tokens.deep_view()),
    {
        let n = tokens.len();
        let mut parts: Vec<Token> = Vec::new();
        let mut i: usize = 0;
        while i < n
            invariant
                0 <= i <= n,
                n == tokens@.len(),
                parts@.len() == i,
                forall|k: int| 0 <= k < i ==> parts@[k]@ == tokens@[k].0@,
            decreases n - i,
        {
            parts.push(clone_token(&tokens[i].0));
            i += 1;
        }
        let r = Stream { parts };
        proof {
            let a = r@;
            let b = sp_tokens_of(tokens.deep_view());
            assert(tokens.deep_view().len() == n);
            assert forall|k: int| 0 <= k < a.len() implies a[k] == b[k] by {
                assert(a[k] == r.parts@[k]@);
                assert(tokens.deep_view()[k] == tokens@[k].deep_view());
                assert(b[k] == tokens.deep_view()[k].0);
            }
            assert(a =~= b);
        }
        r
    }
}

/// Lexes a source text and buffers its tokens as a parser input stream.
pub fn lex_to_stream(source: &Vec<u8>) -> (r: Stream)
    ensures
        r@ == sp_tokens_of(lex_of(source@)),
{
    let lexed = lex_source(source);
    Stream::from_iter(&lexed.tokens)
}

} // verus!
