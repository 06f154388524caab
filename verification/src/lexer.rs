use vstd::prelude::*;

use crate::spanned::Span;

verus! {

/// One lexical token. Identifier and float-literal tokens carry their text
/// as raw bytes of the source; integer-literal tokens carry their value.
#[derive(Debug)]
pub enum Token {
    /// An integer literal: one or more decimal digits whose value fits in u64.
    Int(u64),
    /// A float literal: digits, a dot, digits, and an optional exponent; the
    /// token keeps the literal's text.
    Float(Vec<u8>),
    True,
    False,
    /// A name: an ASCII letter or underscore followed by letters, digits and
    /// underscores, and not one of the keywords.
    Identifier(Vec<u8>),
    /// A single underscore.
    Wildcard,
    Equals,
    Ampersand,
    Pipe,
    GreaterThan,
    LessThan,
    Plus,
    Minus,
    Star,
    Slash,
    Percent,
    Bang,
    LParen,
    RParen,
    LBrace,
    RBrace,
    LBracket,
    RBracket,
    Comma,
    Semicolon,
    DPoint,
    Let,
    Fn,
    If,
    Else,
    /// A byte run that matches no rule. Lexing never fails; it emits these.
    Error,
}

/// The mathematical image of a [`Token`].
pub enum TokenV {
    Int(u64),
    Float(Seq<u8>),
    True,
    False,
    Identifier(Seq<u8>),
    Wildcard,
    Equals,
    Ampersand,
    Pipe,
    GreaterThan,
    LessThan,
    Plus,
    Minus,
    Star,
    Slash,
    Percent,
    Bang,
    LParen,
    RParen,
    LBrace,
    RBrace,
    LBracket,
    RBracket,
    Comma,
    Semicolon,
    DPoint,
    Let,
    Fn,
    If,
    Else,
    Error,
}

impl View for Token {
    type V = TokenV;

    open spec fn view(&self) -> TokenV {
        match self {
            Token::Int(v) => TokenV::Int(*v),
            Token::Float(t) => TokenV::Float(t@),
            Token::True => TokenV::True,
            Token::False => TokenV::False,
            Token::Identifier(t) => TokenV::Identifier(t@),
            Token::Wildcard => TokenV::Wildcard,
            Token::Equals => TokenV::Equals,
            Token::Ampersand => TokenV::Ampersand,
            Token::Pipe => TokenV::Pipe,
            Token::GreaterThan => TokenV::GreaterThan,
            Token::LessThan => TokenV::LessThan,
            Token::Plus => TokenV::Plus,
            Token::Minus => TokenV::Minus,
            Token::Star => TokenV::Star,
            Token::Slash => TokenV::Slash,
            Token::Percent => TokenV::Percent,
            Token::Bang => TokenV::Bang,
            Token::LParen => TokenV::LParen,
            Token::RParen => TokenV::RParen,
            Token::LBrace => TokenV::LBrace,
            Token::RBrace => TokenV::RBrace,
            Token::LBracket => TokenV::LBracket,
            Token::RBracket => TokenV::RBracket,
            Token::Comma => TokenV::Comma,
            Token::Semicolon => TokenV::Semicolon,
            Token::DPoint => TokenV::DPoint,
            Token::Let => TokenV::Let,
            Token::Fn => TokenV::Fn,
            Token::If => TokenV::If,
            Token::Else => TokenV::Else,
            Token::Error => TokenV::Error,
        }
    }
}

impl DeepView for Token {
    type V = TokenV;

    open spec fn deep_view(&self) -> TokenV {
        self.view()
    }
}

impl DeepView for Span {
    type V = Span;

    open spec fn deep_view(&self) -> Span {
        *self
    }
}

/// The token-and-span sequence derived from one source text.
#[derive(Debug)]
pub struct LexedSource {
    pub tokens: Vec<(Token, Span)>,
}

impl View for LexedSource {
    type V = Seq<(TokenV, Span)>;

    open spec fn view(&self) -> Seq<(TokenV, Span)> {
        self.tokens.deep_view()
    }
}

/// Whitespace skipped between tokens: space, tab, newline, form feed.
pub open spec fn is_ws(b: u8) -> bool {
    b == 32 || b == 9 || b == 10 || b == 12
}

pub open spec fn is_digit(b: u8) -> bool {
    48 <= b && b <= 57
}

/// First byte of a name: an ASCII letter or an underscore.
pub open spec fn is_name_start(b: u8) -> bool {
    (65 <= b && b <= 90) || (97 <= b && b <= 122) || b == 95
}

pub open spec fn is_name_cont(b: u8) -> bool {
    is_name_start(b) || is_digit(b)
}

/// A line comment `//` begins at `i`.
pub open spec fn is_comment_start(s: Seq<u8>, i: int) -> bool {
    i + 1 < s.len() && s[i] == 47 && s[i + 1] == 47
}

/// First position at or after `i` holding a newline, or the end of `s`.
pub open spec fn line_end(s: Seq<u8>, i: int) -> int
    decreases s.len() - i,
{
    if i >= s.len() {
        s.len() as int
    } else if s[i] == 10 {
        i
    } else {
        line_end(s, i + 1)
    }
}

pub proof fn lemma_line_end_bounds(s: Seq<u8>, i: int)
    requires
        0 <= i <= s.len(),
    ensures
        i <= line_end(s, i) <= s.len(),
    decreases s.len() - i,
{
    if i < s.len() && s[i] != 10 {
        lemma_line_end_bounds(s, i + 1);
    }
}

/// First position at or after `i` that is not inside whitespace or a line
/// comment — where the next token (if any) begins.
pub open spec fn skip_trivia(s: Seq<u8>, i: int) -> int
    decreases s.len() - i,
{
    if i < 0 || i >= s.len() {
        i
    } else if is_ws(s[i]) {
        skip_trivia(s, i + 1)
    } else if is_comment_start(s, i) {
        proof {
            lemma_line_end_bounds(s, i + 2);
        }
        skip_trivia(s, line_end(s, i + 2))
    } else {
        i
    }
}

pub proof fn lemma_skip_trivia_bounds(s: Seq<u8>, i: int)
    requires
        0 <= i <= s.len(),
    ensures
        i <= skip_trivia(s, i) <= s.len(),
    decreases s.len() - i,
{
    if i < s.len() {
        if is_ws(s[i]) {
            lemma_skip_trivia_bounds(s, i + 1);
        } else if is_comment_start(s, i) {
            lemma_line_end_bounds(s, i + 2);
            lemma_skip_trivia_bounds(s, line_end(s, i + 2));
        }
    }
}

/// First position at or after `i` that does not hold a decimal digit.
pub open spec fn digits_end(s: Seq<u8>, i: int) -> int
    decreases s.len() - i,
{
    if 0 <= i && i < s.len() && is_digit(s[i]) {
        digits_end(s, i + 1)
    } else {
        i
    }
}

pub proof fn lemma_digits_end_bounds(s: Seq<u8>, i: int)
    requires
        0 <= i <= s.len(),
    ensures
        i <= digits_end(s, i) <= s.len(),
        forall|k: int| i <= k < digits_end(s, i) ==> is_digit(s[k]),
    decreases s.len() - i,
{
    if i < s.len() && is_digit(s[i]) {
        lemma_digits_end_bounds(s, i + 1);
    }
}

/// First position at or after `i` that cannot continue a name.
pub open spec fn name_end(s: Seq<u8>, i: int) -> int
    decreases s.len() - i,
{
    if 0 <= i && i < s.len() && is_name_cont(s[i]) {
        name_end(s, i + 1)
    } else {
        i
    }
}

pub proof fn lemma_name_end_bounds(s: Seq<u8>, i: int)
    requires
        0 <= i <= s.len(),
    ensures
        i <= name_end(s, i) <= s.len(),
    decreases s.len() - i,
{
    if i < s.len() && is_name_cont(s[i]) {
        lemma_name_end_bounds(s, i + 1);
    }
}

/// Numeric value of the digit run `s[i .. j)`.
pub open spec fn digits_val(s: Seq<u8>, i: int, j: int) -> int
    decreases j - i,
{
    if i >= j {
        0
    } else {
        digits_val(s, i, j - 1) * 10 + (s[j - 1] - 48)
    }
}

pub proof fn lemma_digits_val_nonneg(s: Seq<u8>, i: int, j: int)
    requires
        forall|k: int| i <= k < j ==> is_digit(s[k]),
    ensures
        digits_val(s, i, j) >= 0,
    decreases j - i,
{
    if i < j {
        lemma_digits_val_nonneg(s, i, j - 1);
        assert(digits_val(s, i, j - 1) * 10 >= 0) by (nonlinear_arith)
            requires
                digits_val(s, i, j - 1) >= 0,
        ;
    }
}

pub proof fn lemma_digits_val_mono(s: Seq<u8>, i: int, j: int, l: int)
    requires
        i <= j <= l,
        forall|k: int| i <= k < l ==> is_digit(s[k]),
    ensures
        digits_val(s, i, j) <= digits_val(s, i, l),
    decreases l - j,
{
    if j < l {
        lemma_digits_val_mono(s, i, j, l - 1);
        lemma_digits_val_nonneg(s, i, l - 1);
        assert(digits_val(s, i, l - 1) * 10 >= digits_val(s, i, l - 1)) by (nonlinear_arith)
            requires
                digits_val(s, i, l - 1) >= 0,
        ;
    }
}

/// Is the digit run starting at `i` the start of a float literal — that is,
/// do the digits run into a dot followed by another digit?
pub open spec fn is_float_at(s: Seq<u8>, i: int) -> bool {
    let d = digits_end(s, i);
    d < s.len() && s[d] == 46 && d + 1 < s.len() && is_digit(s[d + 1])
}

/// End of the optional exponent part beginning at `f`: `e` or `E`, an
/// optional sign, and at least one digit; without all three parts the
/// literal ends at `f`.
pub open spec fn exp_end(s: Seq<u8>, f: int) -> int {
    if f < s.len() && (s[f] == 101 || s[f] == 69) {
        let g = if f + 1 < s.len() && (s[f + 1] == 43 || s[f + 1] == 45) {
            f + 2
        } else {
            f + 1
        };
        if g < s.len() && is_digit(s[g]) {
            digits_end(s, g)
        } else {
            f
        }
    } else {
        f
    }
}

pub proof fn lemma_exp_end_bounds(s: Seq<u8>, f: int)
    requires
        0 <= f <= s.len(),
    ensures
        f <= exp_end(s, f) <= s.len(),
{
    if f < s.len() && (s[f] == 101 || s[f] == 69) {
        let g = if f + 1 < s.len() && (s[f + 1] == 43 || s[f + 1] == 45) {
            f + 2
        } else {
            f + 1
        };
        if g < s.len() && is_digit(s[g]) {
            lemma_digits_end_bounds(s, g);
        }
    }
}

/// End of the float literal whose integer digits start at `i`.
pub open spec fn float_end(s: Seq<u8>, i: int) -> int {
    exp_end(s, digits_end(s, digits_end(s, i) + 1))
}

/// The token a completed name text stands for: a keyword, the wildcard, a
/// boolean, or a plain identifier.
pub open spec fn keyword_or_identifier(t: Seq<u8>) -> TokenV {
    if t == seq![108u8, 101u8, 116u8] {  // let
        TokenV::Let
    } else if t == seq![102u8, 110u8] {  // fn
        TokenV::Fn
    } else if t == seq![105u8, 102u8] {  // if
        TokenV::If
    } else if t == seq![101u8, 108u8, 115u8, 101u8] {  // else
        TokenV::Else
    } else if t == seq![116u8, 114u8, 117u8, 101u8] {  // true
        TokenV::True
    } else if t == seq![102u8, 97u8, 108u8, 115u8, 101u8] {  // false
        TokenV::False
    } else if t == seq![95u8] {  // _
        TokenV::Wildcard
    } else {
        TokenV::Identifier(t)
    }
}

/// The token a single symbol byte stands for, or `None` for a byte that
/// starts no token.
pub open spec fn symbol_token(b: u8) -> Option<TokenV> {
    if b == 61 {
        Some(TokenV::Equals)
    } else if b == 38 {
        Some(TokenV::Ampersand)
    } else if b == 124 {
        Some(TokenV::Pipe)
    } else if b == 62 {
        Some(TokenV::GreaterThan)
    } else if b == 60 {
        Some(TokenV::LessThan)
    } else if b == 43 {
        Some(TokenV::Plus)
    } else if b == 45 {
        Some(TokenV::Minus)
    } else if b == 42 {
        Some(TokenV::Star)
    } else if b == 47 {
        Some(TokenV::Slash)
    } else if b == 37 {
        Some(TokenV::Percent)
    } else if b == 33 {
        Some(TokenV::Bang)
    } else if b == 40 {
        Some(TokenV::LParen)
    } else if b == 41 {
        Some(TokenV::RParen)
    } else if b == 123 {
        Some(TokenV::LBrace)
    } else if b == 125 {
        Some(TokenV::RBrace)
    } else if b == 91 {
        Some(TokenV::LBracket)
    } else if b == 93 {
        Some(TokenV::RBracket)
    } else if b == 44 {
        Some(TokenV::Comma)
    } else if b == 59 {
        Some(TokenV::Semicolon)
    } else if b == 58 {
        Some(TokenV::DPoint)
    } else {
        None
    }
}

/// End of the maximal token starting at the non-trivia position `j`.
pub open spec fn token_end(s: Seq<u8>, j: int) -> int {
    if is_digit(s[j]) {
        if is_float_at(s, j) {
            float_end(s, j)
        } else {
            digits_end(s, j)
        }
    } else if is_name_start(s[j]) {
        name_end(s, j)
    } else {
        j + 1
    }
}

/// The token read from the maximal match starting at position `j`. A digit
/// run whose value exceeds u64 and a byte no rule matches both give the
/// error token; lexing never fails.
pub open spec fn token_at(s: Seq<u8>, j: int) -> TokenV {
    if is_digit(s[j]) {
        if is_float_at(s, j) {
            TokenV::Float(s.subrange(j, float_end(s, j)))
        } else {
            let v = digits_val(s, j, digits_end(s, j));
            if v <= u64::MAX {
                TokenV::Int(v as u64)
            } else {
                TokenV::Error
            }
        }
    } else if is_name_start(s[j]) {
        keyword_or_identifier(s.subrange(j, name_end(s, j)))
    } else {
        match symbol_token(s[j]) {
            Some(t) => t,
            None => TokenV::Error,
        }
    }
}

pub proof fn lemma_token_end_bounds(s: Seq<u8>, j: int)
    requires
        0 <= j < s.len(),
    ensures
        j < token_end(s, j) <= s.len(),
{
    lemma_digits_end_bounds(s, j);
    lemma_name_end_bounds(s, j);
    if is_digit(s[j]) {
        assert(digits_end(s, j) == digits_end(s, j + 1));
        lemma_digits_end_bounds(s, j + 1);
        if is_float_at(s, j) {
            let d = digits_end(s, j);
            lemma_digits_end_bounds(s, d + 1);
            lemma_exp_end_bounds(s, digits_end(s, d + 1));
        }
    } else if is_name_start(s[j]) {
        assert(name_end(s, j) == name_end(s, j + 1));
        lemma_name_end_bounds(s, j + 1);
    }
}

/// The token-and-span sequence read from `s` starting at position `i`:
/// skip trivia, read one maximal token, continue after it.
pub open spec fn lex_from(s: Seq<u8>, i: int) -> Seq<(TokenV, Span)>
    decreases s.len() - i,
{
    if i < 0 {
        Seq::empty()
    } else {
        let j = skip_trivia(s, i);
        if j >= s.len() {
            Seq::empty()
        } else {
            let e = token_end(s, j);
            proof {
                if i <= s.len() {
                    lemma_skip_trivia_bounds(s, i);
                    lemma_token_end_bounds(s, j);
                }
            }
            seq![(token_at(s, j), Span { start: j as usize, end: e as usize })] + lex_from(s, e)
        }
    }
}

/// The full token-and-span sequence of the source text `s`.
pub open spec fn lex_of(s: Seq<u8>) -> Seq<(TokenV, Span)> {
    lex_from(s, 0)
}

fn skip_trivia_exec(s: &Vec<u8>, pos: usize) -> (r: usize)
    requires
        pos <= s@.len(),
    ensures
        r as int == skip_trivia(s@, pos as int),
        pos <= r <= s@.len(),
{
    let n = s.len();
    let mut i = pos;
    loop
        invariant
            pos <= i <= n,
            n == s@.len(),
            skip_trivia(s@, pos as int) == skip_trivia(s@, i as int),
        decreases n - i,
    {
        if i >= n {
            proof {
                lemma_skip_trivia_bounds(s@, pos as int);
            }
            return i;
        }
        let b = s[i];
        if b == 32 || b == 9 || b == 10 || b == 12 {
            i += 1;
        } else if b == 47 && i + 1 < n && s[i + 1] == 47 {
            let ghost istart = i as int;
            let mut k = i + 2;
            while k < n && s[k] != 10
                invariant
                    istart + 2 <= k <= n,
                    n == s@.len(),
                    line_end(s@, istart + 2) == line_end(s@, k as int),
                decreases n - k,
            {
                k += 1;
            }
            assert(line_end(s@, k as int) == k);
            assert(skip_trivia(s@, istart) == skip_trivia(s@, k as int));
            i = k;
        } else {
            assert(skip_trivia(s@, i as int) == i);
            proof {
                lemma_skip_trivia_bounds(s@, pos as int);
            }
            return i;
        }
    }
}

fn scan_digits(s: &Vec<u8>, pos: usize) -> (r: usize)
    requires
        pos <= s@.len(),
    ensures
        r as int == digits_end(s@, pos as int),
        pos <= r <= s@.len(),
{
    let n = s.len();
    let mut i = pos;
    while i < n && s[i] >= 48 && s[i] <= 57
        invariant
            pos <= i <= n,
            n == s@.len(),
            digits_end(s@, pos as int) == digits_end(s@, i as int),
        decreases n - i,
    {
        i += 1;
    }
    assert(digits_end(s@, i as int) == i);
    i
}

fn scan_name(s: &Vec<u8>, pos: usize) -> (r: usize)
    requires
        pos <= s@.len(),
    ensures
        r as int == name_end(s@, pos as int),
        pos <= r <= s@.len(),
{
    let n = s.len();
    let mut i = pos;
    loop
        invariant
            pos <= i <= n,
            n == s@.len(),
            name_end(s@, pos as int) == name_end(s@, i as int),
        decreases n - i,
    {
        if i >= n {
            return i;
        }
        let b = s[i];
        if (65 <= b && b <= 90) || (97 <= b && b <= 122) || b == 95 || (48 <= b && b <= 57) {
            i += 1;
        } else {
            assert(name_end(s@, i as int) == i);
            return i;
        }
    }
}

/// Copies the byte range `[start, end)` of `s` into a fresh vector.
fn copy_range(s: &Vec<u8>, start: usize, end: usize) -> (r: Vec<u8>)
    requires
        start <= end <= s@.len(),
    ensures
        r@ == s@.subrange(start as int, end as int),
{
    let mut r: Vec<u8> = Vec::new();
    let mut i = start;
    while i < end
        invariant
            start <= i <= end,
            end <= s@.len(),
            r@ == s@.subrange(start as int, i as int),
        decreases end - i,
    {
        r.push(s[i]);
        assert(r@ =~= s@.subrange(start as int, i as int + 1));
        i += 1;
    }
    r
}

fn digits_value(s: &Vec<u8>, start: usize, end: usize) -> (r: Option<u64>)
    requires
        start <= end <= s@.len(),
        forall|k: int| start <= k < end ==> is_digit(s@[k]),
    ensures
        match r {
            Some(v) => v as int == digits_val(s@, start as int, end as int),
            None => digits_val(s@, start as int, end as int) > u64::MAX,
        },
{
    let mut v: u64 = 0;
    let mut i = start;
    while i < end
        invariant
            start <= i <= end,
            end <= s@.len(),
            forall|k: int| start <= k < end ==> is_digit(s@[k]),
            v as int == digits_val(s@, start as int, i as int),
        decreases end - i,
    {
        let d = s[i] - 48;
        if v > u64::MAX / 10 || (v == u64::MAX / 10 && d > 5) {
            proof {
                assert(digits_val(s@, start as int, i as int + 1) == v as int * 10 + d);
                assert(v as int * 10 + d > u64::MAX);
                lemma_digits_val_mono(s@, start as int, i as int + 1, end as int);
            }
            return None;
        }
        assert(v as int * 10 + d <= u64::MAX);
        v = v * 10 + d as u64;
        i += 1;
    }
    Some(v)
}

fn text_is1(t: &Vec<u8>, a: u8) -> (r: bool)
    ensures
        r == (t@ == seq![a]),
{
    let r = t.len() == 1 && t[0] == a;
    proof {
        if r {
            assert(t@ =~= seq![a]);
        } else if t@ == seq![a] {
            assert(t@.len() == 1 && t@[0] == a);
            assert(false);
        }
    }
    r
}

fn text_is2(t: &Vec<u8>, a: u8, b: u8) -> (r: bool)
    ensures
        r == (t@ == seq![a, b]),
{
    let r = t.len() == 2 && t[0] == a && t[1] == b;
    proof {
        if r {
            assert(t@ =~= seq![a, b]);
        } else if t@ == seq![a, b] {
            assert(t@.len() == 2 && t@[0] == a && t@[1] == b);
            assert(false);
        }
    }
    r
}

fn text_is3(t: &Vec<u8>, a: u8, b: u8, c: u8) -> (r: bool)
    ensures
        r == (t@ == seq![a, b, c]),
{
    let r = t.len() == 3 && t[0] == a && t[1] == b && t[2] == c;
    proof {
        if r {
            assert(t@ =~= seq![a, b, c]);
        } else if t@ == seq![a, b, c] {
            assert(t@.len() == 3 && t@[0] == a && t@[1] == b && t@[2] == c);
            assert(false);
        }
    }
    r
}

fn text_is4(t: &Vec<u8>, a: u8, b: u8, c: u8, d: u8) -> (r: bool)
    ensures
        r == (t@ == seq![a, b, c, d]),
{
    let r = t.len() == 4 && t[0] == a && t[1] == b && t[2] == c && t[3] == d;
    proof {
        if r {
            assert(t@ =~= seq![a, b, c, d]);
        } else if t@ == seq![a, b, c, d] {
            assert(t@.len() == 4 && t@[0] == a && t@[1] == b && t@[2] == c && t@[3] == d);
            assert(false);
        }
    }
    r
}

fn text_is5(t: &Vec<u8>, a: u8, b: u8, c: u8, d: u8, e: u8) -> (r: bool)
    ensures
        r == (t@ == seq![a, b, c, d, e]),
{
    let r = t.len() == 5 && t[0] == a && t[1] == b && t[2] == c && t[3] == d && t[4] == e;
    proof {
        if r {
            assert(t@ =~= seq![a, b, c, d, e]);
        } else if t@ == seq![a, b, c, d, e] {
            assert(t@.len() == 5 && t@[0] == a && t@[1] == b && t@[2] == c && t@[3] == d && t@[4]
                == e);
            assert(false);
        }
    }
    r
}

fn name_token(text: Vec<u8>) -> (r: Token)
    ensures
        r@ == keyword_or_identifier(text@),
{
    if text_is3(&text, 108, 101, 116) {
        Token::Let
    } else if text_is2(&text, 102, 110) {
        Token::Fn
    } else if text_is2(&text, 105, 102) {
        Token::If
    } else if text_is4(&text, 101, 108, 115, 101) {
        Token::Else
    } else if text_is4(&text, 116, 114, 117, 101) {
        Token::True
    } else if text_is5(&text, 102, 97, 108, 115, 101) {
        Token::False
    } else if text_is1(&text, 95) {
        Token::Wildcard
    } else {
        Token::Identifier(text)
    }
}

fn symbol_or_error(b: u8) -> (r: Token)
    ensures
        r@ == match symbol_token(b) {
            Some(t) => t,
            None => TokenV::Error,
        },
{
    if b == 61 {
        Token::Equals
    } else if b == 38 {
        Token::Ampersand
    } else if b == 124 {
        Token::Pipe
    } else if b == 62 {
        Token::GreaterThan
    } else if b == 60 {
        Token::LessThan
    } else if b == 43 {
        Token::Plus
    } else if b == 45 {
        Token::Minus
    } else if b == 42 {
        Token::Star
    } else if b == 47 {
        Token::Slash
    } else if b == 37 {
        Token::Percent
    } else if b == 33 {
        Token::Bang
    } else if b == 40 {
        Token::LParen
    } else if b == 41 {
        Token::RParen
    } else if b == 123 {
        Token::LBrace
    } else if b == 125 {
        Token::RBrace
    } else if b == 91 {
        Token::LBracket
    } else if b == 93 {
        Token::RBracket
    } else if b == 44 {
        Token::Comma
    } else if b == 59 {
        Token::Semicolon
    } else if b == 58 {
        Token::DPoint
    } else {
        Token::Error
    }
}

fn scan_token(s: &Vec<u8>, j: usize) -> (r: (Token, usize))
    requires
        j < s@.len(),
    ensures
        r.0@ == token_at(s@, j as int),
        r.1 as int == token_end(s@, j as int),
        j < r.1 <= s@.len(),
{
    proof {
        lemma_token_end_bounds(s@, j as int);
    }
    let n = s.len();
    let b = s[j];
    if 48 <= b && b <= 57 {
        let d = scan_digits(s, j);
        if d < n && s[d] == 46 && d + 1 < n && 48 <= s[d + 1] && s[d + 1] <= 57 {
            assert(is_float_at(s@, j as int));
            let f = scan_digits(s, d + 1);
            let e = if f < n && (s[f] == 101 || s[f] == 69) {
                let g = if f + 1 < n && (s[f + 1] == 43 || s[f + 1] == 45) {
                    f + 2
                } else {
                    f + 1
                };
                if g < n && 48 <= s[g] && s[g] <= 57 {
                    scan_digits(s, g)
                } else {
                    f
                }
            } else {
                f
            };
            assert(e as int == exp_end(s@, f as int));
            assert(e as int == float_end(s@, j as int));
            let text = copy_range(s, j, e);
            (Token::Float(text), e)
        } else {
            assert(!is_float_at(s@, j as int));
            proof {
                lemma_digits_end_bounds(s@, j as int);
            }
            match digits_value(s, j, d) {
                Some(v) => (Token::Int(v), d),
                None => (Token::Error, d),
            }
        }
    } else if (65 <= b && b <= 90) || (97 <= b && b <= 122) || b == 95 {
        let e = scan_name(s, j);
        let text = copy_range(s, j, e);
        (name_token(text), e)
    } else {
        (symbol_or_error(b), j + 1)
    }
}

/// Copies a byte vector.
pub fn copy_bytes(v: &Vec<u8>) -> (r: Vec<u8>)
    ensures
        r@ == v@,
{
    let r = copy_range(v, 0, v.len());
    assert(v@.subrange(0, v@.len() as int) =~= v@);
    r
}

/// Copies a token.
pub fn clone_token(t: &Token) -> (r: Token)
    ensures
        r@ == t@,
{
    match t {
        Token::Int(v) => Token::Int(*v),
        Token::Float(x) => Token::Float(copy_bytes(x)),
        Token::True => Token::True,
        Token::False => Token::False,
        Token::Identifier(x) => Token::Identifier(copy_bytes(x)),
        Token::Wildcard => Token::Wildcard,
        Token::Equals => Token::Equals,
        Token::Ampersand => Token::Ampersand,
        Token::Pipe => Token::Pipe,
        Token::GreaterThan => Token::GreaterThan,
        Token::LessThan => Token::LessThan,
        Token::Plus => Token::Plus,
        Token::Minus => Token::Minus,
        Token::Star => Token::Star,
        Token::Slash => Token::Slash,
        Token::Percent => Token::Percent,
        Token::Bang => Token::Bang,
        Token::LParen => Token::LParen,
        Token::RParen => Token::RParen,
        Token::LBrace => Token::LBrace,
        Token::RBrace => Token::RBrace,
        Token::LBracket => Token::LBracket,
        Token::RBracket => Token::RBracket,
        Token::Comma => Token::Comma,
        Token::Semicolon => Token::Semicolon,
        Token::DPoint => Token::DPoint,
        Token::Let => Token::Let,
        Token::Fn => Token::Fn,
        Token::If => Token::If,
        Token::Else => Token::Else,
        Token::Error => Token::Error,
    }
}

/// True when the two tokens are structurally equal.
pub fn token_eq(a: &Token, b: &Token) -> (r: bool)
    ensures
        r == (a@ == b@),
{
    match (a, b) {
        (Token::Int(x), Token::Int(y)) => *x == *y,
        (Token::Float(x), Token::Float(y)) => crate::ids::bytes_eq(x, y),
        (Token::Identifier(x), Token::Identifier(y)) => crate::ids::bytes_eq(x, y),
        (Token::True, Token::True) => true,
        (Token::False, Token::False) => true,
        (Token::Wildcard, Token::Wildcard) => true,
        (Token::Equals, Token::Equals) => true,
        (Token::Ampersand, Token::Ampersand) => true,
        (Token::Pipe, Token::Pipe) => true,
        (Token::GreaterThan, Token::GreaterThan) => true,
        (Token::LessThan, Token::LessThan) => true,
        (Token::Plus, Token::Plus) => true,
        (Token::Minus, Token::Minus) => true,
        (Token::Star, Token::Star) => true,
        (Token::Slash, Token::Slash) => true,
        (Token::Percent, Token::Percent) => true,
        (Token::Bang, Token::Bang) => true,
        (Token::LParen, Token::LParen) => true,
        (Token::RParen, Token::RParen) => true,
        (Token::LBrace, Token::LBrace) => true,
        (Token::RBrace, Token::RBrace) => true,
        (Token::LBracket, Token::LBracket) => true,
        (Token::RBracket, Token::RBracket) => true,
        (Token::Comma, Token::Comma) => true,
        (Token::Semicolon, Token::Semicolon) => true,
        (Token::DPoint, Token::DPoint) => true,
        (Token::Let, Token::Let) => true,
        (Token::Fn, Token::Fn) => true,
        (Token::If, Token::If) => true,
        (Token::Else, Token::Else) => true,
        (Token::Error, Token::Error) => true,
        _ => false,
    }
}

/// True when two token vectors hold structurally equal tokens.
pub fn token_vec_eq(a: &Vec<Token>, b: &Vec<Token>) -> (r: bool)
    ensures
        r == (a.deep_view() == b.deep_view()),
{
    proof {
        assert(a.deep_view().len() == a@.len());
        assert(b.deep_view().len() == b@.len());
    }
    if a.len() != b.len() {
        assert(a.deep_view() != b.deep_view());
        return false;
    }
    let n = a.len();
    let mut i: usize = 0;
    while i < n
        invariant
            0 <= i <= n,
            n == a@.len() == b@.len(),
            a.deep_view().len() == n && b.deep_view().len() == n,
            forall|k: int| 0 <= k < i ==> a.deep_view()[k] == b.deep_view()[k],
        decreases n - i,
    {
        proof {
            assert(a.deep_view()[i as int] == a@[i as int]@);
            assert(b.deep_view()[i as int] == b@[i as int]@);
        }
        if !token_eq(&a[i], &b[i]) {
            assert(a.deep_view()[i as int] != b.deep_view()[i as int]);
            return false;
        }
        i += 1;
    }
    assert(a.deep_view() =~= b.deep_view());
    true
}

/// True when two lexed sources hold structurally equal (token, span) pairs.
pub fn lexed_eq(a: &LexedSource, b: &LexedSource) -> (r: bool)
    ensures
        r == (a@ == b@),
{
    proof {
        assert(a@.len() == a.tokens@.len());
        assert(b@.len() == b.tokens@.len());
    }
    if a.tokens.len() != b.tokens.len() {
        assert(a@ != b@);
        return false;
    }
    let n = a.tokens.len();
    let mut i: usize = 0;
    while i < n
        invariant
            0 <= i <= n,
            n == a.tokens@.len() == b.tokens@.len(),
            a@.len() == n && b@.len() == n,
            forall|k: int| 0 <= k < i ==> a@[k] == b@[k],
        decreases n - i,
    {
        proof {
            assert(a@[i as int] == a.tokens@[i as int].deep_view());
            assert(b@[i as int] == b.tokens@[i as int].deep_view());
        }
        let same = token_eq(&a.tokens[i].0, &b.tokens[i].0) && a.tokens[i].1 == b.tokens[i].1;
        if !same {
            assert(a@[i as int] != b@[i as int]);
            return false;
        }
        assert(a@[i as int] == b@[i as int]);
        i += 1;
    }
    assert(a@ =~= b@);
    true
}

/// Derives the token-and-span sequence of one source text. Total: every
/// input yields a sequence; unrecognized bytes become error tokens.
pub fn lex_source(source: &Vec<u8>) -> (r: LexedSource)
    ensures
        r@ == lex_of(source@),
{
    let n = source.len();
    let mut out: Vec<(Token, Span)> = Vec::new();
    let mut pos: usize = 0;
    proof {
        assert(out.deep_view() =~= Seq::<(TokenV, Span)>::empty());
    }
    while pos < n
        invariant
            0 <= pos <= n,
            n == source@.len(),
            lex_of(source@) == out.deep_view() + lex_from(source@, pos as int),
        decreases n - pos,
    {
        let j = skip_trivia_exec(source, pos);
        if j >= n {
            assert(lex_from(source@, pos as int) =~= Seq::<(TokenV, Span)>::empty());
            assert(lex_of(source@) =~= out.deep_view());
            pos = n;
            assert(lex_from(source@, pos as int) =~= Seq::<(TokenV, Span)>::empty());
        } else {
            let ghost out0 = out.deep_view();
            let (tok, e) = scan_token(source, j);
            let sp = Span::new(j, e);
            let ghost tv = tok@;
            out.push((tok, sp));
            proof {
                // The freshly read token is exactly the head of the pending
                // spec suffix.
                assert(out.deep_view() =~= out0.push((tv, sp))) by {
                    assert forall|i: int| 0 <= i < out.deep_view().len() implies out.deep_view()[i]
                        == out0.push((tv, sp))[i] by {
                        assert(out.deep_view()[i] == out@[i].deep_view());
                    }
                }
                assert(lex_from(source@, pos as int) =~= seq![(tv, sp)] + lex_from(
                    source@,
                    e as int,
                ));
                assert(lex_of(source@) =~= out.deep_view() + lex_from(source@, e as int));
            }
            pos = e;
        }
    }
    assert(lex_from(source@, pos as int) =~= Seq::<(TokenV, Span)>::empty());
    assert(lex_of(source@) =~= out.deep_view());
    LexedSource { tokens: out }
}

/// Law: lexing is total. The spans of `lex_of(s)` are nonempty, lie inside
/// `s`, come in increasing order without overlap, and between the start of
/// the text, consecutive spans, and the end of the text the scanner passes
/// over trivia (whitespace and line comments) only. Concatenating the
/// bytes under the spans therefore reconstructs exactly the non-trivia
/// content of `s`, in order, with no gaps and no overlaps.
pub proof fn lemma_lexing_totality(s: Seq<u8>)
    requires
        s.len() <= usize::MAX,
    ensures
        ({
            let ts = lex_of(s);
            &&& forall|k: int|
                0 <= k < ts.len() ==> (#[trigger] ts[k].1).start < ts[k].1.end <= s.len()
            &&& (ts.len() == 0 ==> skip_trivia(s, 0) == s.len())
            &&& (ts.len() > 0 ==> ts[0].1.start as int == skip_trivia(s, 0))
            &&& forall|k: int|
                0 <= k < ts.len() - 1 ==> (#[trigger] ts[k + 1].1).start as int == skip_trivia(
                    s,
                    ts[k].1.end as int,
                )
            &&& (ts.len() > 0 ==> skip_trivia(s, ts[ts.len() - 1].1.end as int) == s.len())
            &&& forall|k: int| 0 <= k < ts.len() - 1 ==> (#[trigger] ts[k].1).end <= ts[k + 1].1.start
        }),
{
    lemma_lex_from_tiling(s, 0);
}

proof fn lemma_lex_from_tiling(s: Seq<u8>, i: int)
    requires
        0 <= i <= s.len() <= usize::MAX,
    ensures
        ({
            let ts = lex_from(s, i);
            &&& forall|k: int|
                0 <= k < ts.len() ==> (#[trigger] ts[k].1).start < ts[k].1.end <= s.len()
            &&& (ts.len() == 0 ==> skip_trivia(s, i) == s.len())
            &&& (ts.len() > 0 ==> ts[0].1.start as int == skip_trivia(s, i))
            &&& forall|k: int|
                0 <= k < ts.len() - 1 ==> (#[trigger] ts[k + 1].1).start as int == skip_trivia(
                    s,
                    ts[k].1.end as int,
                )
            &&& (ts.len() > 0 ==> skip_trivia(s, ts[ts.len() - 1].1.end as int) == s.len())
            &&& forall|k: int| 0 <= k < ts.len() - 1 ==> (#[trigger] ts[k].1).end <= ts[k + 1].1.start
        }),
    decreases s.len() - i,
{
    lemma_skip_trivia_bounds(s, i);
    let ts = lex_from(s, i);
    let j = skip_trivia(s, i);
    if j >= s.len() {
        assert(ts.len() == 0);
    } else {
        lemma_token_end_bounds(s, j);
        let e = token_end(s, j);
        let head = (token_at(s, j), Span { start: j as usize, end: e as usize });
        let rest = lex_from(s, e);
        lemma_lex_from_tiling(s, e);
        assert(ts =~= seq![head] + rest);
        assert(ts[0] == head);
        assert(forall|k: int| 0 <= k < rest.len() ==> ts[k + 1] == rest[k]);
        assert forall|k: int| 0 <= k < ts.len() implies (#[trigger] ts[k].1).start < ts[k].1.end
            <= s.len() by {
            if k > 0 {
                assert(ts[k] == rest[k - 1]);
            }
        }
        assert forall|k: int| 0 <= k < ts.len() - 1 implies (#[trigger] ts[k + 1].1).start as int
            == skip_trivia(s, ts[k].1.end as int) by {
            if k == 0 {
                if rest.len() > 0 {
                    assert(ts[1] == rest[0]);
                    assert(rest[0].1.start as int == skip_trivia(s, e));
                }
            } else {
                assert(ts[k] == rest[k - 1]);
                assert(ts[k + 1] == rest[k]);
            }
        }
        if rest.len() == 0 {
            assert(ts[ts.len() - 1] == head);
            assert(skip_trivia(s, e) == s.len());
        } else {
            assert(ts[ts.len() - 1] == rest[rest.len() - 1]);
        }
        assert forall|k: int| 0 <= k < ts.len() - 1 implies (#[trigger] ts[k].1).end <= ts[k
            + 1].1.start by {
            assert(ts[k + 1].1.start as int == skip_trivia(s, ts[k].1.end as int));
            lemma_skip_trivia_bounds(s, ts[k].1.end as int);
        }
    }
}

} // verus!
