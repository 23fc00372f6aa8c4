//! The tokenizer: converts a source string into a sequence of classified,
//! positioned tokens, verified against the grammar model in `grammar`.

use vstd::prelude::*;

use crate::grammar::ErrModel;
use crate::grammar::LexItem;
use crate::grammar::TokenModel;
use crate::grammar::block_close;
use crate::grammar::char_at;
use crate::grammar::digits_end;
use crate::grammar::digits_val;
use crate::grammar::ident_end;
use crate::grammar::int_literal_max;
use crate::grammar::is_digit_char;
use crate::grammar::is_ident_char;
use crate::grammar::is_ident_start_char;
use crate::grammar::is_ws_char;
use crate::grammar::lemma_digits_end;
use crate::grammar::lemma_digits_val_mono;
use crate::grammar::lemma_digits_val_nonneg;
use crate::grammar::lemma_ident_end;
use crate::grammar::lemma_line_end;
use crate::grammar::lemma_block_close;
use crate::grammar::lemma_munch_facts;
use crate::grammar::lemma_skip_trivia;
use crate::grammar::lemma_string_close;
use crate::grammar::lex_from;
use crate::grammar::lex_model;
use crate::grammar::line_end;
use crate::grammar::munch;
use crate::grammar::overflow_text;
use crate::grammar::skip_trivia;
use crate::grammar::string_close;
use crate::grammar::symbol_at;
use crate::grammar::word_token;

verus! {

/// A half-open character-offset range `[start, end)` into a source string.
#[derive(Debug, Clone, Copy, PartialEq, Eq)]
pub struct Span {
    pub start: usize,
    pub end: usize,
}

/// Error type returned from lexing.
#[derive(Debug, Clone, PartialEq)]
pub enum LexingError {
    NonAsciiCharacter,
    InvalidInteger(&'static str),
    InvalidFloat,
}

/// A classified token.  Fixed-text variants carry no payload; literal
/// variants carry the decoded value: an integer's numeric value, a float or
/// identifier's text, and a string literal's text without the surrounding
/// quotes (backslashes are kept literally).
#[derive(Debug, Clone, PartialEq)]
pub enum Token {
    // Symbols
    Period,
    Comma,
    Semi,
    Bang,
    Question,
    Colon,
    ColonColon,
    LParen,
    RParen,
    LSquare,
    RSquare,
    LBrace,
    RBrace,
    StraightArrow,
    EqArrow,
    // Arithmetic operators
    Plus,
    Minus,
    Star,
    Slash,
    Modulus,
    // Comparison operators
    EqEq,
    EqEqEq,
    Ne,
    Nee,
    Less,
    LessEq,
    Greater,
    GreaterEq,
    // Logical operators
    AndAnd,
    OrOr,
    // Assignment operators
    Eq,
    PlusEq,
    MinusEq,
    StarEq,
    SlashEq,
    // Keywords
    Let,
    Fn,
    If,
    Else,
    While,
    For,
    Return,
    Class,
    Impl,
    Struct,
    Enum,
    SelfValue,
    Super,
    Use,
    Mod,
    Const,
    Static,
    // Literals
    Integer(i32),
    Float(String),
    String(String),
    Ident(String),
}

/// The abstract form of a token.
pub open spec fn token_model(t: Token) -> TokenModel {
    match t {
        Token::Period => TokenModel::Period,
        Token::Comma => TokenModel::Comma,
        Token::Semi => TokenModel::Semi,
        Token::Bang => TokenModel::Bang,
        Token::Question => TokenModel::Question,
        Token::Colon => TokenModel::Colon,
        Token::ColonColon => TokenModel::ColonColon,
        Token::LParen => TokenModel::LParen,
        Token::RParen => TokenModel::RParen,
        Token::LSquare => TokenModel::LSquare,
        Token::RSquare => TokenModel::RSquare,
        Token::LBrace => TokenModel::LBrace,
        Token::RBrace => TokenModel::RBrace,
        Token::StraightArrow => TokenModel::StraightArrow,
        Token::EqArrow => TokenModel::EqArrow,
        Token::Plus => TokenModel::Plus,
        Token::Minus => TokenModel::Minus,
        Token::Star => TokenModel::Star,
        Token::Slash => TokenModel::Slash,
        Token::Modulus => TokenModel::Modulus,
        Token::EqEq => TokenModel::EqEq,
        Token::EqEqEq => TokenModel::EqEqEq,
        Token::Ne => TokenModel::Ne,
        Token::Nee => TokenModel::Nee,
        Token::Less => TokenModel::Less,
        Token::LessEq => TokenModel::LessEq,
        Token::Greater => TokenModel::Greater,
        Token::GreaterEq => TokenModel::GreaterEq,
        Token::AndAnd => TokenModel::AndAnd,
        Token::OrOr => TokenModel::OrOr,
        Token::Eq => TokenModel::Eq,
        Token::PlusEq => TokenModel::PlusEq,
        Token::MinusEq => TokenModel::MinusEq,
        Token::StarEq => TokenModel::StarEq,
        Token::SlashEq => TokenModel::SlashEq,
        Token::Let => TokenModel::Let,
        Token::Fn => TokenModel::Fn,
        Token::If => TokenModel::If,
        Token::Else => TokenModel::Else,
        Token::While => TokenModel::While,
        Token::For => TokenModel::For,
        Token::Return => TokenModel::Return,
        Token::Class => TokenModel::Class,
        Token::Impl => TokenModel::Impl,
        Token::Struct => TokenModel::Struct,
        Token::Enum => TokenModel::Enum,
        Token::SelfValue => TokenModel::SelfValue,
        Token::Super => TokenModel::Super,
        Token::Use => TokenModel::Use,
        Token::Mod => TokenModel::Mod,
        Token::Const => TokenModel::Const,
        Token::Static => TokenModel::Static,
        Token::Integer(v) => TokenModel::Integer(v as int),
        Token::Float(p) => TokenModel::Float(p@),
        Token::String(p) => TokenModel::Str(p@),
        Token::Ident(p) => TokenModel::Ident(p@),
    }
}

/// The abstract form of a lexing error.
pub open spec fn err_model(e: LexingError) -> ErrModel {
    match e {
        LexingError::NonAsciiCharacter => ErrModel::NonAscii,
        LexingError::InvalidInteger(r) => ErrModel::InvalidInteger(r@),
        LexingError::InvalidFloat => ErrModel::InvalidFloat,
    }
}

/// The lex item that a classified token or error stands for, with its span.
pub open spec fn item_of(r: Result<Token, LexingError>, start: int, end: int) -> LexItem {
    match r {
        Ok(t) => LexItem::Token { token: token_model(t), start, end },
        Err(e) => LexItem::Error { error: err_model(e), start, end },
    }
}

/// Wraps a token with its span in the source code and a reference to the
/// full source string.
#[derive(Debug, Clone, PartialEq)]
pub struct SlicedToken<'a> {
    pub token: Token,
    pub span: Span,
    pub source: &'a str,
}

impl<'a> SlicedToken<'a> {
    /// The span lies within the source.
    pub open spec fn wf(self) -> bool {
        self.span.start <= self.span.end <= self.source@.len()
    }

    /// The lex item this value stands for.
    pub open spec fn model(self) -> LexItem {
        LexItem::Token {
            token: token_model(self.token),
            start: self.span.start as int,
            end: self.span.end as int,
        }
    }

    /// The raw lexeme text: the slice of the source covered by the span.
    pub fn slice(&self) -> (r: &str)
        requires
            self.wf(),
        ensures
            r@ == self.source@.subrange(self.span.start as int, self.span.end as int),
    {
        self.source.substring_char(self.span.start, self.span.end)
    }
}

/// Wraps an error with its span in the source code and a reference to the
/// full source string.
#[derive(Debug, Clone, PartialEq)]
pub struct SlicedError<'a> {
    pub error: LexingError,
    pub span: Span,
    pub source: &'a str,
}

impl<'a> SlicedError<'a> {
    /// The span lies within the source.
    pub open spec fn wf(self) -> bool {
        self.span.start <= self.span.end <= self.source@.len()
    }

    /// The lex item this value stands for.
    pub open spec fn model(self) -> LexItem {
        LexItem::Error {
            error: err_model(self.error),
            start: self.span.start as int,
            end: self.span.end as int,
        }
    }

    /// The raw lexeme text: the slice of the source covered by the span.
    pub fn slice(&self) -> (r: &str)
        requires
            self.wf(),
        ensures
            r@ == self.source@.subrange(self.span.start as int, self.span.end as int),
    {
        self.source.substring_char(self.span.start, self.span.end)
    }
}

/// The lex item that one element of the tokenizer's output stands for.
pub open spec fn result_model<'a>(r: Result<SlicedToken<'a>, SlicedError<'a>>) -> LexItem {
    match r {
        Ok(t) => t.model(),
        Err(e) => e.model(),
    }
}

/// The element's span lies within `source`, which it references.
pub open spec fn result_wf<'a>(r: Result<SlicedToken<'a>, SlicedError<'a>>, source: &str) -> bool {
    match r {
        Ok(t) => t.wf() && t.source == source,
        Err(e) => e.wf() && e.source == source,
    }
}

/// The abstract form of the tokenizer's whole output.
pub open spec fn models_of<'a>(v: Seq<Result<SlicedToken<'a>, SlicedError<'a>>>) -> Seq<LexItem> {
    v.map_values(|r: Result<SlicedToken<'a>, SlicedError<'a>>| result_model(r))
}

// ---------------------------------------------------------------------------
// Character classification
// ---------------------------------------------------------------------------

fn is_ws(c: char) -> (r: bool)
    ensures
        r == is_ws_char(c),
{
    c == ' ' || c == '\t' || c == '\n' || c == '\u{c}'
}

fn is_digit(c: char) -> (r: bool)
    ensures
        r == is_digit_char(c),
{
    let u: u32 = c as u32;
    48 <= u && u <= 57
}

fn is_ident_start(c: char) -> (r: bool)
    ensures
        r == is_ident_start_char(c),
{
    let u: u32 = c as u32;
    (65 <= u && u <= 90) || (97 <= u && u <= 122) || c == '_'
}

fn is_ident(c: char) -> (r: bool)
    ensures
        r == is_ident_char(c),
{
    is_ident_start(c) || is_digit(c)
}

/// Whether the character `c` stands at position `i + k` of the source.
fn peek_at(source: &str, len: usize, i: usize, k: usize, c: char) -> (r: bool)
    requires
        len == source@.len(),
        i < len,
        k <= 2,
    ensures
        r == char_at(source@, i as int + k as int, c),
{
    if len - i <= k {
        false
    } else {
        source.get_char(i + k) == c
    }
}

// ---------------------------------------------------------------------------
// Trivia
// ---------------------------------------------------------------------------

/// Scans for the first `*/` pair at or after `start`: whether one exists,
/// and where.
fn block_scan(source: &str, len: usize, start: usize) -> (r: (bool, usize))
    requires
        len == source@.len(),
        start <= len,
    ensures
        r.0 == (block_close(source@, start as int) >= 0),
        r.0 ==> r.1 as int == block_close(source@, start as int) && start <= r.1 && r.1 + 2 <= len,
{
    let ghost s = source@;
    proof {
        lemma_block_close(s, start as int);
    }
    let mut q: usize = start;
    loop
        invariant
            start <= q <= len,
            len == s.len(),
            source@ == s,
            block_close(s, start as int) == block_close(s, q as int),
        decreases len - q,
    {
        if len - q <= 1 {
            return (false, 0);
        }
        if source.get_char(q) == '*' && source.get_char(q + 1) == '/' {
            return (true, q);
        }
        q = q + 1;
    }
}

/// Advances past whitespace and comments, mirroring `skip_trivia`.
fn skip_trivia_exec(source: &str, len: usize, pos: usize) -> (j: usize)
    requires
        len == source@.len(),
        pos <= len,
    ensures
        j as int == skip_trivia(source@, pos as int),
        pos <= j <= len,
{
    let ghost s = source@;
    proof {
        lemma_skip_trivia(s, pos as int);
    }
    let mut i: usize = pos;
    loop
        invariant
            pos <= i <= len,
            len == s.len(),
            source@ == s,
            skip_trivia(s, pos as int) == skip_trivia(s, i as int),
        decreases len - i,
    {
        if i >= len {
            return i;
        }
        let c = source.get_char(i);
        if is_ws(c) {
            i = i + 1;
        } else if c == '/' && i + 1 < len && source.get_char(i + 1) == '/' {
            let mut q: usize = i + 2;
            proof {
                lemma_line_end(s, i as int + 2);
            }
            while q < len && source.get_char(q) != '\n'
                invariant
                    i + 2 <= q <= len,
                    len == s.len(),
                    source@ == s,
                    line_end(s, i as int + 2) == line_end(s, q as int),
                decreases len - q,
            {
                q = q + 1;
            }
            i = q;
        } else if c == '/' && i + 1 < len && source.get_char(i + 1) == '*' {
            proof {
                lemma_block_close(s, i as int + 2);
            }
            let (found, bc) = block_scan(source, len, i + 2);
            if found {
                i = bc + 2;
            } else {
                return len;
            }
        } else {
            return i;
        }
    }
}

// ---------------------------------------------------------------------------
// Runs
// ---------------------------------------------------------------------------

fn digits_run(source: &str, len: usize, start: usize) -> (e: usize)
    requires
        len == source@.len(),
        start <= len,
    ensures
        e as int == digits_end(source@, start as int),
        start <= e <= len,
{
    let ghost s = source@;
    proof {
        lemma_digits_end(s, start as int);
    }
    let mut q: usize = start;
    loop
        invariant
            start <= q <= len,
            len == s.len(),
            source@ == s,
            digits_end(s, start as int) == digits_end(s, q as int),
        decreases len - q,
    {
        if q >= len {
            return q;
        }
        if !is_digit(source.get_char(q)) {
            return q;
        }
        q = q + 1;
    }
}

fn ident_run(source: &str, len: usize, start: usize) -> (e: usize)
    requires
        len == source@.len(),
        start <= len,
    ensures
        e as int == ident_end(source@, start as int),
        start <= e <= len,
{
    let ghost s = source@;
    proof {
        lemma_ident_end(s, start as int);
    }
    let mut q: usize = start;
    loop
        invariant
            start <= q <= len,
            len == s.len(),
            source@ == s,
            ident_end(s, start as int) == ident_end(s, q as int),
        decreases len - q,
    {
        if q >= len {
            return q;
        }
        if !is_ident(source.get_char(q)) {
            return q;
        }
        q = q + 1;
    }
}

// ---------------------------------------------------------------------------
// One lexeme
// ---------------------------------------------------------------------------

/// Consumes a numeric literal (integer or float) starting at a digit.
fn munch_number_exec(source: &str, len: usize, i: usize) -> (r: (Result<Token, LexingError>, usize))
    requires
        len == source@.len(),
        i < len,
        is_digit_char(source@[i as int]),
    ensures
        r.1 as int == munch(source@, i as int).1,
        item_of(r.0, i as int, r.1 as int) == munch(source@, i as int).0,
{
    let ghost s = source@;
    proof {
        lemma_digits_end(s, i as int);
    }
    let de: usize = digits_run(source, len, i);
    if de < len && source.get_char(de) == '.' && de + 1 < len && is_digit(source.get_char(de + 1))
    {
        proof {
            lemma_digits_end(s, de as int + 1);
        }
        let fe: usize = digits_run(source, len, de + 1);
        let text: String = source.substring_char(i, fe).to_owned();
        (Ok(Token::Float(text)), fe)
    } else {
        let ghost dv = digits_val(s, i as int, de as int);
        let mut k: usize = i;
        let mut acc: u32 = 0;
        let mut over: bool = false;
        while k < de
            invariant
                i <= k <= de <= len,
                len == s.len(),
                source@ == s,
                de as int == digits_end(s, i as int),
                forall|m: int| i <= m < de ==> is_digit_char(s[m]),
                !over ==> acc as int == digits_val(s, i as int, k as int) && acc
                    <= 0x7fff_ffffu32,
                over ==> digits_val(s, i as int, k as int) > 0x7fff_ffff,
            decreases de - k,
        {
            let c = source.get_char(k);
            assert(is_digit_char(s[k as int]));
            let d: u32 = c as u32 - 48;
            if !over {
                if acc <= 214748363 {
                    acc = acc * 10 + d;
                } else if acc == 214748364 && d <= 7 {
                    acc = acc * 10 + d;
                } else {
                    proof {
                        lemma_digits_val_nonneg(s, i as int, k as int);
                    }
                    over = true;
                }
            }
            k = k + 1;
        }
        if over {
            proof {
                lemma_digits_val_mono(s, i as int, k as int, de as int);
                reveal_strlit("overflow");
                assert("overflow"@ =~= overflow_text());
            }
            (Err(LexingError::InvalidInteger("overflow")), de)
        } else {
            (Ok(Token::Integer(acc as i32)), de)
        }
    }
}

fn kw2(source: &str, i: usize, a: char, b: char) -> (r: bool)
    requires
        i + 2 <= source@.len(),
        i + 2 <= usize::MAX,
    ensures
        r == (source@[i as int] == a && source@[i as int + 1] == b),
{
    source.get_char(i) == a && source.get_char(i + 1) == b
}

fn kw3(source: &str, i: usize, a: char, b: char, c: char) -> (r: bool)
    requires
        i + 3 <= source@.len(),
        i + 3 <= usize::MAX,
    ensures
        r == (source@[i as int] == a && source@[i as int + 1] == b && source@[i as int + 2] == c),
{
    source.get_char(i) == a && source.get_char(i + 1) == b && source.get_char(i + 2) == c
}

fn kw4(source: &str, i: usize, a: char, b: char, c: char, d: char) -> (r: bool)
    requires
        i + 4 <= source@.len(),
        i + 4 <= usize::MAX,
    ensures
        r == (source@[i as int] == a && source@[i as int + 1] == b && source@[i as int + 2] == c
            && source@[i as int + 3] == d),
{
    kw2(source, i, a, b) && kw2(source, i + 2, c, d)
}

fn kw5(source: &str, i: usize, a: char, b: char, c: char, d: char, e: char) -> (r: bool)
    requires
        i + 5 <= source@.len(),
        i + 5 <= usize::MAX,
    ensures
        r == (source@[i as int] == a && source@[i as int + 1] == b && source@[i as int + 2] == c
            && source@[i as int + 3] == d && source@[i as int + 4] == e),
{
    kw3(source, i, a, b, c) && kw2(source, i + 3, d, e)
}

fn kw6(source: &str, i: usize, a: char, b: char, c: char, d: char, e: char, f: char) -> (r: bool)
    requires
        i + 6 <= source@.len(),
        i + 6 <= usize::MAX,
    ensures
        r == (source@[i as int] == a && source@[i as int + 1] == b && source@[i as int + 2] == c
            && source@[i as int + 3] == d && source@[i as int + 4] == e && source@[i as int + 5]
            == f),
{
    kw3(source, i, a, b, c) && kw3(source, i + 3, d, e, f)
}

/// Classifies the word `source[i..e]`: a keyword when it matches one
/// exactly, an identifier otherwise.
fn word_token_exec(source: &str, i: usize, e: usize) -> (t: Token)
    requires
        i < e <= source@.len(),
    ensures
        token_model(t) == word_token(source@.subrange(i as int, e as int)),
{
    let ghost w = source@.subrange(i as int, e as int);
    let l: usize = e - i;
    assert(w.len() == l);
    if l == 2 {
        if kw2(source, i, 'f', 'n') {
            proof {
                assert(w =~= seq!['f', 'n']);
            }
            return Token::Fn;
        }
        if kw2(source, i, 'i', 'f') {
            proof {
                assert(w =~= seq!['i', 'f']);
            }
            return Token::If;
        }
    } else if l == 3 {
        if kw3(source, i, 'l', 'e', 't') {
            proof {
                assert(w =~= seq!['l', 'e', 't']);
            }
            return Token::Let;
        }
        if kw3(source, i, 'f', 'o', 'r') {
            proof {
                assert(w =~= seq!['f', 'o', 'r']);
            }
            return Token::For;
        }
        if kw3(source, i, 'u', 's', 'e') {
            proof {
                assert(w =~= seq!['u', 's', 'e']);
            }
            return Token::Use;
        }
        if kw3(source, i, 'm', 'o', 'd') {
            proof {
                assert(w =~= seq!['m', 'o', 'd']);
            }
            return Token::Mod;
        }
    } else if l == 4 {
        if kw4(source, i, 'e', 'l', 's', 'e') {
            proof {
                assert(w =~= seq!['e', 'l', 's', 'e']);
            }
            return Token::Else;
        }
        if kw4(source, i, 'i', 'm', 'p', 'l') {
            proof {
                assert(w =~= seq!['i', 'm', 'p', 'l']);
            }
            return Token::Impl;
        }
        if kw4(source, i, 'e', 'n', 'u', 'm') {
            proof {
                assert(w =~= seq!['e', 'n', 'u', 'm']);
            }
            return Token::Enum;
        }
        if kw4(source, i, 's', 'e', 'l', 'f') {
            proof {
                assert(w =~= seq!['s', 'e', 'l', 'f']);
            }
            return Token::SelfValue;
        }
    } else if l == 5 {
        if kw5(source, i, 'w', 'h', 'i', 'l', 'e') {
            proof {
                assert(w =~= seq!['w', 'h', 'i', 'l', 'e']);
            }
            return Token::While;
        }
        if kw5(source, i, 'c', 'l', 'a', 's', 's') {
            proof {
                assert(w =~= seq!['c', 'l', 'a', 's', 's']);
            }
            return Token::Class;
        }
        if kw5(source, i, 's', 'u', 'p', 'e', 'r') {
            proof {
                assert(w =~= seq!['s', 'u', 'p', 'e', 'r']);
            }
            return Token::Super;
        }
        if kw5(source, i, 'c', 'o', 'n', 's', 't') {
            proof {
                assert(w =~= seq!['c', 'o', 'n', 's', 't']);
            }
            return Token::Const;
        }
    } else if l == 6 {
        if kw6(source, i, 'r', 'e', 't', 'u', 'r', 'n') {
            proof {
                assert(w =~= seq!['r', 'e', 't', 'u', 'r', 'n']);
            }
            return Token::Return;
        }
        if kw6(source, i, 's', 't', 'r', 'u', 'c', 't') {
            proof {
                assert(w =~= seq!['s', 't', 'r', 'u', 'c', 't']);
            }
            return Token::Struct;
        }
        if kw6(source, i, 's', 't', 'a', 't', 'i', 'c') {
            proof {
                assert(w =~= seq!['s', 't', 'a', 't', 'i', 'c']);
            }
            return Token::Static;
        }
    }
    let text: String = source.substring_char(i, e).to_owned();
    Token::Ident(text)
}

/// Consumes an identifier or keyword starting at an identifier-start
/// character.
fn munch_word_exec(source: &str, len: usize, i: usize) -> (r: (Result<Token, LexingError>, usize))
    requires
        len == source@.len(),
        i < len,
        is_ident_start_char(source@[i as int]),
    ensures
        r.1 as int == munch(source@, i as int).1,
        item_of(r.0, i as int, r.1 as int) == munch(source@, i as int).0,
        !is_digit_char(source@[i as int]),
{
    let ghost s = source@;
    proof {
        lemma_ident_end(s, i as int);
    }
    let e: usize = ident_run(source, len, i);
    let t: Token = word_token_exec(source, i, e);
    (Ok(t), e)
}

/// Consumes a string literal starting at a quote, or reports the quote of an
/// unterminated literal as one single-character error.
fn munch_string_exec(source: &str, len: usize, i: usize) -> (r: (Result<Token, LexingError>, usize))
    requires
        len == source@.len(),
        i < len,
        source@[i as int] == '"',
    ensures
        r.1 as int == munch(source@, i as int).1,
        item_of(r.0, i as int, r.1 as int) == munch(source@, i as int).0,
{
    let ghost s = source@;
    proof {
        lemma_string_close(s, i as int + 1);
    }
    let mut q: usize = i + 1;
    loop
        invariant
            i + 1 <= q,
            q <= len + 1,
            len == s.len(),
            source@ == s,
            i < len,
            s[i as int] == '"',
            string_close(s, i as int + 1) == string_close(s, q as int),
        decreases len + 1 - q,
    {
        if q >= len {
            return (Err(LexingError::NonAsciiCharacter), i + 1);
        }
        let c = source.get_char(q);
        if c == '"' {
            let text: String = source.substring_char(i + 1, q).to_owned();
            return (Ok(Token::String(text)), q + 1);
        } else if c == '\\' {
            if q + 1 >= len {
                return (Err(LexingError::NonAsciiCharacter), i + 1);
            }
            q = q + 2;
        } else {
            q = q + 1;
        }
    }
}

/// Consumes the longest fixed-text symbol starting at `i`, or reports the
/// character as one single-character error.
fn munch_symbol_exec(source: &str, len: usize, i: usize, c: char) -> (r: (
    Result<Token, LexingError>,
    usize,
))
    requires
        len == source@.len(),
        i < len,
        c == source@[i as int],
        !is_digit_char(c),
        !is_ident_start_char(c),
        c != '"',
    ensures
        r.1 as int == munch(source@, i as int).1,
        item_of(r.0, i as int, r.1 as int) == munch(source@, i as int).0,
{
    if c == '=' {
        if peek_at(source, len, i, 1, '=') {
            if peek_at(source, len, i, 2, '=') {
                (Ok(Token::EqEqEq), i + 3)
            } else {
                (Ok(Token::EqEq), i + 2)
            }
        } else if peek_at(source, len, i, 1, '>') {
            (Ok(Token::EqArrow), i + 2)
        } else {
            (Ok(Token::Eq), i + 1)
        }
    } else if c == '!' {
        if peek_at(source, len, i, 1, '=') {
            if peek_at(source, len, i, 2, '=') {
                (Ok(Token::Nee), i + 3)
            } else {
                (Ok(Token::Ne), i + 2)
            }
        } else {
            (Ok(Token::Bang), i + 1)
        }
    } else if c == ':' {
        if peek_at(source, len, i, 1, ':') {
            (Ok(Token::ColonColon), i + 2)
        } else {
            (Ok(Token::Colon), i + 1)
        }
    } else if c == '<' {
        if peek_at(source, len, i, 1, '=') {
            (Ok(Token::LessEq), i + 2)
        } else {
            (Ok(Token::Less), i + 1)
        }
    } else if c == '>' {
        if peek_at(source, len, i, 1, '=') {
            (Ok(Token::GreaterEq), i + 2)
        } else {
            (Ok(Token::Greater), i + 1)
        }
    } else if c == '&' {
        if peek_at(source, len, i, 1, '&') {
            (Ok(Token::AndAnd), i + 2)
        } else {
            (Err(LexingError::NonAsciiCharacter), i + 1)
        }
    } else if c == '|' {
        if peek_at(source, len, i, 1, '|') {
            (Ok(Token::OrOr), i + 2)
        } else {
            (Err(LexingError::NonAsciiCharacter), i + 1)
        }
    } else if c == '+' {
        if peek_at(source, len, i, 1, '=') {
            (Ok(Token::PlusEq), i + 2)
        } else {
            (Ok(Token::Plus), i + 1)
        }
    } else if c == '-' {
        if peek_at(source, len, i, 1, '=') {
            (Ok(Token::MinusEq), i + 2)
        } else if peek_at(source, len, i, 1, '>') {
            (Ok(Token::StraightArrow), i + 2)
        } else {
            (Ok(Token::Minus), i + 1)
        }
    } else if c == '*' {
        if peek_at(source, len, i, 1, '=') {
            (Ok(Token::StarEq), i + 2)
        } else {
            (Ok(Token::Star), i + 1)
        }
    } else if c == '/' {
        if peek_at(source, len, i, 1, '=') {
            (Ok(Token::SlashEq), i + 2)
        } else {
            (Ok(Token::Slash), i + 1)
        }
    } else if c == '.' {
        (Ok(Token::Period), i + 1)
    } else if c == ',' {
        (Ok(Token::Comma), i + 1)
    } else if c == ';' {
        (Ok(Token::Semi), i + 1)
    } else if c == '?' {
        (Ok(Token::Question), i + 1)
    } else if c == '(' {
        (Ok(Token::LParen), i + 1)
    } else if c == ')' {
        (Ok(Token::RParen), i + 1)
    } else if c == '[' {
        (Ok(Token::LSquare), i + 1)
    } else if c == ']' {
        (Ok(Token::RSquare), i + 1)
    } else if c == '{' {
        (Ok(Token::LBrace), i + 1)
    } else if c == '}' {
        (Ok(Token::RBrace), i + 1)
    } else if c == '%' {
        (Ok(Token::Modulus), i + 1)
    } else {
        (Err(LexingError::NonAsciiCharacter), i + 1)
    }
}

/// Consumes one lexeme at position `i`, which holds neither whitespace nor a
/// comment.
fn munch_exec(source: &str, len: usize, i: usize) -> (r: (Result<Token, LexingError>, usize))
    requires
        len == source@.len(),
        i < len,
    ensures
        r.1 as int == munch(source@, i as int).1,
        item_of(r.0, i as int, r.1 as int) == munch(source@, i as int).0,
{
    let c = source.get_char(i);
    if is_digit(c) {
        munch_number_exec(source, len, i)
    } else if is_ident_start(c) {
        munch_word_exec(source, len, i)
    } else if c == '"' {
        munch_string_exec(source, len, i)
    } else {
        munch_symbol_exec(source, len, i, c)
    }
}

// ---------------------------------------------------------------------------
// The full pass
// ---------------------------------------------------------------------------

/// Lexes a source string into tokens with span information: one element per
/// recognized lexeme, in left-to-right source order, exactly as the grammar
/// model `lex_model` describes.  A malformed lexeme yields an error element
/// and scanning resumes after it.
pub fn lex_source<'a>(source: &'a str) -> (r: Vec<Result<SlicedToken<'a>, SlicedError<'a>>>)
    ensures
        models_of(r@) == lex_model(source@),
        r@.len() == lex_model(source@).len(),
        forall|k: int| 0 <= k < r@.len() ==> result_wf(#[trigger] r@[k], source),
{
    let ghost s = source@;
    let len: usize = source.unicode_len();
    let mut out: Vec<Result<SlicedToken<'a>, SlicedError<'a>>> = Vec::new();
    let mut pos: usize = 0;

    proof {
        assert(models_of(out@) + lex_from(s, 0) =~= lex_from(s, 0));
    }
    loop
        invariant
            pos <= len,
            len == s.len(),
            source@ == s,
            models_of(out@) + lex_from(s, pos as int) == lex_model(s),
            forall|k: int| 0 <= k < out@.len() ==> result_wf(#[trigger] out@[k], source),
        ensures
            models_of(out@) == lex_model(s),
            forall|k: int| 0 <= k < out@.len() ==> result_wf(#[trigger] out@[k], source),
        decreases len - pos,
    {
        let j: usize = skip_trivia_exec(source, len, pos);
        if j >= len {
            proof {
                assert(lex_from(s, pos as int) =~= Seq::<LexItem>::empty());
                assert(models_of(out@) + lex_from(s, pos as int) =~= models_of(out@));
            }
            break;
        }
        let (res, next) = munch_exec(source, len, j);
        proof {
            lemma_munch_facts(s, j as int);
        }
        let span = Span { start: j, end: next };
        let ghost old_out = out@;
        match res {
            Ok(t) => out.push(Ok(SlicedToken { token: t, span, source })),
            Err(e) => out.push(Err(SlicedError { error: e, span, source })),
        }
        proof {
            let item = munch(s, j as int).0;
            assert(models_of(out@) =~= models_of(old_out).push(item));
            assert(lex_from(s, pos as int) =~= seq![item] + lex_from(s, next as int));
            assert(models_of(out@) + lex_from(s, next as int) =~= models_of(old_out) + (seq![
                item,
            ] + lex_from(s, next as int)));
        }
        pos = next;
    }
    out
}

} // verus!
