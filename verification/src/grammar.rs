//! Mathematical model of the token grammar.
//!
//! The tokenizer is specified by a recursive function `lex_model` over the
//! source text viewed as a sequence of characters.  At each step the model
//! skips whitespace and comments (`skip_trivia`), then consumes one maximal
//! lexeme (`munch`): the longest match wins, an exact keyword beats the
//! general identifier pattern, and an unmatched character yields one error
//! item after which scanning resumes.

use vstd::prelude::*;

verus! {

/// The abstract form of a token: fixed-text variants carry no payload;
/// literal variants carry the decoded value as a character sequence or
/// mathematical integer.
pub enum TokenModel {
    Period,
    Comma,
    Semi,
    Bang,
    Question,
    Colon,
    ColonColon,
    LParen,
    RParen,
    LSquare,
    RSquare,
    LBrace,
    RBrace,
    StraightArrow,
    EqArrow,
    Plus,
    Minus,
    Star,
    Slash,
    Modulus,
    EqEq,
    EqEqEq,
    Ne,
    Nee,
    Less,
    LessEq,
    Greater,
    GreaterEq,
    AndAnd,
    OrOr,
    Eq,
    PlusEq,
    MinusEq,
    StarEq,
    SlashEq,
    Let,
    Fn,
    If,
    Else,
    While,
    For,
    Return,
    Class,
    Impl,
    Struct,
    Enum,
    SelfValue,
    Super,
    Use,
    Mod,
    Const,
    Static,
    Integer(int),
    Float(Seq<char>),
    Str(Seq<char>),
    Ident(Seq<char>),
}

/// The abstract form of a lexing error.
pub enum ErrModel {
    NonAscii,
    InvalidInteger(Seq<char>),
    InvalidFloat,
}

/// One element of the tokenizer's output: a token or an error, with the
/// half-open character range `[start, end)` of its lexeme in the source.
pub enum LexItem {
    Token { token: TokenModel, start: int, end: int },
    Error { error: ErrModel, start: int, end: int },
}

pub open spec fn item_start(item: LexItem) -> int {
    match item {
        LexItem::Token { start, .. } => start,
        LexItem::Error { start, .. } => start,
    }
}

pub open spec fn item_end(item: LexItem) -> int {
    match item {
        LexItem::Token { end, .. } => end,
        LexItem::Error { end, .. } => end,
    }
}

// ---------------------------------------------------------------------------
// Character classes
// ---------------------------------------------------------------------------

/// Whitespace skipped between lexemes: space, tab, newline, form feed.
pub open spec fn is_ws_char(c: char) -> bool {
    c == ' ' || c == '\t' || c == '\n' || c == '\u{c}'
}

pub open spec fn is_digit_char(c: char) -> bool {
    48 <= c as int && c as int <= 57
}

pub open spec fn digit_val(c: char) -> int {
    c as int - 48
}

pub open spec fn is_ident_start_char(c: char) -> bool {
    (65 <= c as int && c as int <= 90) || (97 <= c as int && c as int <= 122) || c == '_'
}

pub open spec fn is_ident_char(c: char) -> bool {
    is_ident_start_char(c) || is_digit_char(c)
}

// ---------------------------------------------------------------------------
// Runs and searches
// ---------------------------------------------------------------------------

/// The end of the run of digits starting at `i`: the first index at or after
/// `i` holding a non-digit, or the length of `s`.
pub open spec fn digits_end(s: Seq<char>, i: int) -> int
    decreases s.len() - i,
        when 0 <= i <= s.len()
{
    if i < s.len() && is_digit_char(s[i]) {
        digits_end(s, i + 1)
    } else {
        i
    }
}

/// The end of the run of identifier characters starting at `i`.
pub open spec fn ident_end(s: Seq<char>, i: int) -> int
    decreases s.len() - i,
        when 0 <= i <= s.len()
{
    if i < s.len() && is_ident_char(s[i]) {
        ident_end(s, i + 1)
    } else {
        i
    }
}

/// The first index at or after `i` holding a newline, or the length of `s`.
pub open spec fn line_end(s: Seq<char>, i: int) -> int
    decreases s.len() - i,
        when 0 <= i <= s.len()
{
    if i < s.len() && s[i] != '\n' {
        line_end(s, i + 1)
    } else {
        i
    }
}

/// The index of the `*` of the first `*/` pair at or after `i`, or -1 when
/// no such pair exists.
pub open spec fn block_close(s: Seq<char>, i: int) -> int
    decreases s.len() - i,
        when 0 <= i
{
    if i + 1 >= s.len() {
        -1
    } else if s[i] == '*' && s[i + 1] == '/' {
        i
    } else {
        block_close(s, i + 1)
    }
}

/// The index of the closing quote of a string literal whose body starts at
/// `i`, or -1 when the literal is unterminated.  A character following a
/// backslash never terminates the literal.
pub open spec fn string_close(s: Seq<char>, i: int) -> int
    decreases s.len() - i,
        when 0 <= i
{
    if i >= s.len() {
        -1
    } else if s[i] == '"' {
        i
    } else if s[i] == '\\' {
        if i + 1 >= s.len() {
            -1
        } else {
            string_close(s, i + 2)
        }
    } else {
        string_close(s, i + 1)
    }
}

/// The numeric value of the digit run `s[i..j]`.
pub open spec fn digits_val(s: Seq<char>, i: int, j: int) -> int
    decreases j - i,
        when i <= j
{
    if j <= i {
        0
    } else {
        digits_val(s, i, j - 1) * 10 + digit_val(s[j - 1])
    }
}

// ---------------------------------------------------------------------------
// Bounds lemmas
// ---------------------------------------------------------------------------

pub proof fn lemma_digits_end(s: Seq<char>, i: int)
    requires
        0 <= i <= s.len(),
    ensures
        i <= digits_end(s, i) <= s.len(),
        forall|k: int| i <= k < digits_end(s, i) ==> is_digit_char(s[k]),
        digits_end(s, i) < s.len() ==> !is_digit_char(s[digits_end(s, i)]),
        i < s.len() && is_digit_char(s[i]) ==> digits_end(s, i) > i,
    decreases s.len() - i,
{
    if i < s.len() && is_digit_char(s[i]) {
        lemma_digits_end(s, i + 1);
    }
}

pub proof fn lemma_ident_end(s: Seq<char>, i: int)
    requires
        0 <= i <= s.len(),
    ensures
        i <= ident_end(s, i) <= s.len(),
        forall|k: int| i <= k < ident_end(s, i) ==> is_ident_char(s[k]),
        ident_end(s, i) < s.len() ==> !is_ident_char(s[ident_end(s, i)]),
        i < s.len() && is_ident_char(s[i]) ==> ident_end(s, i) > i,
    decreases s.len() - i,
{
    if i < s.len() && is_ident_char(s[i]) {
        lemma_ident_end(s, i + 1);
    }
}

pub proof fn lemma_line_end(s: Seq<char>, i: int)
    requires
        0 <= i <= s.len(),
    ensures
        i <= line_end(s, i) <= s.len(),
    decreases s.len() - i,
{
    if i < s.len() && s[i] != '\n' {
        lemma_line_end(s, i + 1);
    }
}

pub proof fn lemma_block_close(s: Seq<char>, i: int)
    requires
        0 <= i,
    ensures
        block_close(s, i) == -1 || (i <= block_close(s, i) && block_close(s, i) + 2 <= s.len()),
    decreases s.len() - i,
{
    if i + 1 >= s.len() {
    } else if s[i] == '*' && s[i + 1] == '/' {
    } else {
        lemma_block_close(s, i + 1);
    }
}

pub proof fn lemma_string_close(s: Seq<char>, i: int)
    requires
        0 <= i,
    ensures
        string_close(s, i) == -1 || (i <= string_close(s, i) && string_close(s, i) < s.len()),
    decreases s.len() - i,
{
    if i >= s.len() {
    } else if s[i] == '"' {
    } else if s[i] == '\\' {
        if i + 1 < s.len() {
            lemma_string_close(s, i + 2);
        }
    } else {
        lemma_string_close(s, i + 1);
    }
}

pub proof fn lemma_digits_val_nonneg(s: Seq<char>, i: int, j: int)
    requires
        i <= j,
        forall|k: int| i <= k < j ==> is_digit_char(s[k]),
    ensures
        digits_val(s, i, j) >= 0,
    decreases j - i,
{
    if j > i {
        lemma_digits_val_nonneg(s, i, j - 1);
    }
}

/// Appending digits never decreases the value of the run.
pub proof fn lemma_digits_val_mono(s: Seq<char>, i: int, k: int, j: int)
    requires
        i <= k <= j,
        forall|m: int| i <= m < j ==> is_digit_char(s[m]),
    ensures
        digits_val(s, i, j) >= digits_val(s, i, k),
    decreases j - k,
{
    if j > k {
        lemma_digits_val_mono(s, i, k, j - 1);
        lemma_digits_val_nonneg(s, i, j - 1);
    }
}

// ---------------------------------------------------------------------------
// Keywords
// ---------------------------------------------------------------------------

/// Classifies a full identifier-shaped word: an exact keyword match wins
/// over the general identifier pattern.
pub open spec fn word_token(w: Seq<char>) -> TokenModel {
    if w == seq!['l', 'e', 't'] {
        TokenModel::Let
    } else if w == seq!['f', 'n'] {
        TokenModel::Fn
    } else if w == seq!['i', 'f'] {
        TokenModel::If
    } else if w == seq!['e', 'l', 's', 'e'] {
        TokenModel::Else
    } else if w == seq!['w', 'h', 'i', 'l', 'e'] {
        TokenModel::While
    } else if w == seq!['f', 'o', 'r'] {
        TokenModel::For
    } else if w == seq!['r', 'e', 't', 'u', 'r', 'n'] {
        TokenModel::Return
    } else if w == seq!['c', 'l', 'a', 's', 's'] {
        TokenModel::Class
    } else if w == seq!['i', 'm', 'p', 'l'] {
        TokenModel::Impl
    } else if w == seq!['s', 't', 'r', 'u', 'c', 't'] {
        TokenModel::Struct
    } else if w == seq!['e', 'n', 'u', 'm'] {
        TokenModel::Enum
    } else if w == seq!['s', 'e', 'l', 'f'] {
        TokenModel::SelfValue
    } else if w == seq!['s', 'u', 'p', 'e', 'r'] {
        TokenModel::Super
    } else if w == seq!['u', 's', 'e'] {
        TokenModel::Use
    } else if w == seq!['m', 'o', 'd'] {
        TokenModel::Mod
    } else if w == seq!['c', 'o', 'n', 's', 't'] {
        TokenModel::Const
    } else if w == seq!['s', 't', 'a', 't', 'i', 'c'] {
        TokenModel::Static
    } else {
        TokenModel::Ident(w)
    }
}

// ---------------------------------------------------------------------------
// Symbols
// ---------------------------------------------------------------------------

pub open spec fn char_at(s: Seq<char>, i: int, c: char) -> bool {
    0 <= i < s.len() && s[i] == c
}

/// The longest fixed-text symbol starting at `i`, with its length, or `None`
/// when no symbol starts there.
pub open spec fn symbol_at(s: Seq<char>, i: int) -> Option<(TokenModel, int)> {
    let c = s[i];
    if c == '=' {
        if char_at(s, i + 1, '=') {
            if char_at(s, i + 2, '=') {
                Some((TokenModel::EqEqEq, 3))
            } else {
                Some((TokenModel::EqEq, 2))
            }
        } else if char_at(s, i + 1, '>') {
            Some((TokenModel::EqArrow, 2))
        } else {
            Some((TokenModel::Eq, 1))
        }
    } else if c == '!' {
        if char_at(s, i + 1, '=') {
            if char_at(s, i + 2, '=') {
                Some((TokenModel::Nee, 3))
            } else {
                Some((TokenModel::Ne, 2))
            }
        } else {
            Some((TokenModel::Bang, 1))
        }
    } else if c == ':' {
        if char_at(s, i + 1, ':') {
            Some((TokenModel::ColonColon, 2))
        } else {
            Some((TokenModel::Colon, 1))
        }
    } else if c == '<' {
        if char_at(s, i + 1, '=') {
            Some((TokenModel::LessEq, 2))
        } else {
            Some((TokenModel::Less, 1))
        }
    } else if c == '>' {
        if char_at(s, i + 1, '=') {
            Some((TokenModel::GreaterEq, 2))
        } else {
            Some((TokenModel::Greater, 1))
        }
    } else if c == '&' {
        if char_at(s, i + 1, '&') {
            Some((TokenModel::AndAnd, 2))
        } else {
            None
        }
    } else if c == '|' {
        if char_at(s, i + 1, '|') {
            Some((TokenModel::OrOr, 2))
        } else {
            None
        }
    } else if c == '+' {
        if char_at(s, i + 1, '=') {
            Some((TokenModel::PlusEq, 2))
        } else {
            Some((TokenModel::Plus, 1))
        }
    } else if c == '-' {
        if char_at(s, i + 1, '=') {
            Some((TokenModel::MinusEq, 2))
        } else if char_at(s, i + 1, '>') {
            Some((TokenModel::StraightArrow, 2))
        } else {
            Some((TokenModel::Minus, 1))
        }
    } else if c == '*' {
        if char_at(s, i + 1, '=') {
            Some((TokenModel::StarEq, 2))
        } else {
            Some((TokenModel::Star, 1))
        }
    } else if c == '/' {
        if char_at(s, i + 1, '=') {
            Some((TokenModel::SlashEq, 2))
        } else {
            Some((TokenModel::Slash, 1))
        }
    } else if c == '.' {
        Some((TokenModel::Period, 1))
    } else if c == ',' {
        Some((TokenModel::Comma, 1))
    } else if c == ';' {
        Some((TokenModel::Semi, 1))
    } else if c == '?' {
        Some((TokenModel::Question, 1))
    } else if c == '(' {
        Some((TokenModel::LParen, 1))
    } else if c == ')' {
        Some((TokenModel::RParen, 1))
    } else if c == '[' {
        Some((TokenModel::LSquare, 1))
    } else if c == ']' {
        Some((TokenModel::RSquare, 1))
    } else if c == '{' {
        Some((TokenModel::LBrace, 1))
    } else if c == '}' {
        Some((TokenModel::RBrace, 1))
    } else if c == '%' {
        Some((TokenModel::Modulus, 1))
    } else {
        None
    }
}

// ---------------------------------------------------------------------------
// One lexeme
// ---------------------------------------------------------------------------

/// The largest value a decoded integer literal may take.
pub open spec fn int_literal_max() -> int {
    0x7fff_ffff
}

/// The error payload reported for an integer literal past `int_literal_max`.
pub open spec fn overflow_text() -> Seq<char> {
    seq!['o', 'v', 'e', 'r', 'f', 'l', 'o', 'w']
}

/// Consumes a numeric literal starting at the digit `s[i]`: a float when the
/// digit run is followed by a decimal point and another digit, otherwise an
/// integer, rejected when its value does not fit a 32-bit signed integer.
pub open spec fn munch_number(s: Seq<char>, i: int) -> (LexItem, int) {
    let de: int = digits_end(s, i);
    if de < s.len() && s[de] == '.' && de + 1 < s.len() && is_digit_char(s[de + 1]) {
        let fe: int = digits_end(s, de + 1);
        (LexItem::Token { token: TokenModel::Float(s.subrange(i, fe)), start: i, end: fe }, fe)
    } else {
        let v: int = digits_val(s, i, de);
        if v <= int_literal_max() {
            (LexItem::Token { token: TokenModel::Integer(v), start: i, end: de }, de)
        } else {
            (
                LexItem::Error {
                    error: ErrModel::InvalidInteger(overflow_text()),
                    start: i,
                    end: de,
                },
                de,
            )
        }
    }
}

/// Consumes an identifier or keyword starting at `s[i]`.
pub open spec fn munch_word(s: Seq<char>, i: int) -> (LexItem, int) {
    let e: int = ident_end(s, i);
    (LexItem::Token { token: word_token(s.subrange(i, e)), start: i, end: e }, e)
}

/// Consumes a string literal starting at the quote `s[i]`.  The payload
/// strips exactly the two quotes and keeps backslashes literally.  An
/// unterminated literal leaves the quote unmatched: one error item for that
/// single character.
pub open spec fn munch_string(s: Seq<char>, i: int) -> (LexItem, int) {
    let c: int = string_close(s, i + 1);
    if c >= 0 {
        (
            LexItem::Token {
                token: TokenModel::Str(s.subrange(i + 1, c)),
                start: i,
                end: c + 1,
            },
            c + 1,
        )
    } else {
        (LexItem::Error { error: ErrModel::NonAscii, start: i, end: i + 1 }, i + 1)
    }
}

/// Consumes one lexeme at position `i` (not at whitespace or a comment):
/// the longest match among numbers, words, string literals and fixed-text
/// symbols, or one single-character error item.
pub open spec fn munch(s: Seq<char>, i: int) -> (LexItem, int) {
    if is_digit_char(s[i]) {
        munch_number(s, i)
    } else if is_ident_start_char(s[i]) {
        munch_word(s, i)
    } else if s[i] == '"' {
        munch_string(s, i)
    } else {
        match symbol_at(s, i) {
            Some((t, l)) => (LexItem::Token { token: t, start: i, end: i + l }, i + l),
            None => (LexItem::Error { error: ErrModel::NonAscii, start: i, end: i + 1 }, i + 1),
        }
    }
}

/// Every lexeme is non-empty and lies within the source.
pub proof fn lemma_munch_facts(s: Seq<char>, i: int)
    requires
        0 <= i < s.len(),
    ensures
        item_start(munch(s, i).0) == i,
        item_end(munch(s, i).0) == munch(s, i).1,
        i < munch(s, i).1 <= s.len(),
{
    if is_digit_char(s[i]) {
        lemma_digits_end(s, i);
        let de: int = digits_end(s, i);
        if de < s.len() && s[de] == '.' && de + 1 < s.len() && is_digit_char(s[de + 1]) {
            lemma_digits_end(s, de + 1);
        }
    } else if is_ident_start_char(s[i]) {
        lemma_ident_end(s, i);
    } else if s[i] == '"' {
        lemma_string_close(s, i + 1);
    } else {
    }
}

// ---------------------------------------------------------------------------
// Trivia and the full pass
// ---------------------------------------------------------------------------

/// The first position at or after `i` holding neither whitespace nor a
/// comment.  A line comment runs to the end of the line; a block comment to
/// the first `*/`, or, unterminated, to the end of the input.
pub open spec fn skip_trivia(s: Seq<char>, i: int) -> int
    decreases s.len() - i,
        when 0 <= i <= s.len()
{
    if i >= s.len() {
        i
    } else if is_ws_char(s[i]) {
        skip_trivia(s, i + 1)
    } else if s[i] == '/' && i + 1 < s.len() && s[i + 1] == '/' {
        proof {
            lemma_line_end(s, i + 2);
        }
        skip_trivia(s, line_end(s, i + 2))
    } else if s[i] == '/' && i + 1 < s.len() && s[i + 1] == '*' {
        let c: int = block_close(s, i + 2);
        proof {
            lemma_block_close(s, i + 2);
        }
        if c >= 0 {
            skip_trivia(s, c + 2)
        } else {
            s.len() as int
        }
    } else {
        i
    }
}

pub proof fn lemma_skip_trivia(s: Seq<char>, i: int)
    requires
        0 <= i <= s.len(),
    ensures
        i <= skip_trivia(s, i) <= s.len(),
    decreases s.len() - i,
{
    if i >= s.len() {
    } else if is_ws_char(s[i]) {
        lemma_skip_trivia(s, i + 1);
    } else if s[i] == '/' && i + 1 < s.len() && s[i + 1] == '/' {
        lemma_line_end(s, i + 2);
        lemma_skip_trivia(s, line_end(s, i + 2));
    } else if s[i] == '/' && i + 1 < s.len() && s[i + 1] == '*' {
        lemma_block_close(s, i + 2);
        if block_close(s, i + 2) >= 0 {
            lemma_skip_trivia(s, block_close(s, i + 2) + 2);
        }
    } else {
    }
}

/// The sequence of lexemes from position `i` to the end of the source.
pub open spec fn lex_from(s: Seq<char>, i: int) -> Seq<LexItem>
    decreases s.len() - i,
        when 0 <= i <= s.len()
{
    let j: int = skip_trivia(s, i);
    proof {
        lemma_skip_trivia(s, i);
    }
    if j >= s.len() {
        Seq::empty()
    } else {
        proof {
            lemma_munch_facts(s, j);
        }
        seq![munch(s, j).0] + lex_from(s, munch(s, j).1)
    }
}

/// The tokenizer's result on a whole source: one item per non-skipped
/// lexeme, in left-to-right order.
pub open spec fn lex_model(s: Seq<char>) -> Seq<LexItem> {
    lex_from(s, 0)
}

} // verus!
