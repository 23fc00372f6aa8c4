//! Display forms for tokens and diagnostics.
//!
//! Fixed-text tokens render as their literal, integers and floats as their
//! decimal value, strings as `str("<value>")` and identifiers as
//! `ident(<value>)`.  A diagnostic for one error is a three-line message:
//! the 1-based position, the offending slice, and a marker line with the
//! error's description.

use vstd::prelude::*;

use crate::grammar::ErrModel;
use crate::grammar::TokenModel;
use crate::lexer::LexingError;
use crate::lexer::SlicedError;
use crate::lexer::SlicedToken;
use crate::lexer::Token;
use crate::lexer::err_model;
use crate::lexer::token_model;
use crate::utils::clamped_offset;
use crate::utils::row_col;
use crate::utils::rows_cols_index;

verus! {

// ---------------------------------------------------------------------------
// Decimal text
// ---------------------------------------------------------------------------

pub open spec fn digit_char(d: int) -> char {
    if d == 0 {
        '0'
    } else if d == 1 {
        '1'
    } else if d == 2 {
        '2'
    } else if d == 3 {
        '3'
    } else if d == 4 {
        '4'
    } else if d == 5 {
        '5'
    } else if d == 6 {
        '6'
    } else if d == 7 {
        '7'
    } else if d == 8 {
        '8'
    } else {
        '9'
    }
}

/// The decimal digits of a non-negative number, most significant first.
pub open spec fn dec_digits(n: nat) -> Seq<char>
    decreases n,
{
    if n < 10 {
        seq![digit_char(n as int)]
    } else {
        dec_digits(n / 10) + seq![digit_char((n % 10) as int)]
    }
}

/// The decimal text of an integer: a minus sign and the digits of its
/// absolute value when negative, its digits otherwise.
pub open spec fn dec_int(v: int) -> Seq<char> {
    if v < 0 {
        seq!['-'] + dec_digits((-v) as nat)
    } else {
        dec_digits(v as nat)
    }
}

fn push_digit(buf: &mut String, d: u64)
    requires
        d < 10,
    ensures
        final(buf)@ == old(buf)@ + seq![digit_char(d as int)],
{
    if d == 0 {
        proof {
            reveal_strlit("0");
            assert("0"@ =~= seq![digit_char(0)]);
        }
        buf.append("0");
    } else if d == 1 {
        proof {
            reveal_strlit("1");
            assert("1"@ =~= seq![digit_char(1)]);
        }
        buf.append("1");
    } else if d == 2 {
        proof {
            reveal_strlit("2");
            assert("2"@ =~= seq![digit_char(2)]);
        }
        buf.append("2");
    } else if d == 3 {
        proof {
            reveal_strlit("3");
            assert("3"@ =~= seq![digit_char(3)]);
        }
        buf.append("3");
    } else if d == 4 {
        proof {
            reveal_strlit("4");
            assert("4"@ =~= seq![digit_char(4)]);
        }
        buf.append("4");
    } else if d == 5 {
        proof {
            reveal_strlit("5");
            assert("5"@ =~= seq![digit_char(5)]);
        }
        buf.append("5");
    } else if d == 6 {
        proof {
            reveal_strlit("6");
            assert("6"@ =~= seq![digit_char(6)]);
        }
        buf.append("6");
    } else if d == 7 {
        proof {
            reveal_strlit("7");
            assert("7"@ =~= seq![digit_char(7)]);
        }
        buf.append("7");
    } else if d == 8 {
        proof {
            reveal_strlit("8");
            assert("8"@ =~= seq![digit_char(8)]);
        }
        buf.append("8");
    } else {
        proof {
            reveal_strlit("9");
            assert("9"@ =~= seq![digit_char(9)]);
        }
        buf.append("9");
    }
}

/// Appends the decimal digits of `n` to `buf`.
fn push_dec(buf: &mut String, n: u64)
    ensures
        final(buf)@ == old(buf)@ + dec_digits(n as nat),
    decreases n,
{
    if n < 10 {
        push_digit(buf, n);
    } else {
        push_dec(buf, n / 10);
        push_digit(buf, n % 10);
        proof {
            assert(buf@ =~= old(buf)@ + dec_digits(n as nat));
        }
    }
}

// ---------------------------------------------------------------------------
// Token display text
// ---------------------------------------------------------------------------

/// The display text of a token.
pub open spec fn token_text(t: TokenModel) -> Seq<char> {
    match t {
        TokenModel::Period => seq!['.'],
        TokenModel::Comma => seq![','],
        TokenModel::Semi => seq![';'],
        TokenModel::Bang => seq!['!'],
        TokenModel::Question => seq!['?'],
        TokenModel::Colon => seq![':'],
        TokenModel::ColonColon => seq![':', ':'],
        TokenModel::LParen => seq!['('],
        TokenModel::RParen => seq![')'],
        TokenModel::LSquare => seq!['['],
        TokenModel::RSquare => seq![']'],
        TokenModel::LBrace => seq!['{'],
        TokenModel::RBrace => seq!['}'],
        TokenModel::StraightArrow => seq!['-', '>'],
        TokenModel::EqArrow => seq!['=', '>'],
        TokenModel::Plus => seq!['+'],
        TokenModel::Minus => seq!['-'],
        TokenModel::Star => seq!['*'],
        TokenModel::Slash => seq!['/'],
        TokenModel::Modulus => seq!['%'],
        TokenModel::EqEq => seq!['=', '='],
        TokenModel::EqEqEq => seq!['=', '=', '='],
        TokenModel::Ne => seq!['!', '='],
        TokenModel::Nee => seq!['!', '=', '='],
        TokenModel::Less => seq!['<'],
        TokenModel::LessEq => seq!['<', '='],
        TokenModel::Greater => seq!['>'],
        TokenModel::GreaterEq => seq!['>', '='],
        TokenModel::AndAnd => seq!['&', '&'],
        TokenModel::OrOr => seq!['|', '|'],
        TokenModel::Eq => seq!['='],
        TokenModel::PlusEq => seq!['+', '='],
        TokenModel::MinusEq => seq!['-', '='],
        TokenModel::StarEq => seq!['*', '='],
        TokenModel::SlashEq => seq!['/', '='],
        TokenModel::Let => seq!['l', 'e', 't'],
        TokenModel::Fn => seq!['f', 'n'],
        TokenModel::If => seq!['i', 'f'],
        TokenModel::Else => seq!['e', 'l', 's', 'e'],
        TokenModel::While => seq!['w', 'h', 'i', 'l', 'e'],
        TokenModel::For => seq!['f', 'o', 'r'],
        TokenModel::Return => seq!['r', 'e', 't', 'u', 'r', 'n'],
        TokenModel::Class => seq!['c', 'l', 'a', 's', 's'],
        TokenModel::Impl => seq!['i', 'm', 'p', 'l'],
        TokenModel::Struct => seq!['s', 't', 'r', 'u', 'c', 't'],
        TokenModel::Enum => seq!['e', 'n', 'u', 'm'],
        TokenModel::SelfValue => seq!['s', 'e', 'l', 'f'],
        TokenModel::Super => seq!['s', 'u', 'p', 'e', 'r'],
        TokenModel::Use => seq!['u', 's', 'e'],
        TokenModel::Mod => seq!['m', 'o', 'd'],
        TokenModel::Const => seq!['c', 'o', 'n', 's', 't'],
        TokenModel::Static => seq!['s', 't', 'a', 't', 'i', 'c'],
        TokenModel::Integer(v) => dec_int(v),
        TokenModel::Float(p) => p,
        TokenModel::Str(p) => seq!['s', 't', 'r', '(', '"'] + p + seq!['"', ')'],
        TokenModel::Ident(p) => seq!['i', 'd', 'e', 'n', 't', '('] + p + seq![')'],
    }
}

impl Token {
    /// The display form of the token.
    pub fn render(&self) -> (r: String)
        ensures
            r@ == token_text(token_model(*self)),
    {
        match self {
            Token::Period => {
                proof {
                    reveal_strlit(".");
                    assert("."@ =~= seq!['.']);
                }
                fixed_text(".")
            },
            Token::Comma => {
                proof {
                    reveal_strlit(",");
                    assert(","@ =~= seq![',']);
                }
                fixed_text(",")
            },
            Token::Semi => {
                proof {
                    reveal_strlit(";");
                    assert(";"@ =~= seq![';']);
                }
                fixed_text(";")
            },
            Token::Bang => {
                proof {
                    reveal_strlit("!");
                    assert("!"@ =~= seq!['!']);
                }
                fixed_text("!")
            },
            Token::Question => {
                proof {
                    reveal_strlit("?");
                    assert("?"@ =~= seq!['?']);
                }
                fixed_text("?")
            },
            Token::Colon => {
                proof {
                    reveal_strlit(":");
                    assert(":"@ =~= seq![':']);
                }
                fixed_text(":")
            },
            Token::ColonColon => {
                proof {
                    reveal_strlit("::");
                    assert("::"@ =~= seq![':', ':']);
                }
                fixed_text("::")
            },
            Token::LParen => {
                proof {
                    reveal_strlit("(");
                    assert("("@ =~= seq!['(']);
                }
                fixed_text("(")
            },
            Token::RParen => {
                proof {
                    reveal_strlit(")");
                    assert(")"@ =~= seq![')']);
                }
                fixed_text(")")
            },
            Token::LSquare => {
                proof {
                    reveal_strlit("[");
                    assert("["@ =~= seq!['[']);
                }
                fixed_text("[")
            },
            Token::RSquare => {
                proof {
                    reveal_strlit("]");
                    assert("]"@ =~= seq![']']);
                }
                fixed_text("]")
            },
            Token::LBrace => {
                proof {
                    reveal_strlit("{");
                    assert("{"@ =~= seq!['{']);
                }
                fixed_text("{")
            },
            Token::RBrace => {
                proof {
                    reveal_strlit("}");
                    assert("}"@ =~= seq!['}']);
                }
                fixed_text("}")
            },
            Token::StraightArrow => {
                proof {
                    reveal_strlit("->");
                    assert("->"@ =~= seq!['-', '>']);
                }
                fixed_text("->")
            },
            Token::EqArrow => {
                proof {
                    reveal_strlit("=>");
                    assert("=>"@ =~= seq!['=', '>']);
                }
                fixed_text("=>")
            },
            Token::Plus => {
                proof {
                    reveal_strlit("+");
                    assert("+"@ =~= seq!['+']);
                }
                fixed_text("+")
            },
            Token::Minus => {
                proof {
                    reveal_strlit("-");
                    assert("-"@ =~= seq!['-']);
                }
                fixed_text("-")
            },
            Token::Star => {
                proof {
                    reveal_strlit("*");
                    assert("*"@ =~= seq!['*']);
                }
                fixed_text("*")
            },
            Token::Slash => {
                proof {
                    reveal_strlit("/");
                    assert("/"@ =~= seq!['/']);
                }
                fixed_text("/")
            },
            Token::Modulus => {
                proof {
                    reveal_strlit("%");
                    assert("%"@ =~= seq!['%']);
                }
                fixed_text("%")
            },
            Token::EqEq => {
                proof {
                    reveal_strlit("==");
                    assert("=="@ =~= seq!['=', '=']);
                }
                fixed_text("==")
            },
            Token::EqEqEq => {
                proof {
                    reveal_strlit("===");
                    assert("==="@ =~= seq!['=', '=', '=']);
                }
                fixed_text("===")
            },
            Token::Ne => {
                proof {
                    reveal_strlit("!=");
                    assert("!="@ =~= seq!['!', '=']);
                }
                fixed_text("!=")
            },
            Token::Nee => {
                proof {
                    reveal_strlit("!==");
                    assert("!=="@ =~= seq!['!', '=', '=']);
                }
                fixed_text("!==")
            },
            Token::Less => {
                proof {
                    reveal_strlit("<");
                    assert("<"@ =~= seq!['<']);
                }
                fixed_text("<")
            },
            Token::LessEq => {
                proof {
                    reveal_strlit("<=");
                    assert("<="@ =~= seq!['<', '=']);
                }
                fixed_text("<=")
            },
            Token::Greater => {
                proof {
                    reveal_strlit(">");
                    assert(">"@ =~= seq!['>']);
                }
                fixed_text(">")
            },
            Token::GreaterEq => {
                proof {
                    reveal_strlit(">=");
                    assert(">="@ =~= seq!['>', '=']);
                }
                fixed_text(">=")
            },
            Token::AndAnd => {
                proof {
                    reveal_strlit("&&");
                    assert("&&"@ =~= seq!['&', '&']);
                }
                fixed_text("&&")
            },
            Token::OrOr => {
                proof {
                    reveal_strlit("||");
                    assert("||"@ =~= seq!['|', '|']);
                }
                fixed_text("||")
            },
            Token::Eq => {
                proof {
                    reveal_strlit("=");
                    assert("="@ =~= seq!['=']);
                }
                fixed_text("=")
            },
            Token::PlusEq => {
                proof {
                    reveal_strlit("+=");
                    assert("+="@ =~= seq!['+', '=']);
                }
                fixed_text("+=")
            },
            Token::MinusEq => {
                proof {
                    reveal_strlit("-=");
                    assert("-="@ =~= seq!['-', '=']);
                }
                fixed_text("-=")
            },
            Token::StarEq => {
                proof {
                    reveal_strlit("*=");
                    assert("*="@ =~= seq!['*', '=']);
                }
                fixed_text("*=")
            },
            Token::SlashEq => {
                proof {
                    reveal_strlit("/=");
                    assert("/="@ =~= seq!['/', '=']);
                }
                fixed_text("/=")
            },
            Token::Let => {
                proof {
                    reveal_strlit("let");
                    assert("let"@ =~= seq!['l', 'e', 't']);
                }
                fixed_text("let")
            },
            Token::Fn => {
                proof {
                    reveal_strlit("fn");
                    assert("fn"@ =~= seq!['f', 'n']);
                }
                fixed_text("fn")
            },
            Token::If => {
                proof {
                    reveal_strlit("if");
                    assert("if"@ =~= seq!['i', 'f']);
                }
                fixed_text("if")
            },
            Token::Else => {
                proof {
                    reveal_strlit("else");
                    assert("else"@ =~= seq!['e', 'l', 's', 'e']);
                }
                fixed_text("else")
            },
            Token::While => {
                proof {
                    reveal_strlit("while");
                    assert("while"@ =~= seq!['w', 'h', 'i', 'l', 'e']);
                }
                fixed_text("while")
            },
            Token::For => {
                proof {
                    reveal_strlit("for");
                    assert("for"@ =~= seq!['f', 'o', 'r']);
                }
                fixed_text("for")
            },
            Token::Return => {
                proof {
                    reveal_strlit("return");
                    assert("return"@ =~= seq!['r', 'e', 't', 'u', 'r', 'n']);
                }
                fixed_text("return")
            },
            Token::Class => {
                proof {
                    reveal_strlit("class");
                    assert("class"@ =~= seq!['c', 'l', 'a', 's', 's']);
                }
                fixed_text("class")
            },
            Token::Impl => {
                proof {
                    reveal_strlit("impl");
                    assert("impl"@ =~= seq!['i', 'm', 'p', 'l']);
                }
                fixed_text("impl")
            },
            Token::Struct => {
                proof {
                    reveal_strlit("struct");
                    assert("struct"@ =~= seq!['s', 't', 'r', 'u', 'c', 't']);
                }
                fixed_text("struct")
            },
            Token::Enum => {
                proof {
                    reveal_strlit("enum");
                    assert("enum"@ =~= seq!['e', 'n', 'u', 'm']);
                }
                fixed_text("enum")
            },
            Token::SelfValue => {
                proof {
                    reveal_strlit("self");
                    assert("self"@ =~= seq!['s', 'e', 'l', 'f']);
                }
                fixed_text("self")
            },
            Token::Super => {
                proof {
                    reveal_strlit("super");
                    assert("super"@ =~= seq!['s', 'u', 'p', 'e', 'r']);
                }
                fixed_text("super")
            },
            Token::Use => {
                proof {
                    reveal_strlit("use");
                    assert("use"@ =~= seq!['u', 's', 'e']);
                }
                fixed_text("use")
            },
            Token::Mod => {
                proof {
                    reveal_strlit("mod");
                    assert("mod"@ =~= seq!['m', 'o', 'd']);
                }
                fixed_text("mod")
            },
            Token::Const => {
                proof {
                    reveal_strlit("const");
                    assert("const"@ =~= seq!['c', 'o', 'n', 's', 't']);
                }
                fixed_text("const")
            },
            Token::Static => {
                proof {
                    reveal_strlit("static");
                    assert("static"@ =~= seq!['s', 't', 'a', 't', 'i', 'c']);
                }
                fixed_text("static")
            },
            Token::Integer(v) => render_integer(*v),
            Token::Float(p) => clone_text(p),
            Token::String(p) => {
                proof {
                    reveal_strlit("str(\"");
                    reveal_strlit("\")");
                    assert("str(\""@ =~= seq!['s', 't', 'r', '(', '"']);
                    assert("\")"@ =~= seq!['"', ')']);
                }
                let mut buf: String = "str(\"".to_owned();
                buf.append(p.as_str());
                buf.append("\")");
                buf
            },
            Token::Ident(p) => {
                proof {
                    reveal_strlit("ident(");
                    reveal_strlit(")");
                    assert("ident("@ =~= seq!['i', 'd', 'e', 'n', 't', '(']);
                    assert(")"@ =~= seq![')']);
                }
                let mut buf: String = "ident(".to_owned();
                buf.append(p.as_str());
                buf.append(")");
                buf
            },
        }
    }
}

/// The literal text of a fixed token, owned.
fn fixed_text(lit: &str) -> (r: String)
    ensures
        r@ == lit@,
{
    lit.to_owned()
}

/// The decimal text of a 32-bit integer.
fn render_integer(v: i32) -> (r: String)
    ensures
        r@ == dec_int(v as int),
{
    let mut buf: String = String::new();
    if v < 0 {
        proof {
            reveal_strlit("-");
            assert("-"@ =~= seq!['-']);
        }
        buf.append("-");
        let m: u64 = (-(v as i64)) as u64;
        push_dec(&mut buf, m);
        proof {
            assert(buf@ =~= dec_int(v as int));
        }
    } else {
        push_dec(&mut buf, v as u64);
        proof {
            assert(buf@ =~= dec_int(v as int));
        }
    }
    buf
}

/// An owned copy of a literal token's text.
fn clone_text(p: &String) -> (r: String)
    ensures
        r@ == p@,
{
    p.as_str().to_owned()
}

impl<'a> SlicedToken<'a> {
    /// The display form of the wrapped token.
    pub fn render(&self) -> (r: String)
        ensures
            r@ == token_text(token_model(self.token)),
    {
        self.token.render()
    }
}

// ---------------------------------------------------------------------------
// Diagnostics
// ---------------------------------------------------------------------------

/// The description of a lexing error.
pub open spec fn err_text(e: ErrModel) -> Seq<char> {
    match e {
        ErrModel::NonAscii => seq![
            'n',
            'o',
            'n',
            ' ',
            'a',
            's',
            'c',
            'i',
            'i',
            ' ',
            'c',
            'h',
            'a',
            'r',
            'a',
            'c',
            't',
            'e',
            'r',
        ],
        ErrModel::InvalidInteger(p) => seq![
            'i',
            'n',
            'v',
            'a',
            'l',
            'i',
            'd',
            ' ',
            'i',
            'n',
            't',
            'e',
            'g',
            'e',
            'r',
            ':',
            ' ',
        ] + p,
        ErrModel::InvalidFloat => seq![
            'i',
            'n',
            'v',
            'a',
            'l',
            'i',
            'd',
            ' ',
            'f',
            'l',
            'o',
            'a',
            't',
        ],
    }
}

impl LexingError {
    /// The human-readable description of the error.
    pub fn describe(&self) -> (r: String)
        ensures
            r@ == err_text(err_model(*self)),
    {
        match self {
            LexingError::NonAsciiCharacter => {
                proof {
                    reveal_strlit("non ascii character");
                    assert("non ascii character"@ =~= err_text(ErrModel::NonAscii));
                }
                "non ascii character".to_owned()
            },
            LexingError::InvalidInteger(reason) => {
                proof {
                    reveal_strlit("invalid integer: ");
                    assert("invalid integer: "@ =~= seq![
                        'i',
                        'n',
                        'v',
                        'a',
                        'l',
                        'i',
                        'd',
                        ' ',
                        'i',
                        'n',
                        't',
                        'e',
                        'g',
                        'e',
                        'r',
                        ':',
                        ' ',
                    ]);
                }
                let mut buf: String = "invalid integer: ".to_owned();
                buf.append(reason);
                buf
            },
            LexingError::InvalidFloat => {
                proof {
                    reveal_strlit("invalid float");
                    assert("invalid float"@ =~= err_text(ErrModel::InvalidFloat));
                }
                "invalid float".to_owned()
            },
        }
    }
}

/// The three-line diagnostic for one lexing error: the 1-based position of
/// the start of its span, the offending slice, and a marker line with the
/// error's description.
pub open spec fn error_message(e: SlicedError) -> Seq<char> {
    let rc = row_col(e.source@, clamped_offset(e.source@, e.span.start as int));
    seq!['e', 'r', 'r', 'o', 'r', ' ', 'a', 't', ' '] + dec_int(rc.0) + seq![':'] + dec_int(rc.1)
        + seq![':', '\n'] + e.source@.subrange(e.span.start as int, e.span.end as int) + seq![
        '\n',
        '^',
        ' ',
    ] + err_text(err_model(e.error)) + seq!['\n']
}

impl<'a> SlicedError<'a> {
    /// Renders the error as a human-readable diagnostic.
    pub fn render(&self) -> (r: String)
        requires
            self.wf(),
            self.source@.len() < usize::MAX,
        ensures
            r@ == error_message(*self),
    {
        let (rows, cols) = rows_cols_index(self.source, self.span.start);
        proof {
            reveal_strlit("error at ");
            assert("error at "@ =~= seq!['e', 'r', 'r', 'o', 'r', ' ', 'a', 't', ' ']);
            reveal_strlit(":");
            assert(":"@ =~= seq![':']);
            reveal_strlit(":\n");
            assert(":\n"@ =~= seq![':', '\n']);
            reveal_strlit("\n^ ");
            assert("\n^ "@ =~= seq!['\n', '^', ' ']);
            reveal_strlit("\n");
            assert("\n"@ =~= seq!['\n']);
        }
        let mut buf: String = "error at ".to_owned();
        push_dec(&mut buf, rows as u64);
        buf.append(":");
        push_dec(&mut buf, cols as u64);
        buf.append(":\n");
        buf.append(self.slice());
        buf.append("\n^ ");
        let desc: String = self.error.describe();
        buf.append(desc.as_str());
        buf.append("\n");
        proof {
            assert(buf@ =~= error_message(*self));
        }
        buf
    }
}

} // verus!
