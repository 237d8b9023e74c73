//! Lexical tokens of the template grammar, together with their mathematical
//! model and the character classes the lexer is defined over.

use vstd::prelude::*;

verus! {

/// The mathematical model of one token: what a [`Token`] means, with all
/// text as sequences of characters.
pub ghost enum Tok {
    /// A bare identifier: a tag name, an attribute name, or a word such as
    /// `true`, `if` or `match`.
    Ident(Seq<char>),
    /// The contents of a double-quoted string literal, quotes excluded.
    StrLit(Seq<char>),
    /// A run of decimal digits.
    IntLit(Seq<char>),
    /// A decimal float literal: digits, a point, digits.
    FloatLit { int_digits: Seq<char>, frac_digits: Seq<char> },
    /// `{`
    LBrace,
    /// `}`
    RBrace,
    /// `:`
    Colon,
    /// `,`
    Comma,
    /// Any other single non-whitespace character.
    Punct(char),
}

/// One lexical token of the template grammar.
#[derive(Debug, Clone)]
pub enum Token {
    /// A bare identifier.
    Ident(String),
    /// The contents of a double-quoted string literal, quotes excluded.
    StrLit(String),
    /// A run of decimal digits.
    IntLit(String),
    /// A decimal float literal: digits, a point, digits.
    FloatLit { int_digits: String, frac_digits: String },
    /// `{`
    LBrace,
    /// `}`
    RBrace,
    /// `:`
    Colon,
    /// `,`
    Comma,
    /// Any other single non-whitespace character.
    Punct(char),
}

impl DeepView for Token {
    type V = Tok;

    open spec fn deep_view(&self) -> Tok {
        match self {
            Token::Ident(s) => Tok::Ident(s@),
            Token::StrLit(s) => Tok::StrLit(s@),
            Token::IntLit(s) => Tok::IntLit(s@),
            Token::FloatLit { int_digits, frac_digits } => (Tok::FloatLit {
                int_digits: int_digits@,
                frac_digits: frac_digits@,
            }),
            Token::LBrace => Tok::LBrace,
            Token::RBrace => Tok::RBrace,
            Token::Colon => Tok::Colon,
            Token::Comma => Tok::Comma,
            Token::Punct(c) => Tok::Punct(*c),
        }
    }
}

/// Whitespace between tokens.
pub open spec fn is_ws_char(c: char) -> bool {
    c == ' ' || c == '\t' || c == '\n' || c == '\r'
}

/// A decimal digit.
pub open spec fn is_digit_char(c: char) -> bool {
    '0' <= c && c <= '9'
}

/// A character that may start an identifier.
pub open spec fn is_ident_start_char(c: char) -> bool {
    ('a' <= c && c <= 'z') || ('A' <= c && c <= 'Z') || c == '_'
}

/// A character that may continue an identifier.
pub open spec fn is_ident_char(c: char) -> bool {
    is_ident_start_char(c) || is_digit_char(c)
}

/// Decides [`is_ws_char`].
pub fn ws_char(c: char) -> (r: bool)
    ensures
        r == is_ws_char(c),
{
    c == ' ' || c == '\t' || c == '\n' || c == '\r'
}

/// Decides [`is_digit_char`].
pub fn digit_char(c: char) -> (r: bool)
    ensures
        r == is_digit_char(c),
{
    '0' <= c && c <= '9'
}

/// Decides [`is_ident_start_char`].
pub fn ident_start_char(c: char) -> (r: bool)
    ensures
        r == is_ident_start_char(c),
{
    ('a' <= c && c <= 'z') || ('A' <= c && c <= 'Z') || c == '_'
}

/// Decides [`is_ident_char`].
pub fn ident_char(c: char) -> (r: bool)
    ensures
        r == is_ident_char(c),
{
    ident_start_char(c) || digit_char(c)
}

} // verus!
