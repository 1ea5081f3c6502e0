use vstd::prelude::*;

verus! {

/// The kind of a lexical token: keywords, identifiers and literals, operators,
/// delimiters, and the two sentinels `Eof` and `Illegal`.
#[derive(Debug, PartialEq, Eq, Clone, Copy, Structural)]
pub enum TokenType {
    // Keywords
    Let,
    Fn,
    True,
    False,
    If,
    Else,
    Return,
    // Identifiers and literals
    Identifier,
    Integer,
    String,
    // Operators
    Plus,
    Increment,
    Minus,
    Decrement,
    Asterisk,
    Slash,
    Question,
    Percent,
    Assign,
    Bang,
    Equal,
    NotEqual,
    LessThan,
    GreaterThan,
    LessThanOrEqual,
    GreaterThanOrEqual,
    // Delimiters
    Comma,
    Semicolon,
    Colon,
    LeftParen,
    RightParen,
    LeftSquareBracket,
    RightSquareBracket,
    LeftCurlyBracket,
    RightCurlyBracket,
    // Sentinels
    Eof,
    Illegal,
}

/// A classified lexical unit: its kind and its literal source text.
/// A token is immutable once produced.
#[derive(Debug, PartialEq)]
pub struct Token {
    pub ttype: TokenType,
    pub literal: String,
}

/// The mathematical image of a token: its kind and the characters of its
/// literal text.
pub struct TokenM {
    pub ttype: TokenType,
    pub literal: Seq<char>,
}

impl View for Token {
    type V = TokenM;

    open spec fn view(&self) -> TokenM {
        TokenM { ttype: self.ttype, literal: self.literal@ }
    }
}

impl Token {
    pub fn new(ttype: TokenType, literal: String) -> (r: Token)
        ensures
            r.ttype == ttype,
            r.literal == literal,
    {
        Token { ttype, literal }
    }
}

impl Clone for Token {
    fn clone(&self) -> (r: Token)
        ensures
            r == *self,
    {
        Token { ttype: self.ttype, literal: self.literal.clone() }
    }
}

} // verus!
