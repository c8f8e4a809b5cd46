//! The closed set of lexical categories produced by the lexer.

use vstd::prelude::*;

verus! {

/// A lexical token. `Blank` marks two consecutive newlines in the source; the
/// parser turns it into a blank statement so that the formatter can keep
/// intentional blank lines. The stream a lexer produces ends with exactly one
/// `Eof`.
#[derive(Debug, PartialEq)]
pub enum Token {
    Illegal,
    Blank,
    Eof,
    // Identifiers + literals
    Ident(String),
    Int(i64),
    String(String),
    Bool(bool),
    // Statements
    Assign,
    If,
    Else,
    // Operators
    Plus,
    Minus,
    Bang,
    Asterisk,
    Slash,
    Equal,
    NotEqual,
    LessThan,
    LessThanEqual,
    GreaterThan,
    GreaterThanEqual,
    // Delimiters
    Comma,
    Colon,
    Semicolon,
    Lparen,
    Rparen,
    Lbrace,
    Rbrace,
    Lbracket,
    Rbracket,
    // Reserved keywords
    Func,
    Let,
    Return,
}

/// The mathematical image of a `Token`: text payloads are sequences of
/// characters. Contracts and the specification-level lexer and parser speak
/// of this type.
pub enum TokenV {
    Illegal,
    Blank,
    Eof,
    Ident(Seq<char>),
    Int(i64),
    String(Seq<char>),
    Bool(bool),
    Assign,
    If,
    Else,
    Plus,
    Minus,
    Bang,
    Asterisk,
    Slash,
    Equal,
    NotEqual,
    LessThan,
    LessThanEqual,
    GreaterThan,
    GreaterThanEqual,
    Comma,
    Colon,
    Semicolon,
    Lparen,
    Rparen,
    Lbrace,
    Rbrace,
    Lbracket,
    Rbracket,
    Func,
    Let,
    Return,
}

impl View for Token {
    type V = TokenV;

    open spec fn view(&self) -> TokenV {
        match self {
            Token::Illegal => TokenV::Illegal,
            Token::Blank => TokenV::Blank,
            Token::Eof => TokenV::Eof,
            Token::Ident(s) => TokenV::Ident(s@),
            Token::Int(i) => TokenV::Int(*i),
            Token::String(s) => TokenV::String(s@),
            Token::Bool(b) => TokenV::Bool(*b),
            Token::Assign => TokenV::Assign,
            Token::If => TokenV::If,
            Token::Else => TokenV::Else,
            Token::Plus => TokenV::Plus,
            Token::Minus => TokenV::Minus,
            Token::Bang => TokenV::Bang,
            Token::Asterisk => TokenV::Asterisk,
            Token::Slash => TokenV::Slash,
            Token::Equal => TokenV::Equal,
            Token::NotEqual => TokenV::NotEqual,
            Token::LessThan => TokenV::LessThan,
            Token::LessThanEqual => TokenV::LessThanEqual,
            Token::GreaterThan => TokenV::GreaterThan,
            Token::GreaterThanEqual => TokenV::GreaterThanEqual,
            Token::Comma => TokenV::Comma,
            Token::Colon => TokenV::Colon,
            Token::Semicolon => TokenV::Semicolon,
            Token::Lparen => TokenV::Lparen,
            Token::Rparen => TokenV::Rparen,
            Token::Lbrace => TokenV::Lbrace,
            Token::Rbrace => TokenV::Rbrace,
            Token::Lbracket => TokenV::Lbracket,
            Token::Rbracket => TokenV::Rbracket,
            Token::Func => TokenV::Func,
            Token::Let => TokenV::Let,
            Token::Return => TokenV::Return,
        }
    }
}

impl Token {
    /// An owned copy whose mathematical image is the same.
    pub fn dup(&self) -> (r: Token)
        ensures
            r@ == self@,
    {
        match self {
            Token::Illegal => Token::Illegal,
            Token::Blank => Token::Blank,
            Token::Eof => Token::Eof,
            Token::Ident(s) => Token::Ident(s.clone()),
            Token::Int(i) => Token::Int(*i),
            Token::String(s) => Token::String(s.clone()),
            Token::Bool(b) => Token::Bool(*b),
            Token::Assign => Token::Assign,
            Token::If => Token::If,
            Token::Else => Token::Else,
            Token::Plus => Token::Plus,
            Token::Minus => Token::Minus,
            Token::Bang => Token::Bang,
            Token::Asterisk => Token::Asterisk,
            Token::Slash => Token::Slash,
            Token::Equal => Token::Equal,
            Token::NotEqual => Token::NotEqual,
            Token::LessThan => Token::LessThan,
            Token::LessThanEqual => Token::LessThanEqual,
            Token::GreaterThan => Token::GreaterThan,
            Token::GreaterThanEqual => Token::GreaterThanEqual,
            Token::Comma => Token::Comma,
            Token::Colon => Token::Colon,
            Token::Semicolon => Token::Semicolon,
            Token::Lparen => Token::Lparen,
            Token::Rparen => Token::Rparen,
            Token::Lbrace => Token::Lbrace,
            Token::Rbrace => Token::Rbrace,
            Token::Lbracket => Token::Lbracket,
            Token::Rbracket => Token::Rbracket,
            Token::Func => Token::Func,
            Token::Let => Token::Let,
            Token::Return => Token::Return,
        }
    }
}

} // verus!
