use vstd::prelude::*;

verus! {

/// Spec-level shape of a token: identifier and numeric-literal payloads are
/// character sequences.
pub enum TokenV {
    Binary,
    Comma,
    Comment,
    Def,
    EOF,
    Extern,
    Ident(Seq<char>),
    LParen,
    Number(Seq<char>),
    Op(char),
    RParen,
}

/// The closed set of lexical units the lexer can produce. A numeric literal
/// carries the captured source text; turning that text into a machine number
/// is left to the consumer of the syntax tree.
#[derive(Debug, PartialEq)]
pub enum Token {
    /// The `binary` keyword, introducing a custom operator declaration.
    Binary,
    Comma,
    /// A line comment; produced so callers can decide to discard it.
    Comment,
    /// The `def` keyword.
    Def,
    /// The end-of-stream marker; never stored in a token buffer.
    EOF,
    /// The `extern` keyword.
    Extern,
    Ident(String),
    LParen,
    /// The captured text of a numeric literal.
    Number(String),
    /// Any single punctuation character without a dedicated kind.
    Op(char),
    RParen,
}

impl View for Token {
    type V = TokenV;

    open spec fn view(&self) -> TokenV {
        match self {
            Token::Binary => TokenV::Binary,
            Token::Comma => TokenV::Comma,
            Token::Comment => TokenV::Comment,
            Token::Def => TokenV::Def,
            Token::EOF => TokenV::EOF,
            Token::Extern => TokenV::Extern,
            Token::Ident(s) => TokenV::Ident(s@),
            Token::LParen => TokenV::LParen,
            Token::Number(s) => TokenV::Number(s@),
            Token::Op(c) => TokenV::Op(*c),
            Token::RParen => TokenV::RParen,
        }
    }
}

impl Clone for Token {
    fn clone(&self) -> (r: Token)
        ensures
            r == *self,
    {
        match self {
            Token::Binary => Token::Binary,
            Token::Comma => Token::Comma,
            Token::Comment => Token::Comment,
            Token::Def => Token::Def,
            Token::EOF => Token::EOF,
            Token::Extern => Token::Extern,
            Token::Ident(s) => Token::Ident(s.clone()),
            Token::LParen => Token::LParen,
            Token::Number(s) => Token::Number(s.clone()),
            Token::Op(c) => Token::Op(*c),
            Token::RParen => Token::RParen,
        }
    }
}

} // verus!
