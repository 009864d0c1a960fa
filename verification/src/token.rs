//! Tokens produced by the scanner and consumed by the compiler.
use vstd::prelude::*;

verus! {

/// The payload of a literal token: the text of a string, the encoded
/// double of a number, or the boolean / nil constants.
#[derive(Debug, PartialEq)]
pub enum Literal {
    Str(String),
    Number(u64),
    Boolean(bool),
    Nil,
}

impl Clone for Literal {
    fn clone(&self) -> (r: Self)
        ensures
            r == *self,
    {
        match self {
            Literal::Str(s) => Literal::Str(s.clone()),
            Literal::Number(b) => Literal::Number(*b),
            Literal::Boolean(b) => Literal::Boolean(*b),
            Literal::Nil => Literal::Nil,
        }
    }
}

/// The closed set of token kinds.
#[derive(PartialEq, Eq, Structural, Debug, Clone, Copy)]
pub enum TokenType {
    // special
    EndOfFile,
    Error,
    Undefined,
    Plus,
    Minus,
    LeftParen,
    RightParen,
    LeftBracket,
    RightBracket,
    Semicolon,
    Comma,
    Dot,
    Slash,
    Star,
    // one- or two-character operators
    Bang,
    BangEquals,
    Equals,
    Assign,
    Greater,
    GreaterEquals,
    Less,
    LessEquals,
    // literals
    Str,
    Number,
    Identifier,
    Constant,
    // keywords
    And,
    Class,
    Else,
    Fun,
    For,
    Or,
    Print,
    Return,
    Super,
    This,
    Var,
    While,
    Break,
    If,
}

/// One scanned token: its kind, the line it starts on, its text, and the
/// literal payload for number, string and constant tokens.
#[derive(Debug, PartialEq)]
pub struct Token {
    pub ttype: TT,
    pub line: usize,
    pub lexeme: String,
    pub literal: Option<Literal>,
}

impl Token {
    pub fn new(ttype: TT, line: usize, lexeme: String) -> (t: Self)
        ensures
            t.ttype == ttype,
            t.line == line,
            t.lexeme == lexeme,
            t.literal is None,
    {
        Self { ttype, line, lexeme, literal: None }
    }
}

impl Clone for Token {
    fn clone(&self) -> (r: Self)
        ensures
            r == *self,
    {
        let lit = match &self.literal {
            Some(l) => Some(l.clone()),
            None => None,
        };
        Token { ttype: self.ttype, line: self.line, lexeme: self.lexeme.clone(), literal: lit }
    }
}

impl Default for Token {
    fn default() -> (t: Self)
        ensures
            t.ttype == TT::Undefined,
            t.line == 0,
            t.lexeme@ == Seq::<char>::empty(),
            t.literal is None,
    {
        Self { ttype: TT::Undefined, line: 0, lexeme: String::new(), literal: None }
    }
}

} // verus!

pub use TokenType as TT;
