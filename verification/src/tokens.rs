//! The lexical tokens of the language.
//!
//! A token is a tagged terminal symbol; only names and numeric literals
//! carry a payload. A numeric literal carries the bit pattern of the
//! double its text denotes.

use vstd::prelude::*;

verus! {

/// One lexical token.
#[derive(Debug, PartialEq, Clone)]
pub enum Token {
    /// Placeholder held before the first token has been read.
    Start,
    /// Returned for ever once the input is spent.
    Eof,
    Def,
    Name(String),
    LParen,
    RParen,
    Comma,
    LCurly,
    RCurly,
    LBracket,
    RBracket,
    Return,
    SColon,
    Assign,
    If,
    Else,
    While,
    Num(u64),
    Not,
    Minus,
    Plus,
    Mul,
    Div,
    Mod,
    Or,
    And,
    Equals,
    Less,
    More,
    LessEqual,
    MoreEqual,
    NotEqual,
    Sqrt,
    Len,
    Round,
    Input,
}

/// A token's bare tag, payloads forgotten.
#[derive(Debug, PartialEq, Eq, Clone, Copy, Structural)]
pub enum TokenDiscriminants {
    Start,
    Eof,
    Def,
    Name,
    LParen,
    RParen,
    Comma,
    LCurly,
    RCurly,
    LBracket,
    RBracket,
    Return,
    SColon,
    Assign,
    If,
    Else,
    While,
    Num,
    Not,
    Minus,
    Plus,
    Mul,
    Div,
    Mod,
    Or,
    And,
    Equals,
    Less,
    More,
    LessEqual,
    MoreEqual,
    NotEqual,
    Sqrt,
    Len,
    Round,
    Input,
}

/// The tag of a token.
pub open spec fn spec_discriminant(t: Token) -> TokenDiscriminants {
    match t {
        Token::Start => TokenDiscriminants::Start,
        Token::Eof => TokenDiscriminants::Eof,
        Token::Def => TokenDiscriminants::Def,
        Token::Name(_) => TokenDiscriminants::Name,
        Token::LParen => TokenDiscriminants::LParen,
        Token::RParen => TokenDiscriminants::RParen,
        Token::Comma => TokenDiscriminants::Comma,
        Token::LCurly => TokenDiscriminants::LCurly,
        Token::RCurly => TokenDiscriminants::RCurly,
        Token::LBracket => TokenDiscriminants::LBracket,
        Token::RBracket => TokenDiscriminants::RBracket,
        Token::Return => TokenDiscriminants::Return,
        Token::SColon => TokenDiscriminants::SColon,
        Token::Assign => TokenDiscriminants::Assign,
        Token::If => TokenDiscriminants::If,
        Token::Else => TokenDiscriminants::Else,
        Token::While => TokenDiscriminants::While,
        Token::Num(_) => TokenDiscriminants::Num,
        Token::Not => TokenDiscriminants::Not,
        Token::Minus => TokenDiscriminants::Minus,
        Token::Plus => TokenDiscriminants::Plus,
        Token::Mul => TokenDiscriminants::Mul,
        Token::Div => TokenDiscriminants::Div,
        Token::Mod => TokenDiscriminants::Mod,
        Token::Or => TokenDiscriminants::Or,
        Token::And => TokenDiscriminants::And,
        Token::Equals => TokenDiscriminants::Equals,
        Token::Less => TokenDiscriminants::Less,
        Token::More => TokenDiscriminants::More,
        Token::LessEqual => TokenDiscriminants::LessEqual,
        Token::MoreEqual => TokenDiscriminants::MoreEqual,
        Token::NotEqual => TokenDiscriminants::NotEqual,
        Token::Sqrt => TokenDiscriminants::Sqrt,
        Token::Len => TokenDiscriminants::Len,
        Token::Round => TokenDiscriminants::Round,
        Token::Input => TokenDiscriminants::Input,
    }
}

impl Token {
    /// The tag of this token.
    pub fn discriminant(&self) -> (r: TokenDiscriminants)
        ensures
            r == spec_discriminant(*self),
    {
        match self {
            Token::Start => TokenDiscriminants::Start,
            Token::Eof => TokenDiscriminants::Eof,
            Token::Def => TokenDiscriminants::Def,
            Token::Name(_) => TokenDiscriminants::Name,
            Token::LParen => TokenDiscriminants::LParen,
            Token::RParen => TokenDiscriminants::RParen,
            Token::Comma => TokenDiscriminants::Comma,
            Token::LCurly => TokenDiscriminants::LCurly,
            Token::RCurly => TokenDiscriminants::RCurly,
            Token::LBracket => TokenDiscriminants::LBracket,
            Token::RBracket => TokenDiscriminants::RBracket,
            Token::Return => TokenDiscriminants::Return,
            Token::SColon => TokenDiscriminants::SColon,
            Token::Assign => TokenDiscriminants::Assign,
            Token::If => TokenDiscriminants::If,
            Token::Else => TokenDiscriminants::Else,
            Token::While => TokenDiscriminants::While,
            Token::Num(_) => TokenDiscriminants::Num,
            Token::Not => TokenDiscriminants::Not,
            Token::Minus => TokenDiscriminants::Minus,
            Token::Plus => TokenDiscriminants::Plus,
            Token::Mul => TokenDiscriminants::Mul,
            Token::Div => TokenDiscriminants::Div,
            Token::Mod => TokenDiscriminants::Mod,
            Token::Or => TokenDiscriminants::Or,
            Token::And => TokenDiscriminants::And,
            Token::Equals => TokenDiscriminants::Equals,
            Token::Less => TokenDiscriminants::Less,
            Token::More => TokenDiscriminants::More,
            Token::LessEqual => TokenDiscriminants::LessEqual,
            Token::MoreEqual => TokenDiscriminants::MoreEqual,
            Token::NotEqual => TokenDiscriminants::NotEqual,
            Token::Sqrt => TokenDiscriminants::Sqrt,
            Token::Len => TokenDiscriminants::Len,
            Token::Round => TokenDiscriminants::Round,
            Token::Input => TokenDiscriminants::Input,
        }
    }
}

/// An equal copy of a token.
pub fn clone_token(t: &Token) -> (r: Token)
    ensures
        r == *t,
{
    match t {
        Token::Start => Token::Start,
        Token::Eof => Token::Eof,
        Token::Def => Token::Def,
        Token::Name(s) => Token::Name(s.clone()),
        Token::LParen => Token::LParen,
        Token::RParen => Token::RParen,
        Token::Comma => Token::Comma,
        Token::LCurly => Token::LCurly,
        Token::RCurly => Token::RCurly,
        Token::LBracket => Token::LBracket,
        Token::RBracket => Token::RBracket,
        Token::Return => Token::Return,
        Token::SColon => Token::SColon,
        Token::Assign => Token::Assign,
        Token::If => Token::If,
        Token::Else => Token::Else,
        Token::While => Token::While,
        Token::Num(b) => Token::Num(*b),
        Token::Not => Token::Not,
        Token::Minus => Token::Minus,
        Token::Plus => Token::Plus,
        Token::Mul => Token::Mul,
        Token::Div => Token::Div,
        Token::Mod => Token::Mod,
        Token::Or => Token::Or,
        Token::And => Token::And,
        Token::Equals => Token::Equals,
        Token::Less => Token::Less,
        Token::More => Token::More,
        Token::LessEqual => Token::LessEqual,
        Token::MoreEqual => Token::MoreEqual,
        Token::NotEqual => Token::NotEqual,
        Token::Sqrt => Token::Sqrt,
        Token::Len => Token::Len,
        Token::Round => Token::Round,
        Token::Input => Token::Input,
    }
}

} // verus!
