//! Lexical tokens of the language.
use vstd::prelude::*;

verus! {

/// A classified lexical unit, produced by the lexer one at a time.
///
/// Float literals carry the IEEE-754 bit pattern of the 64-bit value they
/// denote, so that the token is a plain value.
#[derive(Debug)]
pub enum Token {
    // Keywords
    Function,
    Let,
    Static,
    Live,
    Assert,
    If,
    Else,
    Return,
    // Literals
    Identifier(String),
    IntLiteral(i64),
    FloatLiteral(u64),
    StringLiteral(String),
    BoolLiteral(bool),
    // Operators
    Plus,
    Minus,
    Multiply,
    Divide,
    Assign,
    Equal,
    NotEqual,
    Greater,
    Less,
    GreaterEqual,
    LessEqual,
    // Delimiters
    LeftParen,
    RightParen,
    LeftBrace,
    RightBrace,
    Comma,
    Semicolon,
    Colon,
    // End of input
    Eof,
}

/// Mathematical model of a token: strings are modelled as character sequences.
#[verifier::ext_equal]
pub enum TokenModel {
    Function,
    Let,
    Static,
    Live,
    Assert,
    If,
    Else,
    Return,
    Identifier(Seq<char>),
    IntLiteral(i64),
    FloatLiteral(u64),
    StringLiteral(Seq<char>),
    BoolLiteral(bool),
    Plus,
    Minus,
    Multiply,
    Divide,
    Assign,
    Equal,
    NotEqual,
    Greater,
    Less,
    GreaterEqual,
    LessEqual,
    LeftParen,
    RightParen,
    LeftBrace,
    RightBrace,
    Comma,
    Semicolon,
    Colon,
    Eof,
}

impl DeepView for Token {
    type V = TokenModel;

    open spec fn deep_view(&self) -> TokenModel {
        match self {
            Token::Function => TokenModel::Function,
            Token::Let => TokenModel::Let,
            Token::Static => TokenModel::Static,
            Token::Live => TokenModel::Live,
            Token::Assert => TokenModel::Assert,
            Token::If => TokenModel::If,
            Token::Else => TokenModel::Else,
            Token::Return => TokenModel::Return,
            Token::Identifier(s) => TokenModel::Identifier(s@),
            Token::IntLiteral(i) => TokenModel::IntLiteral(*i),
            Token::FloatLiteral(b) => TokenModel::FloatLiteral(*b),
            Token::StringLiteral(s) => TokenModel::StringLiteral(s@),
            Token::BoolLiteral(b) => TokenModel::BoolLiteral(*b),
            Token::Plus => TokenModel::Plus,
            Token::Minus => TokenModel::Minus,
            Token::Multiply => TokenModel::Multiply,
            Token::Divide => TokenModel::Divide,
            Token::Assign => TokenModel::Assign,
            Token::Equal => TokenModel::Equal,
            Token::NotEqual => TokenModel::NotEqual,
            Token::Greater => TokenModel::Greater,
            Token::Less => TokenModel::Less,
            Token::GreaterEqual => TokenModel::GreaterEqual,
            Token::LessEqual => TokenModel::LessEqual,
            Token::LeftParen => TokenModel::LeftParen,
            Token::RightParen => TokenModel::RightParen,
            Token::LeftBrace => TokenModel::LeftBrace,
            Token::RightBrace => TokenModel::RightBrace,
            Token::Comma => TokenModel::Comma,
            Token::Semicolon => TokenModel::Semicolon,
            Token::Colon => TokenModel::Colon,
            Token::Eof => TokenModel::Eof,
        }
    }
}

impl Token {
    /// An owned copy of this token.
    pub fn duplicate(&self) -> (r: Token)
        ensures
            r.deep_view() == self.deep_view(),
    {
        match self {
            Token::Function => Token::Function,
            Token::Let => Token::Let,
            Token::Static => Token::Static,
            Token::Live => Token::Live,
            Token::Assert => Token::Assert,
            Token::If => Token::If,
            Token::Else => Token::Else,
            Token::Return => Token::Return,
            Token::Identifier(s) => Token::Identifier(s.clone()),
            Token::IntLiteral(i) => Token::IntLiteral(*i),
            Token::FloatLiteral(b) => Token::FloatLiteral(*b),
            Token::StringLiteral(s) => Token::StringLiteral(s.clone()),
            Token::BoolLiteral(b) => Token::BoolLiteral(*b),
            Token::Plus => Token::Plus,
            Token::Minus => Token::Minus,
            Token::Multiply => Token::Multiply,
            Token::Divide => Token::Divide,
            Token::Assign => Token::Assign,
            Token::Equal => Token::Equal,
            Token::NotEqual => Token::NotEqual,
            Token::Greater => Token::Greater,
            Token::Less => Token::Less,
            Token::GreaterEqual => Token::GreaterEqual,
            Token::LessEqual => Token::LessEqual,
            Token::LeftParen => Token::LeftParen,
            Token::RightParen => Token::RightParen,
            Token::LeftBrace => Token::LeftBrace,
            Token::RightBrace => Token::RightBrace,
            Token::Comma => Token::Comma,
            Token::Semicolon => Token::Semicolon,
            Token::Colon => Token::Colon,
            Token::Eof => Token::Eof,
        }
    }
}

} // verus!
