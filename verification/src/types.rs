//! Lexical token kinds, operator kinds and keywords.

use vstd::prelude::*;
use crate::text::str_eq;

verus! {

/// Arithmetic operator kinds.
#[derive(Debug, Clone, Copy, PartialEq, Eq, Structural)]
pub enum Operator {
    Add,
    Subtract,
    Multiply,
    Divide,
    Mod,
}

/// Bitwise operator kinds (lexed, never parsed).
#[derive(Debug, Clone, Copy, PartialEq, Eq, Structural)]
pub enum BitwiseOp {
    And,
    Or,
    Not,
    Xor,
}

/// A lexical token.
#[derive(Debug, Clone, PartialEq)]
pub enum Token {
    Identifier(String),
    Number(i32),
    Boolean(bool),
    Operator(Operator),
    BitwiseOp(BitwiseOp),
    LParen,
    RParen,
    Eq,
    NotEq,
    LessThan,
    GreaterThan,
    Leq,
    Geq,
    Not,
    And,
    Or,
    Semi,
    Assign,
    ShortAssign(Operator),
    Increment,
    Decrement,
    LCurly,
    RCurly,
    Declare,
    Function,
    Comma,
    Return,
    If,
    Else,
    While,
}

/// The mathematical model of a token: identifier names become character
/// sequences, everything else carries its payload unchanged.
pub ghost enum TokenV {
    Identifier(Seq<char>),
    Number(i32),
    Boolean(bool),
    Operator(Operator),
    BitwiseOp(BitwiseOp),
    LParen,
    RParen,
    Eq,
    NotEq,
    LessThan,
    GreaterThan,
    Leq,
    Geq,
    Not,
    And,
    Or,
    Semi,
    Assign,
    ShortAssign(Operator),
    Increment,
    Decrement,
    LCurly,
    RCurly,
    Declare,
    Function,
    Comma,
    Return,
    If,
    Else,
    While,
}

impl View for Token {
    type V = TokenV;

    open spec fn view(&self) -> TokenV {
        match self {
            Token::Identifier(s) => TokenV::Identifier(s@),
            Token::Number(v) => TokenV::Number(*v),
            Token::Boolean(b) => TokenV::Boolean(*b),
            Token::Operator(op) => TokenV::Operator(*op),
            Token::BitwiseOp(op) => TokenV::BitwiseOp(*op),
            Token::LParen => TokenV::LParen,
            Token::RParen => TokenV::RParen,
            Token::Eq => TokenV::Eq,
            Token::NotEq => TokenV::NotEq,
            Token::LessThan => TokenV::LessThan,
            Token::GreaterThan => TokenV::GreaterThan,
            Token::Leq => TokenV::Leq,
            Token::Geq => TokenV::Geq,
            Token::Not => TokenV::Not,
            Token::And => TokenV::And,
            Token::Or => TokenV::Or,
            Token::Semi => TokenV::Semi,
            Token::Assign => TokenV::Assign,
            Token::ShortAssign(op) => TokenV::ShortAssign(*op),
            Token::Increment => TokenV::Increment,
            Token::Decrement => TokenV::Decrement,
            Token::LCurly => TokenV::LCurly,
            Token::RCurly => TokenV::RCurly,
            Token::Declare => TokenV::Declare,
            Token::Function => TokenV::Function,
            Token::Comma => TokenV::Comma,
            Token::Return => TokenV::Return,
            Token::If => TokenV::If,
            Token::Else => TokenV::Else,
            Token::While => TokenV::While,
        }
    }
}

/// Whether two tokens are of the same kind, payloads ignored.
pub open spec fn tv_variant_eq(a: TokenV, b: TokenV) -> bool {
    match (a, b) {
        (TokenV::Identifier(_), TokenV::Identifier(_)) => true,
        (TokenV::Number(_), TokenV::Number(_)) => true,
        (TokenV::Boolean(_), TokenV::Boolean(_)) => true,
        (TokenV::Operator(_), TokenV::Operator(_)) => true,
        (TokenV::BitwiseOp(_), TokenV::BitwiseOp(_)) => true,
        (TokenV::LParen, TokenV::LParen) => true,
        (TokenV::RParen, TokenV::RParen) => true,
        (TokenV::Eq, TokenV::Eq) => true,
        (TokenV::NotEq, TokenV::NotEq) => true,
        (TokenV::LessThan, TokenV::LessThan) => true,
        (TokenV::GreaterThan, TokenV::GreaterThan) => true,
        (TokenV::Leq, TokenV::Leq) => true,
        (TokenV::Geq, TokenV::Geq) => true,
        (TokenV::Not, TokenV::Not) => true,
        (TokenV::And, TokenV::And) => true,
        (TokenV::Or, TokenV::Or) => true,
        (TokenV::Semi, TokenV::Semi) => true,
        (TokenV::Assign, TokenV::Assign) => true,
        (TokenV::ShortAssign(_), TokenV::ShortAssign(_)) => true,
        (TokenV::Increment, TokenV::Increment) => true,
        (TokenV::Decrement, TokenV::Decrement) => true,
        (TokenV::LCurly, TokenV::LCurly) => true,
        (TokenV::RCurly, TokenV::RCurly) => true,
        (TokenV::Declare, TokenV::Declare) => true,
        (TokenV::Function, TokenV::Function) => true,
        (TokenV::Comma, TokenV::Comma) => true,
        (TokenV::Return, TokenV::Return) => true,
        (TokenV::If, TokenV::If) => true,
        (TokenV::Else, TokenV::Else) => true,
        (TokenV::While, TokenV::While) => true,
        _ => false,
    }
}

/// Whether two tokens are of the same kind, payloads ignored.
pub fn variant_eq(a: &Token, b: &Token) -> (r: bool)
    ensures
        r == tv_variant_eq(a@, b@),
{
    match (a, b) {
        (Token::Identifier(_), Token::Identifier(_)) => true,
        (Token::Number(_), Token::Number(_)) => true,
        (Token::Boolean(_), Token::Boolean(_)) => true,
        (Token::Operator(_), Token::Operator(_)) => true,
        (Token::BitwiseOp(_), Token::BitwiseOp(_)) => true,
        (Token::LParen, Token::LParen) => true,
        (Token::RParen, Token::RParen) => true,
        (Token::Eq, Token::Eq) => true,
        (Token::NotEq, Token::NotEq) => true,
        (Token::LessThan, Token::LessThan) => true,
        (Token::GreaterThan, Token::GreaterThan) => true,
        (Token::Leq, Token::Leq) => true,
        (Token::Geq, Token::Geq) => true,
        (Token::Not, Token::Not) => true,
        (Token::And, Token::And) => true,
        (Token::Or, Token::Or) => true,
        (Token::Semi, Token::Semi) => true,
        (Token::Assign, Token::Assign) => true,
        (Token::ShortAssign(_), Token::ShortAssign(_)) => true,
        (Token::Increment, Token::Increment) => true,
        (Token::Decrement, Token::Decrement) => true,
        (Token::LCurly, Token::LCurly) => true,
        (Token::RCurly, Token::RCurly) => true,
        (Token::Declare, Token::Declare) => true,
        (Token::Function, Token::Function) => true,
        (Token::Comma, Token::Comma) => true,
        (Token::Return, Token::Return) => true,
        (Token::If, Token::If) => true,
        (Token::Else, Token::Else) => true,
        (Token::While, Token::While) => true,
        _ => false,
    }
}

/// Full equality of two tokens, payloads included.
pub fn token_eq(a: &Token, b: &Token) -> (r: bool)
    ensures
        r == (a@ == b@),
{
    match (a, b) {
        (Token::Identifier(x), Token::Identifier(y)) => str_eq(x.as_str(), y.as_str()),
        (Token::Number(x), Token::Number(y)) => x == y,
        (Token::Boolean(x), Token::Boolean(y)) => x == y,
        (Token::Operator(x), Token::Operator(y)) => x == y,
        (Token::BitwiseOp(x), Token::BitwiseOp(y)) => x == y,
        (Token::LParen, Token::LParen) => true,
        (Token::RParen, Token::RParen) => true,
        (Token::Eq, Token::Eq) => true,
        (Token::NotEq, Token::NotEq) => true,
        (Token::LessThan, Token::LessThan) => true,
        (Token::GreaterThan, Token::GreaterThan) => true,
        (Token::Leq, Token::Leq) => true,
        (Token::Geq, Token::Geq) => true,
        (Token::Not, Token::Not) => true,
        (Token::And, Token::And) => true,
        (Token::Or, Token::Or) => true,
        (Token::Semi, Token::Semi) => true,
        (Token::Assign, Token::Assign) => true,
        (Token::ShortAssign(x), Token::ShortAssign(y)) => x == y,
        (Token::Increment, Token::Increment) => true,
        (Token::Decrement, Token::Decrement) => true,
        (Token::LCurly, Token::LCurly) => true,
        (Token::RCurly, Token::RCurly) => true,
        (Token::Declare, Token::Declare) => true,
        (Token::Function, Token::Function) => true,
        (Token::Comma, Token::Comma) => true,
        (Token::Return, Token::Return) => true,
        (Token::If, Token::If) => true,
        (Token::Else, Token::Else) => true,
        (Token::While, Token::While) => true,
        _ => false,
    }
}

/// The reserved words of the language.
#[derive(Debug, Clone, Copy, PartialEq, Eq, Structural)]
pub enum Keywords {
    Let,
    Return,
    If,
    Else,
    While,
    Function,
    True,
    False,
}

/// The keyword denoted by a word, if any.
pub open spec fn keyword_of(s: Seq<char>) -> Option<Keywords> {
    if s == "let"@ { Some(Keywords::Let) }
    else if s == "return"@ { Some(Keywords::Return) }
    else if s == "if"@ { Some(Keywords::If) }
    else if s == "else"@ { Some(Keywords::Else) }
    else if s == "while"@ { Some(Keywords::While) }
    else if s == "fn"@ { Some(Keywords::Function) }
    else if s == "true"@ { Some(Keywords::True) }
    else if s == "false"@ { Some(Keywords::False) }
    else { None }
}

/// The token a keyword lexes to.
pub open spec fn keyword_token(k: Keywords) -> TokenV {
    match k {
        Keywords::Let => TokenV::Declare,
        Keywords::Return => TokenV::Return,
        Keywords::If => TokenV::If,
        Keywords::Else => TokenV::Else,
        Keywords::While => TokenV::While,
        Keywords::Function => TokenV::Function,
        Keywords::True => TokenV::Boolean(true),
        Keywords::False => TokenV::Boolean(false),
    }
}

impl Keywords {
    pub fn from_string(s: &str) -> (r: Option<Keywords>)
        ensures
            r == keyword_of(s@),
    {
        if str_eq(s, "let") { Some(Keywords::Let) }
        else if str_eq(s, "return") { Some(Keywords::Return) }
        else if str_eq(s, "if") { Some(Keywords::If) }
        else if str_eq(s, "else") { Some(Keywords::Else) }
        else if str_eq(s, "while") { Some(Keywords::While) }
        else if str_eq(s, "fn") { Some(Keywords::Function) }
        else if str_eq(s, "true") { Some(Keywords::True) }
        else if str_eq(s, "false") { Some(Keywords::False) }
        else { None }
    }

    pub fn to_token(&self) -> (t: Token)
        ensures
            t@ == keyword_token(*self),
    {
        match self {
            Keywords::Let => Token::Declare,
            Keywords::Return => Token::Return,
            Keywords::If => Token::If,
            Keywords::Else => Token::Else,
            Keywords::While => Token::While,
            Keywords::Function => Token::Function,
            Keywords::True => Token::Boolean(true),
            Keywords::False => Token::Boolean(false),
        }
    }
}

} // verus!
