use vstd::prelude::*;

use crate::source_location::SourceLocation;

verus! {

/// What a token is: a literal with its text, a keyword, a symbol, or the end of the input.
#[derive(Debug, PartialEq, Eq, Clone)]
pub enum TokenValue {
    // literals
    Number(String),
    String(String),
    Identifier(String),
    True,
    False,
    // keywords
    Print,
    Assert,
    Test,
    Fn,
    Return,
    If,
    Else,
    // symbols
    Semicolon,
    Comma,
    OpenParen,
    CloseParen,
    OpenBracket,
    CloseBracket,
    Arrow,
    Plus,
    Minus,
    Star,
    ForwardSlash,
    Bang,
    Equal,
    EqualEqual,
    BangEqual,
    LessThan,
    LessThanEqual,
    GreaterThan,
    GreaterThanEqual,
    EndOfFile,
}

/// The mathematical form of a `TokenValue`: text payloads as character sequences.
pub ghost enum TokenValueV {
    Number(Seq<char>),
    String(Seq<char>),
    Identifier(Seq<char>),
    True,
    False,
    Print,
    Assert,
    Test,
    Fn,
    Return,
    If,
    Else,
    Semicolon,
    Comma,
    OpenParen,
    CloseParen,
    OpenBracket,
    CloseBracket,
    Arrow,
    Plus,
    Minus,
    Star,
    ForwardSlash,
    Bang,
    Equal,
    EqualEqual,
    BangEqual,
    LessThan,
    LessThanEqual,
    GreaterThan,
    GreaterThanEqual,
    EndOfFile,
}

impl View for TokenValue {
    type V = TokenValueV;

    open spec fn view(&self) -> TokenValueV {
        match self {
            TokenValue::Number(s) => TokenValueV::Number(s@),
            TokenValue::String(s) => TokenValueV::String(s@),
            TokenValue::Identifier(s) => TokenValueV::Identifier(s@),
            TokenValue::True => TokenValueV::True,
            TokenValue::False => TokenValueV::False,
            TokenValue::Print => TokenValueV::Print,
            TokenValue::Assert => TokenValueV::Assert,
            TokenValue::Test => TokenValueV::Test,
            TokenValue::Fn => TokenValueV::Fn,
            TokenValue::Return => TokenValueV::Return,
            TokenValue::If => TokenValueV::If,
            TokenValue::Else => TokenValueV::Else,
            TokenValue::Semicolon => TokenValueV::Semicolon,
            TokenValue::Comma => TokenValueV::Comma,
            TokenValue::OpenParen => TokenValueV::OpenParen,
            TokenValue::CloseParen => TokenValueV::CloseParen,
            TokenValue::OpenBracket => TokenValueV::OpenBracket,
            TokenValue::CloseBracket => TokenValueV::CloseBracket,
            TokenValue::Arrow => TokenValueV::Arrow,
            TokenValue::Plus => TokenValueV::Plus,
            TokenValue::Minus => TokenValueV::Minus,
            TokenValue::Star => TokenValueV::Star,
            TokenValue::ForwardSlash => TokenValueV::ForwardSlash,
            TokenValue::Bang => TokenValueV::Bang,
            TokenValue::Equal => TokenValueV::Equal,
            TokenValue::EqualEqual => TokenValueV::EqualEqual,
            TokenValue::BangEqual => TokenValueV::BangEqual,
            TokenValue::LessThan => TokenValueV::LessThan,
            TokenValue::LessThanEqual => TokenValueV::LessThanEqual,
            TokenValue::GreaterThan => TokenValueV::GreaterThan,
            TokenValue::GreaterThanEqual => TokenValueV::GreaterThanEqual,
            TokenValue::EndOfFile => TokenValueV::EndOfFile,
        }
    }
}

/// A token with the span of the source text it was read from.
#[derive(Debug, Clone)]
pub struct Token {
    pub value: TokenValue,
    pub source_location: SourceLocation,
}

pub ghost struct TokenV {
    pub value: TokenValueV,
    pub source_location: SourceLocation,
}

impl View for Token {
    type V = TokenV;

    open spec fn view(&self) -> TokenV {
        TokenV { value: self.value@, source_location: self.source_location }
    }
}

/// The mathematical form of a token sequence.
pub open spec fn tokens_view(ts: Seq<Token>) -> Seq<TokenV> {
    ts.map_values(|t: Token| t@)
}

/// Copies a token value; the copy has the same mathematical form.
pub fn clone_value(v: &TokenValue) -> (r: TokenValue)
    ensures
        r@ == v@,
{
    match v {
        TokenValue::Number(s) => TokenValue::Number(s.clone()),
        TokenValue::String(s) => TokenValue::String(s.clone()),
        TokenValue::Identifier(s) => TokenValue::Identifier(s.clone()),
        TokenValue::True => TokenValue::True,
        TokenValue::False => TokenValue::False,
        TokenValue::Print => TokenValue::Print,
        TokenValue::Assert => TokenValue::Assert,
        TokenValue::Test => TokenValue::Test,
        TokenValue::Fn => TokenValue::Fn,
        TokenValue::Return => TokenValue::Return,
        TokenValue::If => TokenValue::If,
        TokenValue::Else => TokenValue::Else,
        TokenValue::Semicolon => TokenValue::Semicolon,
        TokenValue::Comma => TokenValue::Comma,
        TokenValue::OpenParen => TokenValue::OpenParen,
        TokenValue::CloseParen => TokenValue::CloseParen,
        TokenValue::OpenBracket => TokenValue::OpenBracket,
        TokenValue::CloseBracket => TokenValue::CloseBracket,
        TokenValue::Arrow => TokenValue::Arrow,
        TokenValue::Plus => TokenValue::Plus,
        TokenValue::Minus => TokenValue::Minus,
        TokenValue::Star => TokenValue::Star,
        TokenValue::ForwardSlash => TokenValue::ForwardSlash,
        TokenValue::Bang => TokenValue::Bang,
        TokenValue::Equal => TokenValue::Equal,
        TokenValue::EqualEqual => TokenValue::EqualEqual,
        TokenValue::BangEqual => TokenValue::BangEqual,
        TokenValue::LessThan => TokenValue::LessThan,
        TokenValue::LessThanEqual => TokenValue::LessThanEqual,
        TokenValue::GreaterThan => TokenValue::GreaterThan,
        TokenValue::GreaterThanEqual => TokenValue::GreaterThanEqual,
        TokenValue::EndOfFile => TokenValue::EndOfFile,
    }
}

} // verus!

verus! {

/// Which variant a token value is, as a number.
pub open spec fn kind_of(v: TokenValueV) -> u8 {
    match v {
        TokenValueV::Number(_) => 0,
        TokenValueV::String(_) => 1,
        TokenValueV::Identifier(_) => 2,
        TokenValueV::True => 3,
        TokenValueV::False => 4,
        TokenValueV::Print => 5,
        TokenValueV::Assert => 6,
        TokenValueV::Test => 7,
        TokenValueV::Fn => 8,
        TokenValueV::Return => 9,
        TokenValueV::If => 10,
        TokenValueV::Else => 11,
        TokenValueV::Semicolon => 12,
        TokenValueV::Comma => 13,
        TokenValueV::OpenParen => 14,
        TokenValueV::CloseParen => 15,
        TokenValueV::OpenBracket => 16,
        TokenValueV::CloseBracket => 17,
        TokenValueV::Arrow => 18,
        TokenValueV::Plus => 19,
        TokenValueV::Minus => 20,
        TokenValueV::Star => 21,
        TokenValueV::ForwardSlash => 22,
        TokenValueV::Bang => 23,
        TokenValueV::Equal => 24,
        TokenValueV::EqualEqual => 25,
        TokenValueV::BangEqual => 26,
        TokenValueV::LessThan => 27,
        TokenValueV::LessThanEqual => 28,
        TokenValueV::GreaterThan => 29,
        TokenValueV::GreaterThanEqual => 30,
        TokenValueV::EndOfFile => 31,
    }
}

fn token_kind(v: &TokenValue) -> (r: u8)
    ensures
        r == kind_of(v@),
{
    match v {
        TokenValue::Number(_) => 0,
        TokenValue::String(_) => 1,
        TokenValue::Identifier(_) => 2,
        TokenValue::True => 3,
        TokenValue::False => 4,
        TokenValue::Print => 5,
        TokenValue::Assert => 6,
        TokenValue::Test => 7,
        TokenValue::Fn => 8,
        TokenValue::Return => 9,
        TokenValue::If => 10,
        TokenValue::Else => 11,
        TokenValue::Semicolon => 12,
        TokenValue::Comma => 13,
        TokenValue::OpenParen => 14,
        TokenValue::CloseParen => 15,
        TokenValue::OpenBracket => 16,
        TokenValue::CloseBracket => 17,
        TokenValue::Arrow => 18,
        TokenValue::Plus => 19,
        TokenValue::Minus => 20,
        TokenValue::Star => 21,
        TokenValue::ForwardSlash => 22,
        TokenValue::Bang => 23,
        TokenValue::Equal => 24,
        TokenValue::EqualEqual => 25,
        TokenValue::BangEqual => 26,
        TokenValue::LessThan => 27,
        TokenValue::LessThanEqual => 28,
        TokenValue::GreaterThan => 29,
        TokenValue::GreaterThanEqual => 30,
        TokenValue::EndOfFile => 31,
    }
}

/// Whether two token values are equal.
pub fn same_value(a: &TokenValue, b: &TokenValue) -> (r: bool)
    ensures
        r == (a@ == b@),
{
    match (a, b) {
        (TokenValue::Number(x), TokenValue::Number(y)) => *x == *y,
        (TokenValue::String(x), TokenValue::String(y)) => *x == *y,
        (TokenValue::Identifier(x), TokenValue::Identifier(y)) => *x == *y,
        (TokenValue::Number(_), _) | (TokenValue::String(_), _) | (TokenValue::Identifier(_), _) => false,
        (_, TokenValue::Number(_)) | (_, TokenValue::String(_)) | (_, TokenValue::Identifier(_)) => false,
        _ => {
            let ka = token_kind(a);
            let kb = token_kind(b);
            proof {
                lemma_kind_determines_unit_value(a@, b@);
            }
            ka == kb
        },
    }
}

/// Values without text are told apart by their kind.
proof fn lemma_kind_determines_unit_value(a: TokenValueV, b: TokenValueV)
    requires
        kind_of(a) > 2,
        kind_of(b) > 2,
    ensures
        (kind_of(a) == kind_of(b)) == (a == b),
{
}

} // verus!
