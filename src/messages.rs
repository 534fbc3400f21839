use vstd::prelude::*;

use crate::errors::{CompileError, ErrorKind, ErrorKindV};
use crate::text::{append_str, push_char};
use crate::tokens::{TokenValue, TokenValueV};
use crate::types::TypeInformation;

verus! {

/// How a token is named in diagnostics.
pub open spec fn describe(v: TokenValueV) -> Seq<char> {
    match v {
        TokenValueV::Number(t) => "Number("@ + t + ")"@,
        TokenValueV::String(t) => "String("@ + t + ")"@,
        TokenValueV::Identifier(t) => "Identifier("@ + t + ")"@,
        TokenValueV::True => "True"@,
        TokenValueV::False => "False"@,
        TokenValueV::Print => "Print"@,
        TokenValueV::Assert => "Assert"@,
        TokenValueV::Test => "Test"@,
        TokenValueV::Fn => "Fn"@,
        TokenValueV::Return => "Return"@,
        TokenValueV::If => "If"@,
        TokenValueV::Else => "Else"@,
        TokenValueV::Semicolon => "Semicolon"@,
        TokenValueV::Comma => "Comma"@,
        TokenValueV::OpenParen => "OpenParen"@,
        TokenValueV::CloseParen => "CloseParen"@,
        TokenValueV::OpenBracket => "OpenBracket"@,
        TokenValueV::CloseBracket => "CloseBracket"@,
        TokenValueV::Arrow => "Arrow"@,
        TokenValueV::Plus => "Plus"@,
        TokenValueV::Minus => "Minus"@,
        TokenValueV::Star => "Star"@,
        TokenValueV::ForwardSlash => "ForwardSlash"@,
        TokenValueV::Bang => "Bang"@,
        TokenValueV::Equal => "Equal"@,
        TokenValueV::EqualEqual => "EqualEqual"@,
        TokenValueV::BangEqual => "BangEqual"@,
        TokenValueV::LessThan => "LessThan"@,
        TokenValueV::LessThanEqual => "LessThanEqual"@,
        TokenValueV::GreaterThan => "GreaterThan"@,
        TokenValueV::GreaterThanEqual => "GreaterThanEqual"@,
        TokenValueV::EndOfFile => "EndOfFile"@,
    }
}

/// Appends the diagnostic name of a token.
pub fn push_description(out: &mut String, v: &TokenValue)
    ensures
        final(out)@ == old(out)@ + describe(v@),
{
    let mut r = String::new();
    match v {
        TokenValue::Number(t) => {
            append_str(&mut r, "Number(");
            append_str(&mut r, t.as_str());
            append_str(&mut r, ")");
        },
        TokenValue::String(t) => {
            append_str(&mut r, "String(");
            append_str(&mut r, t.as_str());
            append_str(&mut r, ")");
        },
        TokenValue::Identifier(t) => {
            append_str(&mut r, "Identifier(");
            append_str(&mut r, t.as_str());
            append_str(&mut r, ")");
        },
        TokenValue::True => append_str(&mut r, "True"),
        TokenValue::False => append_str(&mut r, "False"),
        TokenValue::Print => append_str(&mut r, "Print"),
        TokenValue::Assert => append_str(&mut r, "Assert"),
        TokenValue::Test => append_str(&mut r, "Test"),
        TokenValue::Fn => append_str(&mut r, "Fn"),
        TokenValue::Return => append_str(&mut r, "Return"),
        TokenValue::If => append_str(&mut r, "If"),
        TokenValue::Else => append_str(&mut r, "Else"),
        TokenValue::Semicolon => append_str(&mut r, "Semicolon"),
        TokenValue::Comma => append_str(&mut r, "Comma"),
        TokenValue::OpenParen => append_str(&mut r, "OpenParen"),
        TokenValue::CloseParen => append_str(&mut r, "CloseParen"),
        TokenValue::OpenBracket => append_str(&mut r, "OpenBracket"),
        TokenValue::CloseBracket => append_str(&mut r, "CloseBracket"),
        TokenValue::Arrow => append_str(&mut r, "Arrow"),
        TokenValue::Plus => append_str(&mut r, "Plus"),
        TokenValue::Minus => append_str(&mut r, "Minus"),
        TokenValue::Star => append_str(&mut r, "Star"),
        TokenValue::ForwardSlash => append_str(&mut r, "ForwardSlash"),
        TokenValue::Bang => append_str(&mut r, "Bang"),
        TokenValue::Equal => append_str(&mut r, "Equal"),
        TokenValue::EqualEqual => append_str(&mut r, "EqualEqual"),
        TokenValue::BangEqual => append_str(&mut r, "BangEqual"),
        TokenValue::LessThan => append_str(&mut r, "LessThan"),
        TokenValue::LessThanEqual => append_str(&mut r, "LessThanEqual"),
        TokenValue::GreaterThan => append_str(&mut r, "GreaterThan"),
        TokenValue::GreaterThanEqual => append_str(&mut r, "GreaterThanEqual"),
        TokenValue::EndOfFile => append_str(&mut r, "EndOfFile"),
    }
    proof {
        assert(r@ =~= describe(v@));
    }
    append_str(out, r.as_str());
}

/// The text of a diagnostic.
pub open spec fn message_spec(k: ErrorKindV) -> Seq<char> {
    match k {
        ErrorKindV::InvalidCharacter(c) => "invalid char "@.push(c),
        ErrorKindV::UnterminatedString => "Unclosed String"@,
        ErrorKindV::UnexpectedToken { expected, found } => "expected "@ + describe(expected) + " found "@ + describe(found),
        ErrorKindV::ExpectedExpression(f) => "expected expression found "@ + describe(f),
        ErrorKindV::ExpectedIdentifier(f) => "expected name found "@ + describe(f),
        ErrorKindV::ExpectedNumberAfterMinus(f) => "expected Number found "@ + describe(f),
        ErrorKindV::ExpectedTestName(f) => "expected test name found "@ + describe(f),
        ErrorKindV::ExpectedDefinition(f) => "expected fn found "@ + describe(f),
        ErrorKindV::NumberTooLarge => "Number literal too large"@,
        ErrorKindV::UnknownType => "Invalid type name"@,
        ErrorKindV::UndefinedName(n) => "Name "@ + n + " not defined"@,
        ErrorKindV::TypeMismatch { expected, got } => "expected "@ + expected.name_spec() + ", but got "@ + got.name_spec(),
        ErrorKindV::IllegalOperator(t) => "Unsupported operator for "@ + t.name_spec(),
        ErrorKindV::BadAssertType(t) => "Expected Boolean, got "@ + t.name_spec(),
        ErrorKindV::BadIfCondition(t) => "Expected Boolean, got "@ + t.name_spec(),
    }
}

impl CompileError {
    /// The diagnostic text of the error.
    pub fn message(&self) -> (r: String)
        ensures
            r@ == message_spec(self.kind@),
    {
        let mut r = String::new();
        match &self.kind {
            ErrorKind::InvalidCharacter(c) => {
                append_str(&mut r, "invalid char ");
                push_char(&mut r, *c);
            },
            ErrorKind::UnterminatedString => append_str(&mut r, "Unclosed String"),
            ErrorKind::UnexpectedToken { expected, found } => {
                append_str(&mut r, "expected ");
                push_description(&mut r, expected);
                append_str(&mut r, " found ");
                push_description(&mut r, found);
            },
            ErrorKind::ExpectedExpression(f) => {
                append_str(&mut r, "expected expression found ");
                push_description(&mut r, f);
            },
            ErrorKind::ExpectedIdentifier(f) => {
                append_str(&mut r, "expected name found ");
                push_description(&mut r, f);
            },
            ErrorKind::ExpectedNumberAfterMinus(f) => {
                append_str(&mut r, "expected Number found ");
                push_description(&mut r, f);
            },
            ErrorKind::ExpectedTestName(f) => {
                append_str(&mut r, "expected test name found ");
                push_description(&mut r, f);
            },
            ErrorKind::ExpectedDefinition(f) => {
                append_str(&mut r, "expected fn found ");
                push_description(&mut r, f);
            },
            ErrorKind::NumberTooLarge => append_str(&mut r, "Number literal too large"),
            ErrorKind::UnknownType => append_str(&mut r, "Invalid type name"),
            ErrorKind::UndefinedName(n) => {
                append_str(&mut r, "Name ");
                append_str(&mut r, n.as_str());
                append_str(&mut r, " not defined");
            },
            ErrorKind::TypeMismatch { expected, got } => {
                append_str(&mut r, "expected ");
                append_str(&mut r, expected.name());
                append_str(&mut r, ", but got ");
                append_str(&mut r, got.name());
            },
            ErrorKind::IllegalOperator(t) => {
                append_str(&mut r, "Unsupported operator for ");
                append_str(&mut r, t.name());
            },
            ErrorKind::BadAssertType(t) | ErrorKind::BadIfCondition(t) => {
                append_str(&mut r, "Expected Boolean, got ");
                append_str(&mut r, t.name());
            },
        }
        proof {
            assert(r@ =~= message_spec(self.kind@));
        }
        r
    }
}

} // verus!
