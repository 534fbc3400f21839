use vstd::prelude::*;

use crate::source_location::SourceLocation;
use crate::tokens::{TokenValue, TokenValueV};
use crate::types::TypeInformation;

verus! {

/// Why compilation stopped.
#[derive(Debug, PartialEq, Eq, Clone)]
#[allow(inconsistent_fields)]
pub enum ErrorKind {
    /// A character that starts no token.
    InvalidCharacter(char),
    /// A string literal without its closing quote on the same line.
    UnterminatedString,
    /// `expected` was required, `found` came.
    UnexpectedToken { expected: TokenValue, found: TokenValue },
    /// An expression was required.
    ExpectedExpression(TokenValue),
    /// A name was required (function name, return type name).
    ExpectedIdentifier(TokenValue),
    /// `-` in an expression must be followed by a number.
    ExpectedNumberAfterMinus(TokenValue),
    /// A test statement must be named by a string literal.
    ExpectedTestName(TokenValue),
    /// Only function definitions stand at the top level.
    ExpectedDefinition(TokenValue),
    /// A number literal beyond the range of a 32-bit signed integer.
    NumberTooLarge,
    /// A return type name outside the built-in types.
    UnknownType,
    /// A variable read before any assignment to it.
    UndefinedName(String),
    /// A value of type `got` where `expected` was required.
    TypeMismatch { expected: TypeInformation, got: TypeInformation },
    /// An operator that the operand type does not support.
    IllegalOperator(TypeInformation),
    /// An assertion or test of a non-boolean value.
    BadAssertType(TypeInformation),
    /// An `if` whose condition is not boolean.
    BadIfCondition(TypeInformation),
}

#[allow(inconsistent_fields)]
pub ghost enum ErrorKindV {
    InvalidCharacter(char),
    UnterminatedString,
    UnexpectedToken { expected: TokenValueV, found: TokenValueV },
    ExpectedExpression(TokenValueV),
    ExpectedIdentifier(TokenValueV),
    ExpectedNumberAfterMinus(TokenValueV),
    ExpectedTestName(TokenValueV),
    ExpectedDefinition(TokenValueV),
    NumberTooLarge,
    UnknownType,
    UndefinedName(Seq<char>),
    TypeMismatch { expected: TypeInformation, got: TypeInformation },
    IllegalOperator(TypeInformation),
    BadAssertType(TypeInformation),
    BadIfCondition(TypeInformation),
}

impl View for ErrorKind {
    type V = ErrorKindV;

    open spec fn view(&self) -> ErrorKindV {
        match self {
            ErrorKind::InvalidCharacter(c) => ErrorKindV::InvalidCharacter(*c),
            ErrorKind::UnterminatedString => ErrorKindV::UnterminatedString,
            ErrorKind::UnexpectedToken { expected, found } => ErrorKindV::UnexpectedToken {
                expected: expected@,
                found: found@,
            },
            ErrorKind::ExpectedExpression(t) => ErrorKindV::ExpectedExpression(t@),
            ErrorKind::ExpectedIdentifier(t) => ErrorKindV::ExpectedIdentifier(t@),
            ErrorKind::ExpectedNumberAfterMinus(t) => ErrorKindV::ExpectedNumberAfterMinus(t@),
            ErrorKind::ExpectedTestName(t) => ErrorKindV::ExpectedTestName(t@),
            ErrorKind::ExpectedDefinition(t) => ErrorKindV::ExpectedDefinition(t@),
            ErrorKind::NumberTooLarge => ErrorKindV::NumberTooLarge,
            ErrorKind::UnknownType => ErrorKindV::UnknownType,
            ErrorKind::UndefinedName(n) => ErrorKindV::UndefinedName(n@),
            ErrorKind::TypeMismatch { expected, got } => ErrorKindV::TypeMismatch {
                expected: *expected,
                got: *got,
            },
            ErrorKind::IllegalOperator(t) => ErrorKindV::IllegalOperator(*t),
            ErrorKind::BadAssertType(t) => ErrorKindV::BadAssertType(*t),
            ErrorKind::BadIfCondition(t) => ErrorKindV::BadIfCondition(*t),
        }
    }
}

/// A compilation error: where it is, and what it is.
#[derive(Debug, PartialEq, Eq, Clone)]
pub struct CompileError {
    pub location: SourceLocation,
    pub kind: ErrorKind,
}

pub ghost struct CompileErrorV {
    pub location: SourceLocation,
    pub kind: ErrorKindV,
}

impl View for CompileError {
    type V = CompileErrorV;

    open spec fn view(&self) -> CompileErrorV {
        CompileErrorV { location: self.location, kind: self.kind@ }
    }
}

pub open spec fn error_at(location: SourceLocation, kind: ErrorKindV) -> CompileErrorV {
    CompileErrorV { location, kind }
}

/// The outcome of a compilation step.
pub type CompilerResult<T> = Result<T, CompileError>;

} // verus!
