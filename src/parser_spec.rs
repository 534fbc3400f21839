use vstd::prelude::*;

use crate::ast::{
    chain_view, body_view, expr_view, stmt_view, Comparison, ExprV, Expression, ExpressionMetadata,
    FunctionV, LiteralV, MetaV, Operator, PrefixOprator, Statement, StmtV,
};
use crate::errors::{error_at, CompileErrorV, ErrorKindV};
use crate::source_location::SourceLocation;
use crate::tokens::{TokenV, TokenValueV};

verus! {

broadcast use vstd::seq::group_seq_axioms;

/// A parse of something from position `p` on: the result and the position after it.
pub type PResult<T> = Result<(T, int), CompileErrorV>;

/// The token at `p`; past the end, an `EndOfFile` token.
pub open spec fn tok(ts: Seq<TokenV>, p: int) -> TokenV {
    if 0 <= p < ts.len() {
        ts[p]
    } else {
        TokenV {
            value: TokenValueV::EndOfFile,
            source_location: SourceLocation { line_start: 0, line_end: 0, char_start: 0, char_end: 0 },
        }
    }
}

/// The position after the token at `p`; the end of the tokens is never passed.
pub open spec fn next(ts: Seq<TokenV>, p: int) -> int {
    if p < ts.len() {
        p + 1
    } else {
        p
    }
}

pub open spec fn fresh(location: SourceLocation) -> ExpressionMetadata {
    ExpressionMetadata { location, type_information: None }
}

/// The value of a sequence of decimal digits.
pub open spec fn digits_value(ds: Seq<char>) -> int
    decreases ds.len(),
{
    if ds.len() == 0 {
        0
    } else {
        digits_value(ds.drop_last()) * 10 + (ds.last() as int - '0' as int)
    }
}

pub const NUMBER_MAX: i64 = 2147483647;

pub open spec fn all_digits(ds: Seq<char>) -> bool {
    forall|k: int| 0 <= k < ds.len() ==> '0' <= #[trigger] ds[k] && ds[k] <= '9'
}

/// Tokens as the lexer makes them: number tokens hold decimal digits only.
pub open spec fn numbers_are_digits(ts: Seq<TokenV>) -> bool {
    forall|k: int| 0 <= k < ts.len() ==> ((#[trigger] ts[k]).value matches TokenValueV::Number(ds) ==> all_digits(ds))
}


/// The largest magnitude a number literal may have: one more for a negative
/// literal, whose value may be the least 32-bit signed integer.
pub open spec fn number_limit(negative: bool) -> int {
    if negative {
        NUMBER_MAX + 1
    } else {
        NUMBER_MAX as int
    }
}

/// A number literal: the value of its digits, negated when `negative`, which
/// must fit a 32-bit signed integer.
pub open spec fn number_literal(ds: Seq<char>, negative: bool, at: SourceLocation, p: int) -> PResult<ExprV> {
    if digits_value(ds) > number_limit(negative) {
        Err(error_at(at, ErrorKindV::NumberTooLarge))
    } else {
        let v = if negative { -digits_value(ds) } else { digits_value(ds) };
        Ok((ExprV::Literal(fresh(at), LiteralV::Number(v as i32)), p))
    }
}

/// `expected` at `p`; the position after it.
pub open spec fn expect(ts: Seq<TokenV>, p: int, expected: TokenValueV) -> Result<int, CompileErrorV> {
    if tok(ts, p).value == expected {
        Ok(next(ts, p))
    } else {
        Err(
            error_at(
                tok(ts, p).source_location,
                ErrorKindV::UnexpectedToken { expected, found: tok(ts, p).value },
            ),
        )
    }
}

/// A literal, a variable, or a negative number.
pub open spec fn literal(ts: Seq<TokenV>, p: int) -> PResult<ExprV> {
    let t = tok(ts, p);
    let pos1 = next(ts, p);
    match t.value {
        TokenValueV::String(c) => Ok((ExprV::Literal(fresh(t.source_location), LiteralV::String(c)), pos1)),
        TokenValueV::Number(ds) => number_literal(ds, false, t.source_location, pos1),
        TokenValueV::True => Ok((ExprV::Literal(fresh(t.source_location), LiteralV::Boolean(true)), pos1)),
        TokenValueV::False => Ok(
            (ExprV::Literal(fresh(t.source_location), LiteralV::Boolean(false)), pos1),
        ),
        TokenValueV::Minus => {
            let d = tok(ts, pos1);
            match d.value {
                TokenValueV::Number(ds) => number_literal(
                    ds,
                    true,
                    SourceLocation::union(t.source_location, d.source_location),
                    next(ts, pos1),
                ),
                _ => Err(error_at(d.source_location, ErrorKindV::ExpectedNumberAfterMinus(d.value))),
            }
        },
        TokenValueV::Identifier(n) => Ok((ExprV::Var(fresh(t.source_location), n), pos1)),
        v => Err(error_at(t.source_location, ErrorKindV::ExpectedExpression(v))),
    }
}

/// The operator of precedence `level` that a token stands for.
pub open spec fn operator_at(level: nat, v: TokenValueV) -> Option<Operator> {
    if level == 0 {
        match v {
            TokenValueV::Plus => Some(Operator::Add),
            TokenValueV::Minus => Some(Operator::Sub),
            _ => None,
        }
    } else if level == 1 {
        match v {
            TokenValueV::Star => Some(Operator::Mul),
            TokenValueV::ForwardSlash => Some(Operator::Div),
            _ => None,
        }
    } else {
        None
    }
}

pub open spec fn comparison_of(v: TokenValueV) -> Option<Comparison> {
    match v {
        TokenValueV::EqualEqual => Some(Comparison::Equal),
        TokenValueV::BangEqual => Some(Comparison::NotEqual),
        TokenValueV::LessThan => Some(Comparison::LessThan),
        TokenValueV::LessThanEqual => Some(Comparison::LessThanEqual),
        TokenValueV::GreaterThan => Some(Comparison::GreaterThan),
        TokenValueV::GreaterThanEqual => Some(Comparison::GreaterThanEqual),
        _ => None,
    }
}

/// The span of a comparison chain: the union of the spans of all its members.
pub open spec fn chain_span(first: SourceLocation, cs: Seq<(Comparison, ExprV)>) -> SourceLocation
    decreases cs.len(),
{
    if cs.len() == 0 {
        first
    } else {
        SourceLocation::union(chain_span(first, cs.drop_last()), cs.last().1.location())
    }
}

pub open spec fn binary_rank(level: nat) -> nat {
    if level == 0 {
        6
    } else if level == 1 {
        4
    } else {
        3
    }
}

/// An error for a parse that did not move forward. Parses always consume a
/// token on success, so no result is ever this.
pub open spec fn stalled(ts: Seq<TokenV>, p: int) -> CompileErrorV {
    error_at(tok(ts, p).source_location, ErrorKindV::ExpectedExpression(tok(ts, p).value))
}

/// An expression: the comparison layer is the outermost.
pub open spec fn expression(ts: Seq<TokenV>, p: int) -> PResult<ExprV>
    decreases (ts.len() - p) as nat, 9nat,
{
    comparison(ts, p)
}

/// Operands of additive level joined by comparisons; one operand alone is returned as it is.
pub open spec fn comparison(ts: Seq<TokenV>, p: int) -> PResult<ExprV>
    decreases (ts.len() - p) as nat, 8nat,
{
    match binary(ts, 0, p) {
        Ok((first, pos1)) => if !(p <= pos1 <= ts.len()) {
            Err(stalled(ts, p))
        } else {
            comparison_rest(ts, first, Seq::empty(), pos1)
        },
        Err(e) => Err(e),
    }
}

pub open spec fn comparison_rest(
    ts: Seq<TokenV>,
    first: ExprV,
    acc: Seq<(Comparison, ExprV)>,
    p: int,
) -> PResult<ExprV>
    decreases (ts.len() - p) as nat, 7nat,
{
    match comparison_of(tok(ts, p).value) {
        Some(c) => match binary(ts, 0, next(ts, p)) {
            Ok((r, pos2)) => if !(p < pos2 <= ts.len()) {
                Err(stalled(ts, p))
            } else {
                comparison_rest(ts, first, acc.push((c, r)), pos2)
            },
            Err(e) => Err(e),
        },
        None => if acc.len() == 0 {
            Ok((first, p))
        } else {
            Ok(
                (
                    ExprV::ComparisonChain {
                        first_element: Box::new(first),
                        comparisons: acc,
                        metadata: fresh(chain_span(first.location(), acc)),
                    },
                    p,
                ),
            )
        },
    }
}

/// Operands of precedence `level + 1` joined, to the left, by operators of `level`.
pub open spec fn binary(ts: Seq<TokenV>, level: nat, p: int) -> PResult<ExprV>
    decreases (ts.len() - p) as nat, binary_rank(level),
{
    if level >= 2 {
        prefix(ts, p)
    } else {
        match binary(ts, level + 1, p) {
            Ok((left, pos1)) => if !(p <= pos1 <= ts.len()) {
                Err(stalled(ts, p))
            } else {
                binary_rest(ts, level, left, pos1)
            },
            Err(e) => Err(e),
        }
    }
}

pub open spec fn binary_rest(ts: Seq<TokenV>, level: nat, left: ExprV, p: int) -> PResult<ExprV>
    decreases (ts.len() - p) as nat, (if level == 0 { 5nat } else { 3nat }),
{
    if level >= 2 {
        Ok((left, p))
    } else {
        match operator_at(level, tok(ts, p).value) {
            Some(op) => match binary(ts, level + 1, next(ts, p)) {
                Ok((right, pos2)) => if !(p < pos2 <= ts.len()) {
                    Err(stalled(ts, p))
                } else {
                    binary_rest(
                        ts,
                        level,
                        ExprV::Binary {
                            left: Box::new(left),
                            operator: op,
                            right: Box::new(right),
                            metadata: fresh(SourceLocation::union(left.location(), right.location())),
                        },
                        pos2,
                    )
                },
                Err(e) => Err(e),
            },
            None => Ok((left, p)),
        }
    }
}

/// `!` applied to a prefix expression, or a group.
pub open spec fn prefix(ts: Seq<TokenV>, p: int) -> PResult<ExprV>
    decreases (ts.len() - p) as nat, 2nat,
{
    if tok(ts, p).value == TokenValueV::Bang {
        match prefix(ts, next(ts, p)) {
            Ok((e, pos2)) => Ok(
                (
                    ExprV::PrefixExpression {
                        op: PrefixOprator::Not,
                        expression: Box::new(e),
                        metadata: fresh(SourceLocation::union(tok(ts, p).source_location, e.location())),
                    },
                    pos2,
                ),
            ),
            Err(e) => Err(e),
        }
    } else {
        group(ts, p)
    }
}

/// An expression in parentheses, or a literal.
pub open spec fn group(ts: Seq<TokenV>, p: int) -> PResult<ExprV>
    decreases (ts.len() - p) as nat, 1nat,
{
    if tok(ts, p).value == TokenValueV::OpenParen {
        match expression(ts, next(ts, p)) {
            Ok((e, pos2)) => match expect(ts, pos2, TokenValueV::CloseParen) {
                Ok(pos3) => Ok((e, pos3)),
                Err(err) => Err(err),
            },
            Err(err) => Err(err),
        }
    } else {
        literal(ts, p)
    }
}

// ---------------------------------------------------------------------------
// Statements.
// ---------------------------------------------------------------------------

/// A keyword, an expression and a semicolon; `kind` picks the statement
/// (0: print, 1: assert, otherwise return).
pub open spec fn keyword_statement(ts: Seq<TokenV>, p: int, kind: nat) -> PResult<StmtV> {
    match expression(ts, next(ts, p)) {
        Ok((e, pos2)) => match expect(ts, pos2, TokenValueV::Semicolon) {
            Ok(pos3) => Ok(
                (
                    if kind == 0 {
                        StmtV::Print(e)
                    } else if kind == 1 {
                        StmtV::Assert(e)
                    } else {
                        StmtV::Return(e)
                    },
                    pos3,
                ),
            ),
            Err(err) => Err(err),
        },
        Err(err) => Err(err),
    }
}

/// `NAME = EXPR ;`, where the token at `p` is the name.
pub open spec fn assignment(ts: Seq<TokenV>, p: int, name: Seq<char>) -> PResult<StmtV> {
    match expect(ts, next(ts, p), TokenValueV::Equal) {
        Ok(pos2) => match expression(ts, pos2) {
            Ok((e, pos3)) => match expect(ts, pos3, TokenValueV::Semicolon) {
                Ok(pos4) => Ok(
                    (
                        StmtV::Assignment {
                            expression_location: SourceLocation::union(
                                tok(ts, p).source_location,
                                e.location(),
                            ),
                            var_name: name,
                            expression: e,
                        },
                        pos4,
                    ),
                ),
                Err(err) => Err(err),
            },
            Err(err) => Err(err),
        },
        Err(err) => Err(err),
    }
}

/// `test "NAME" -> EXPR ;`
pub open spec fn test_statement(ts: Seq<TokenV>, p: int) -> PResult<StmtV> {
    let pos1 = next(ts, p);
    let name = tok(ts, pos1);
    match name.value {
        TokenValueV::String(n) => match expect(ts, next(ts, pos1), TokenValueV::Arrow) {
            Ok(pos2) => match expression(ts, pos2) {
                Ok((e, pos3)) => match expect(ts, pos3, TokenValueV::Semicolon) {
                    Ok(pos4) => Ok((StmtV::Test(n, e), pos4)),
                    Err(err) => Err(err),
                },
                Err(err) => Err(err),
            },
            Err(err) => Err(err),
        },
        v => Err(error_at(name.source_location, ErrorKindV::ExpectedTestName(v))),
    }
}

/// `if EXPR { ... }`, with an optional `else { ... }` or `else if ...`.
pub open spec fn if_statement(ts: Seq<TokenV>, p: int) -> PResult<StmtV>
    decreases (ts.len() - p) as nat, 0nat,
{
    match expression(ts, next(ts, p)) {
        Ok((condition, pos1)) => if !(p < pos1 <= ts.len()) {
            Err(stalled(ts, p))
        } else {
            match code_block(ts, pos1) {
                Ok((then, pos2)) => if !(p < pos2 <= ts.len()) {
                    Err(stalled(ts, p))
                } else if tok(ts, pos2).value == TokenValueV::Else {
                    let pos3 = next(ts, pos2);
                    if tok(ts, pos3).value == TokenValueV::If {
                        match if_statement(ts, pos3) {
                            Ok((s, pos4)) => Ok((StmtV::If { condition, then, otherwise: seq![s] }, pos4)),
                            Err(err) => Err(err),
                        }
                    } else {
                        match code_block(ts, pos3) {
                            Ok((otherwise, pos4)) => Ok((StmtV::If { condition, then, otherwise }, pos4)),
                            Err(err) => Err(err),
                        }
                    }
                } else {
                    Ok((StmtV::If { condition, then, otherwise: Seq::empty() }, pos2))
                },
                Err(err) => Err(err),
            }
        },
        Err(err) => Err(err),
    }
}

pub open spec fn some_statement(r: PResult<StmtV>) -> PResult<Option<StmtV>> {
    match r {
        Ok((s, pos2)) => Ok((Some(s), pos2)),
        Err(e) => Err(e),
    }
}

/// A statement, chosen by its first token; `None` when that token starts no statement.
pub open spec fn statement(ts: Seq<TokenV>, p: int) -> PResult<Option<StmtV>>
    decreases (ts.len() - p) as nat, 1nat,
{
    match tok(ts, p).value {
        TokenValueV::Print => some_statement(keyword_statement(ts, p, 0)),
        TokenValueV::Assert => some_statement(keyword_statement(ts, p, 1)),
        TokenValueV::Identifier(n) => some_statement(assignment(ts, p, n)),
        TokenValueV::Return => some_statement(keyword_statement(ts, p, 2)),
        TokenValueV::Test => some_statement(test_statement(ts, p)),
        TokenValueV::If => some_statement(if_statement(ts, p)),
        _ => Ok((None, p)),
    }
}

pub open spec fn statements(ts: Seq<TokenV>, acc: Seq<StmtV>, p: int) -> PResult<Seq<StmtV>>
    decreases (ts.len() - p) as nat, 2nat,
{
    match statement(ts, p) {
        Ok((Some(s), pos2)) => if !(p < pos2 <= ts.len()) {
            Err(stalled(ts, p))
        } else {
            statements(ts, acc.push(s), pos2)
        },
        Ok((None, pos2)) => Ok((acc, pos2)),
        Err(e) => Err(e),
    }
}

/// `{ statements }`
pub open spec fn code_block(ts: Seq<TokenV>, p: int) -> PResult<Seq<StmtV>>
    decreases (ts.len() - p) as nat, 3nat,
{
    match expect(ts, p, TokenValueV::OpenBracket) {
        Ok(pos1) => if !(p < pos1 <= ts.len()) {
            Err(stalled(ts, p))
        } else {
            match statements(ts, Seq::empty(), pos1) {
                Ok((body, pos2)) => match expect(ts, pos2, TokenValueV::CloseBracket) {
                    Ok(pos3) => Ok((body, pos3)),
                    Err(err) => Err(err),
                },
                Err(err) => Err(err),
            }
        },
        Err(err) => Err(err),
    }
}

// ---------------------------------------------------------------------------
// Top level.
// ---------------------------------------------------------------------------

pub open spec fn no_metadata() -> MetaV {
    MetaV { var_types: Seq::empty(), return_type: None }
}

/// `fn NAME ( ) -> TYPE { body }`
pub open spec fn function_definition(ts: Seq<TokenV>, p: int) -> PResult<FunctionV> {
    match expect(ts, p, TokenValueV::Fn) {
        Ok(pos1) => {
            let nt = tok(ts, pos1);
            match nt.value {
                TokenValueV::Identifier(name) => match expect(ts, next(ts, pos1), TokenValueV::OpenParen) {
                    Ok(pos2) => match expect(ts, pos2, TokenValueV::CloseParen) {
                        Ok(pos3) => match expect(ts, pos3, TokenValueV::Arrow) {
                            Ok(pos4) => {
                                let rt = tok(ts, pos4);
                                match rt.value {
                                    TokenValueV::Identifier(ret_name) => match code_block(
                                        ts,
                                        next(ts, pos4),
                                    ) {
                                        Ok((body, pos5)) => Ok(
                                            (
                                                FunctionV {
                                                    function_name: name,
                                                    body,
                                                    return_type_name: ret_name,
                                                    return_type_location: rt.source_location,
                                                    metadata: no_metadata(),
                                                },
                                                pos5,
                                            ),
                                        ),
                                        Err(err) => Err(err),
                                    },
                                    v => Err(error_at(rt.source_location, ErrorKindV::ExpectedIdentifier(v))),
                                }
                            },
                            Err(err) => Err(err),
                        },
                        Err(err) => Err(err),
                    },
                    Err(err) => Err(err),
                },
                v => Err(error_at(nt.source_location, ErrorKindV::ExpectedIdentifier(v))),
            }
        },
        Err(err) => Err(err),
    }
}

pub open spec fn toplevel(ts: Seq<TokenV>, p: int) -> PResult<Option<FunctionV>> {
    match tok(ts, p).value {
        TokenValueV::Fn => match function_definition(ts, p) {
            Ok((f, pos2)) => Ok((Some(f), pos2)),
            Err(e) => Err(e),
        },
        TokenValueV::EndOfFile => Ok((None, p)),
        v => Err(error_at(tok(ts, p).source_location, ErrorKindV::ExpectedDefinition(v))),
    }
}

pub open spec fn definitions(ts: Seq<TokenV>, acc: Seq<FunctionV>, p: int) -> Result<Seq<FunctionV>, CompileErrorV>
    decreases (ts.len() - p) as nat,
{
    match toplevel(ts, p) {
        Ok((Some(f), pos2)) => if !(p < pos2 <= ts.len()) {
            Err(stalled(ts, p))
        } else {
            definitions(ts, acc.push(f), pos2)
        },
        Ok((None, _)) => Ok(acc),
        Err(e) => Err(e),
    }
}

/// The syntax tree of a token sequence, or the first error.
pub open spec fn parse_spec(ts: Seq<TokenV>) -> Result<Seq<FunctionV>, CompileErrorV> {
    definitions(ts, Seq::empty(), 0)
}

/// One step of the statement loop of a block.
pub proof fn lemma_statements_step(ts: Seq<TokenV>, acc: Seq<StmtV>, q: int)
    ensures
        statement(ts, q) matches Ok((Some(sv), q2)) ==> (q < q2 <= ts.len() ==> statements(ts, acc, q)
            == statements(ts, acc.push(sv), q2)),
        statement(ts, q) matches Ok((None, q2)) ==> statements(ts, acc, q) == Ok::<
            (Seq<StmtV>, int),
            crate::errors::CompileErrorV,
        >((acc, q2)),
        statement(ts, q) matches Err(e) ==> statements(ts, acc, q) == Err::<
            (Seq<StmtV>, int),
            crate::errors::CompileErrorV,
        >(e),
{
    reveal_with_fuel(statements, 1);
    match statement(ts, q) {
        Ok((Some(sv), q2)) => {
            if q < q2 <= ts.len() {
                assert(statements(ts, acc, q) == statements(ts, acc.push(sv), q2));
            }
        },
        Ok((None, q2)) => {
            assert(statements(ts, acc, q) == Ok::<(Seq<StmtV>, int), CompileErrorV>((acc, q2)));
        },
        Err(e) => {
            assert(statements(ts, acc, q) == Err::<(Seq<StmtV>, int), CompileErrorV>(e));
        },
    }
}

} // verus!
