use vstd::prelude::*;

use crate::ast::{
    body_well_formed, expr_well_formed, file_well_formed, stmt_well_formed,
    body_view, chain_view, expr_view, CodeBody, Comparison, Expression, ExpressionMetadata, File,
    FunctionMetadata, LiteralType, Operator, PrefixOprator, Statement, TopLevelStatement,
};
use crate::errors::{CompileError, CompilerResult, ErrorKind};
use crate::parser_spec::{
    all_digits, assignment, binary, binary_rank, binary_rest, chain_span, code_block, comparison,
    comparison_of, comparison_rest, definitions, digits_value, expect, expression, function_definition,
    group, if_statement, keyword_statement, literal, next, number_literal, numbers_are_digits,
    operator_at, parse_spec, prefix, statement, statements, lemma_statements_step, test_statement, tok, toplevel, PResult,
    NUMBER_MAX, no_metadata,
};
use crate::types_analyzer::{lemma_body_view_index, lemma_chain_view_index};
use crate::source_location::SourceLocation;
use crate::tokens::{clone_value, same_value, tokens_view, Token, TokenV, TokenValue};

verus! {

broadcast use vstd::seq::group_seq_axioms;

/// Builds the syntax tree of a token sequence by recursive descent, with
/// precedence climbing for binary operators.
pub struct SyntaxParser {
    tokens: Vec<Token>,
    position: usize,
}

/// How an exec parse result corresponds to the grammar's.
pub open spec fn agrees<T: View>(r: CompilerResult<(T, usize)>, s: PResult<T::V>) -> bool {
    match r {
        Ok((x, q)) => s == Ok::<(T::V, int), crate::errors::CompileErrorV>((x@, q as int)),
        Err(e) => s == Err::<(T::V, int), crate::errors::CompileErrorV>(e@),
    }
}

/// How an exec parse result of an optional item corresponds to the grammar's.
pub open spec fn agrees_opt<T: View>(r: CompilerResult<(Option<T>, usize)>, s: PResult<Option<T::V>>) -> bool {
    match r {
        Ok((Some(x), q)) => s == Ok::<(Option<T::V>, int), crate::errors::CompileErrorV>((Some(x@), q as int)),
        Ok((None, q)) => s == Ok::<(Option<T::V>, int), crate::errors::CompileErrorV>((None, q as int)),
        Err(e) => s == Err::<(Option<T::V>, int), crate::errors::CompileErrorV>(e@),
    }
}

/// A successful parse moves forward and stays within the tokens.
pub open spec fn advances<T>(r: CompilerResult<(T, usize)>, p: int, n: int) -> bool {
    r matches Ok((_, q)) ==> p < q <= n
}

/// The mathematical form of a parsed file.
pub open spec fn parsed(r: CompilerResult<File>) -> Result<Seq<crate::ast::FunctionV>, crate::errors::CompileErrorV> {
    match r {
        Ok(f) => Ok(f@),
        Err(e) => Err(e@),
    }
}

proof fn lemma_digits_value_grows(ds: Seq<char>, j: int)
    requires
        all_digits(ds),
        0 <= j <= ds.len(),
    ensures
        0 <= digits_value(ds.take(j)) <= digits_value(ds),
    decreases ds.len() - j,
{
    if j < ds.len() {
        lemma_digits_value_grows(ds, j + 1);
        assert(ds.take(j + 1).drop_last() =~= ds.take(j));
        assert('0' <= ds[j] <= '9');
    } else {
        assert(ds.take(j) =~= ds);
        lemma_digits_value_nonneg(ds);
    }
}

proof fn lemma_digits_value_nonneg(ds: Seq<char>)
    requires
        all_digits(ds),
    ensures
        digits_value(ds) >= 0,
    decreases ds.len(),
{
    if ds.len() > 0 {
        assert(all_digits(ds.drop_last()));
        lemma_digits_value_nonneg(ds.drop_last());
        assert('0' <= ds.last() <= '9');
    }
}

/// The value of a digit string, when it is at most `limit`.
fn digits_to_int(ds: &String, limit: i64) -> (r: Option<i64>)
    requires
        all_digits(ds@),
        0 <= limit <= NUMBER_MAX + 1,
    ensures
        match r {
            Some(v) => digits_value(ds@) <= limit && v == digits_value(ds@) && v >= 0,
            None => digits_value(ds@) > limit,
        },
{
    let s = ds.as_str();
    let n = s.unicode_len();
    let mut v: i64 = 0;
    let mut k: usize = 0;
    while k < n
        invariant
            s@ == ds@,
            n == ds@.len(),
            all_digits(ds@),
            0 <= limit <= NUMBER_MAX + 1,
            k <= n,
            v == digits_value(ds@.take(k as int)),
            0 <= v <= limit,
        decreases n - k,
    {
        let c = s.get_char(k);
        proof {
            assert(ds@.take(k + 1).drop_last() =~= ds@.take(k as int));
            assert('0' <= ds@[k as int] <= '9');
        }
        v = v * 10 + ((c as u32) - ('0' as u32)) as i64;
        k = k + 1;
        if v > limit {
            proof {
                lemma_digits_value_grows(ds@, k as int);
            }
            return None;
        }
    }
    assert(ds@.take(k as int) =~= ds@);
    Some(v)
}

fn fresh(location: SourceLocation) -> (r: ExpressionMetadata)
    ensures
        r == crate::parser_spec::fresh(location),
{
    ExpressionMetadata { location, type_information: None }
}

fn operator_at_exec(level: usize, v: &TokenValue) -> (r: Option<Operator>)
    ensures
        r == operator_at(level as nat, v@),
{
    match (level, v) {
        (0, TokenValue::Plus) => Some(Operator::Add),
        (0, TokenValue::Minus) => Some(Operator::Sub),
        (1, TokenValue::Star) => Some(Operator::Mul),
        (1, TokenValue::ForwardSlash) => Some(Operator::Div),
        _ => None,
    }
}

fn comparison_of_exec(v: &TokenValue) -> (r: Option<Comparison>)
    ensures
        r == comparison_of(v@),
{
    match v {
        TokenValue::EqualEqual => Some(Comparison::Equal),
        TokenValue::BangEqual => Some(Comparison::NotEqual),
        TokenValue::LessThan => Some(Comparison::LessThan),
        TokenValue::LessThanEqual => Some(Comparison::LessThanEqual),
        TokenValue::GreaterThan => Some(Comparison::GreaterThan),
        TokenValue::GreaterThanEqual => Some(Comparison::GreaterThanEqual),
        _ => None,
    }
}

impl SyntaxParser {
    /// The tokens, mathematically.
    pub closed spec fn toks(&self) -> Seq<TokenV> {
        tokens_view(self.tokens@)
    }

    pub closed spec fn at_start(&self) -> bool {
        self.position == 0
    }

    pub closed spec fn len(&self) -> int {
        self.tokens.len() as int
    }

    pub fn new(tokens: Vec<Token>) -> (r: Self)
        ensures
            r.toks() == tokens_view(tokens@),
            r.at_start(),
    {
        Self { tokens, position: 0 }
    }

    fn peek(&self, p: usize) -> (r: &TokenValue)
        ensures
            r@ == tok(self.toks(), p as int).value,
    {
        if p < self.tokens.len() {
            &self.tokens[p].value
        } else {
            &TokenValue::EndOfFile
        }
    }

    fn location(&self, p: usize) -> (r: SourceLocation)
        ensures
            r == tok(self.toks(), p as int).source_location,
    {
        if p < self.tokens.len() {
            self.tokens[p].source_location
        } else {
            SourceLocation { line_start: 0, line_end: 0, char_start: 0, char_end: 0 }
        }
    }

    fn next(&self, p: usize) -> (r: usize)
        ensures
            r == next(self.toks(), p as int),
    {
        if p < self.tokens.len() {
            p + 1
        } else {
            p
        }
    }

    fn expect(&self, p: usize, expected: TokenValue) -> (r: CompilerResult<usize>)
        requires
            p <= self.len(),
            expected@ != crate::tokens::TokenValueV::EndOfFile,
        ensures
            match r {
                Ok(q) => expect(self.toks(), p as int, expected@) == Ok::<int, crate::errors::CompileErrorV>(q as int)
                    && p < q <= self.len(),
                Err(e) => expect(self.toks(), p as int, expected@) == Err::<int, crate::errors::CompileErrorV>(e@),
            },
    {
        let found = self.peek(p);
        if same_value(found, &expected) {
            Ok(p + 1)
        } else {
            Err(
                CompileError {
                    location: self.location(p),
                    kind: ErrorKind::UnexpectedToken { expected, found: clone_value(found) },
                },
            )
        }
    }

    /// A number literal from its digit token.
    fn parse_number(&self, ds: &String, negative: bool, at: SourceLocation, q: usize) -> (r: CompilerResult<
        (Expression, usize),
    >)
        requires
            all_digits(ds@),
        ensures
            agrees(r, number_literal(ds@, negative, at, q as int)),
    {
        let limit = if negative { NUMBER_MAX + 1 } else { NUMBER_MAX };
        match digits_to_int(ds, limit) {
            Some(v) => {
                let value = if negative { (-v) as i32 } else { v as i32 };
                Ok((Expression::Literal(fresh(at), LiteralType::Number(value)), q))
            },
            None => Err(CompileError { location: at, kind: ErrorKind::NumberTooLarge }),
        }
    }

    pub fn parse_literal(&self, p: usize) -> (r: CompilerResult<(Expression, usize)>)
        requires
            p <= self.len(),
            numbers_are_digits(self.toks()),
        ensures
            r matches Ok((e, _)) ==> expr_well_formed(e@),
            agrees(r, literal(self.toks(), p as int)),
            advances(r, p as int, self.len()),
    {
        let at = self.location(p);
        let pos1 = self.next(p);
        match self.peek(p) {
            TokenValue::String(c) => Ok((Expression::Literal(fresh(at), LiteralType::String(c.clone())), pos1)),
            TokenValue::Number(ds) => {
                proof { assert(self.toks()[p as int].value == crate::tokens::TokenValueV::Number(ds@)); }
                self.parse_number(ds, false, at, pos1)
            },
            TokenValue::True => Ok((Expression::Literal(fresh(at), LiteralType::Boolean(true)), pos1)),
            TokenValue::False => Ok((Expression::Literal(fresh(at), LiteralType::Boolean(false)), pos1)),
            TokenValue::Minus => {
                let dat = self.location(pos1);
                match self.peek(pos1) {
                    TokenValue::Number(ds) => {
                        proof { assert(self.toks()[pos1 as int].value == crate::tokens::TokenValueV::Number(ds@)); }
                        let pos2 = self.next(pos1);
                        self.parse_number(ds, true, SourceLocation::combine(&at, &dat), pos2)
                    },
                    v => Err(CompileError { location: dat, kind: ErrorKind::ExpectedNumberAfterMinus(clone_value(v)) }),
                }
            },
            TokenValue::Identifier(n) => Ok((Expression::Var(fresh(at), n.clone()), pos1)),
            v => Err(CompileError { location: at, kind: ErrorKind::ExpectedExpression(clone_value(v)) }),
        }
    }

    pub fn parse_group(&self, p: usize) -> (r: CompilerResult<(Expression, usize)>)
        requires
            p <= self.len(),
            numbers_are_digits(self.toks()),
        ensures
            r matches Ok((e, _)) ==> expr_well_formed(e@),
            agrees(r, group(self.toks(), p as int)),
            advances(r, p as int, self.len()),
        decreases self.len() - p, 1nat,
    {
        match self.peek(p) {
            TokenValue::OpenParen => {
                match self.parse_expression(p + 1) {
                    Ok((e, pos2)) => match self.expect(pos2, TokenValue::CloseParen) {
                        Ok(pos3) => Ok((e, pos3)),
                        Err(err) => Err(err),
                    },
                    Err(err) => Err(err),
                }
            },
            _ => self.parse_literal(p),
        }
    }

    pub fn parse_prefix(&self, p: usize) -> (r: CompilerResult<(Expression, usize)>)
        requires
            p <= self.len(),
            numbers_are_digits(self.toks()),
        ensures
            r matches Ok((e, _)) ==> expr_well_formed(e@),
            agrees(r, prefix(self.toks(), p as int)),
            advances(r, p as int, self.len()),
        decreases self.len() - p, 2nat,
    {
        match self.peek(p) {
            TokenValue::Bang => {
                let at = self.location(p);
                match self.parse_prefix(p + 1) {
                    Ok((e, pos2)) => {
                        let location = SourceLocation::combine(&at, e.location());
                        Ok((
                            Expression::PrefixExpression {
                                op: PrefixOprator::Not,
                                expression: Box::new(e),
                                metadata: fresh(location),
                            },
                            pos2,
                        ))
                    },
                    Err(err) => Err(err),
                }
            },
            _ => self.parse_group(p),
        }
    }

    pub fn parse_binary_expression(&self, level: usize, p: usize) -> (r: CompilerResult<(Expression, usize)>)
        requires
            p <= self.len(),
            level <= 2,
            numbers_are_digits(self.toks()),
        ensures
            r matches Ok((e, _)) ==> expr_well_formed(e@),
            agrees(r, binary(self.toks(), level as nat, p as int)),
            advances(r, p as int, self.len()),
        decreases self.len() - p, binary_rank(level as nat),
    {
        if level >= 2 {
            return self.parse_prefix(p);
        }
        let (mut left, mut q) = match self.parse_binary_expression(level + 1, p) {
            Ok(x) => x,
            Err(err) => return Err(err),
        };
        loop
            invariant
                level < 2,
                p < q <= self.tokens.len(),
                numbers_are_digits(self.toks()),
                expr_well_formed(left@),
                binary(self.toks(), level as nat, p as int) == binary_rest(
                    self.toks(),
                    level as nat,
                    left@,
                    q as int,
                ),
            decreases self.tokens.len() - q,
        {
            match operator_at_exec(level, self.peek(q)) {
                None => return Ok((left, q)),
                Some(op) => {
                    match self.parse_binary_expression(level + 1, q + 1) {
                        Ok((right, q2)) => {
                            let location = SourceLocation::combine(left.location(), right.location());
                            left = Expression::Binary {
                                left: Box::new(left),
                                operator: op,
                                right: Box::new(right),
                                metadata: fresh(location),
                            };
                            q = q2;
                        },
                        Err(err) => return Err(err),
                    }
                },
            }
        }
    }

    pub fn parse_comparison(&self, p: usize) -> (r: CompilerResult<(Expression, usize)>)
        requires
            p <= self.len(),
            numbers_are_digits(self.toks()),
        ensures
            r matches Ok((e, _)) ==> expr_well_formed(e@),
            agrees(r, comparison(self.toks(), p as int)),
            advances(r, p as int, self.len()),
        decreases self.len() - p, 8nat,
    {
        let (first, mut q) = match self.parse_binary_expression(0, p) {
            Ok(x) => x,
            Err(err) => return Err(err),
        };
        let mut chains: Vec<(Comparison, Expression)> = Vec::new();
        let mut location = *first.location();
        proof {
            assert(chain_view(chains@) =~= Seq::empty());
        }
        loop
            invariant
                p < q <= self.tokens.len(),
                numbers_are_digits(self.toks()),
                comparison(self.toks(), p as int) == comparison_rest(
                    self.toks(),
                    first@,
                    chain_view(chains@),
                    q as int,
                ),
                location == chain_span(first@.location(), chain_view(chains@)),
                expr_well_formed(first@),
                location.contains(first@.location()),
                forall|i: int| 0 <= i < chains@.len() ==> location.contains((#[trigger] chains@[i]).1@.location())
                    && expr_well_formed(chains@[i].1@),
            decreases self.tokens.len() - q,
        {
            match comparison_of_exec(self.peek(q)) {
                None => {
                    if chains.len() == 0 {
                        return Ok((first, q));
                    }
                    proof {
                        lemma_chain_view_index(chains@);
                    }
                    return Ok((
                        Expression::ComparisonChain {
                            first_element: Box::new(first),
                            comparisons: chains,
                            metadata: fresh(location),
                        },
                        q,
                    ));
                },
                Some(c) => {
                    match self.parse_binary_expression(0, q + 1) {
                        Ok((right, q2)) => {
                            let ghost before = chain_view(chains@);
                            let ghost old_chains = chains@;
                            let ghost rv = right@;
                            location = SourceLocation::combine(&location, right.location());
                            chains.push((c, right));
                            proof {
                                                                assert(chains@.drop_last() =~= old_chains);
                                assert(chain_view(chains@) == before.push((c, rv)));
                                assert(before.push((c, rv)).drop_last() =~= before);
                            }
                            q = q2;
                        },
                        Err(err) => return Err(err),
                    }
                },
            }
        }
    }

    pub fn parse_expression(&self, p: usize) -> (r: CompilerResult<(Expression, usize)>)
        requires
            p <= self.len(),
            numbers_are_digits(self.toks()),
        ensures
            r matches Ok((e, _)) ==> expr_well_formed(e@),
            agrees(r, expression(self.toks(), p as int)),
            advances(r, p as int, self.len()),
        decreases self.len() - p, 9nat,
    {
        self.parse_comparison(p)
    }

    /// `print`, `assert` or `return` (by `kind`: 0, 1, 2), an expression and a semicolon.
    fn parse_keyword_statement(&self, p: usize, kind: u8) -> (r: CompilerResult<(Statement, usize)>)
        requires
            p < self.len(),
            numbers_are_digits(self.toks()),
        ensures
            r matches Ok((st, _)) ==> stmt_well_formed(st@),
            agrees(r, keyword_statement(self.toks(), p as int, kind as nat)),
            advances(r, p as int, self.len()),
    {
        match self.parse_expression(p + 1) {
            Ok((e, pos2)) => match self.expect(pos2, TokenValue::Semicolon) {
                Ok(pos3) => {
                    let st = if kind == 0 {
                        Statement::Print(e)
                    } else if kind == 1 {
                        Statement::Assert(e)
                    } else {
                        Statement::Return(e)
                    };
                    Ok((st, pos3))
                },
                Err(err) => Err(err),
            },
            Err(err) => Err(err),
        }
    }

    fn parse_assignment(&self, p: usize, var_name: String) -> (r: CompilerResult<(Statement, usize)>)
        requires
            p < self.len(),
            numbers_are_digits(self.toks()),
        ensures
            r matches Ok((st, _)) ==> stmt_well_formed(st@),
            agrees(r, assignment(self.toks(), p as int, var_name@)),
            advances(r, p as int, self.len()),
    {
        let at = self.location(p);
        match self.expect(p + 1, TokenValue::Equal) {
            Ok(pos2) => match self.parse_expression(pos2) {
                Ok((expression, pos3)) => match self.expect(pos3, TokenValue::Semicolon) {
                    Ok(pos4) => {
                        let expression_location = SourceLocation::combine(&at, expression.location());
                        Ok((Statement::Assignment { expression_location, var_name, expression }, pos4))
                    },
                    Err(err) => Err(err),
                },
                Err(err) => Err(err),
            },
            Err(err) => Err(err),
        }
    }

    fn parse_test(&self, p: usize) -> (r: CompilerResult<(Statement, usize)>)
        requires
            p < self.len(),
            numbers_are_digits(self.toks()),
        ensures
            r matches Ok((st, _)) ==> stmt_well_formed(st@),
            agrees(r, test_statement(self.toks(), p as int)),
            advances(r, p as int, self.len()),
    {
        let pos1 = p + 1;
        match self.peek(pos1) {
            TokenValue::String(name) => {
                let name = name.clone();
                let pos2 = self.next(pos1);
                match self.expect(pos2, TokenValue::Arrow) {
                    Ok(pos3) => match self.parse_expression(pos3) {
                        Ok((e, pos4)) => match self.expect(pos4, TokenValue::Semicolon) {
                            Ok(pos5) => Ok((Statement::Test(name, e), pos5)),
                            Err(err) => Err(err),
                        },
                        Err(err) => Err(err),
                    },
                    Err(err) => Err(err),
                }
            },
            v => Err(
                CompileError {
                    location: self.location(pos1),
                    kind: ErrorKind::ExpectedTestName(clone_value(v)),
                },
            ),
        }
    }

    fn parse_if(&self, p: usize) -> (r: CompilerResult<(Statement, usize)>)
        requires
            p < self.len(),
            numbers_are_digits(self.toks()),
        ensures
            r matches Ok((st, _)) ==> stmt_well_formed(st@),
            agrees(r, if_statement(self.toks(), p as int)),
            advances(r, p as int, self.len()),
        decreases self.len() - p, 0nat,
    {
        let (condition, pos1) = match self.parse_expression(p + 1) {
            Ok(x) => x,
            Err(err) => return Err(err),
        };
        let (then, pos2) = match self.parse_codeblock(pos1) {
            Ok(x) => x,
            Err(err) => return Err(err),
        };
        match self.peek(pos2) {
            TokenValue::Else => {
                let pos3 = pos2 + 1;
                match self.peek(pos3) {
                    TokenValue::If => match self.parse_if(pos3) {
                        Ok((st, pos4)) => {
                            let ghost sv = st@;
                            let otherwise = CodeBody(vec![st]);
                            proof {
                                assert(otherwise.0@.drop_last() =~= Seq::<Statement>::empty());
                                assert(body_view(Seq::<Statement>::empty()) =~= Seq::empty());
                                assert(otherwise@ =~= seq![sv]);
                            }
                            Ok((Statement::If { condition, then, otherwise }, pos4))
                        },
                        Err(err) => Err(err),
                    },
                    _ => match self.parse_codeblock(pos3) {
                        Ok((otherwise, pos4)) => Ok((Statement::If { condition, then, otherwise }, pos4)),
                        Err(err) => Err(err),
                    },
                }
            },
            _ => {
                let otherwise = CodeBody(Vec::new());
                proof {
                    assert(body_view(otherwise.0@) =~= Seq::empty());
                }
                Ok((Statement::If { condition, then, otherwise }, pos2))
            },
        }
    }

    /// A statement, or `None` where the token at `p` starts none.
    fn parse_statement(&self, p: usize) -> (r: CompilerResult<(Option<Statement>, usize)>)
        requires
            p <= self.len(),
            numbers_are_digits(self.toks()),
        ensures
            r matches Ok((Some(st), _)) ==> stmt_well_formed(st@),
            agrees_opt(r, statement(self.toks(), p as int)),
            r matches Ok((Some(_), q)) ==> p < q <= self.len(),
            r matches Ok((None, q)) ==> q == p,
        decreases self.len() - p, 1nat,
    {
        let r = match self.peek(p) {
            TokenValue::Print => self.parse_keyword_statement(p, 0),
            TokenValue::Assert => self.parse_keyword_statement(p, 1),
            TokenValue::Identifier(n) => {
                let name = n.clone();
                self.parse_assignment(p, name)
            },
            TokenValue::Return => self.parse_keyword_statement(p, 2),
            TokenValue::Test => self.parse_test(p),
            TokenValue::If => self.parse_if(p),
            _ => return Ok((None, p)),
        };
        match r {
            Ok((st, q)) => Ok((Some(st), q)),
            Err(err) => Err(err),
        }
    }

    /// The statements of a block from `p` on, after those in `body`.
    fn parse_statements(&self, body: Vec<Statement>, p: usize) -> (r: CompilerResult<(CodeBody, usize)>)
        requires
            body_well_formed(body_view(body@)),
            p <= self.len(),
            numbers_are_digits(self.toks()),
        ensures
            r matches Ok((b, _)) ==> body_well_formed(b@),
            agrees(r, statements(self.toks(), body_view(body@), p as int)),
            r matches Ok((_, q)) ==> p <= q <= self.len(),
        decreases self.len() - p, 2nat,
    {
        proof {
            lemma_statements_step(self.toks(), body_view(body@), p as int);
        }
        match self.parse_statement(p) {
            Ok((Some(st), q)) => {
                let mut body = body;
                let ghost before = body@;
                let ghost sv = st@;
                body.push(st);
                proof {
                    assert(body@.drop_last() =~= before);
                    assert(body_view(body@) == body_view(before).push(sv));
                    lemma_body_view_index(before);
                    lemma_body_view_index(body@);
                    assert(body_well_formed(body_view(body@)));
                }
                self.parse_statements(body, q)
            },
            Ok((None, q)) => Ok((CodeBody(body), q)),
            Err(err) => Err(err),
        }
    }

    fn parse_codeblock(&self, p: usize) -> (r: CompilerResult<(CodeBody, usize)>)
        requires
            p <= self.len(),
            numbers_are_digits(self.toks()),
        ensures
            r matches Ok((b, _)) ==> body_well_formed(b@),
            agrees(r, code_block(self.toks(), p as int)),
            advances(r, p as int, self.len()),
        decreases self.len() - p, 3nat,
    {
        let pos1 = match self.expect(p, TokenValue::OpenBracket) {
            Ok(q) => q,
            Err(err) => return Err(err),
        };
        let body: Vec<Statement> = Vec::new();
        proof {
            assert(body_view(body@) =~= Seq::empty());
        }
        match self.parse_statements(body, pos1) {
            Ok((body, pos2)) => match self.expect(pos2, TokenValue::CloseBracket) {
                Ok(pos3) => Ok((body, pos3)),
                Err(err) => Err(err),
            },
            Err(err) => Err(err),
        }
    }

    fn parse_function_definition(&self, p: usize) -> (r: CompilerResult<(TopLevelStatement, usize)>)
        requires
            p <= self.len(),
            numbers_are_digits(self.toks()),
        ensures
            r matches Ok((f, _)) ==> body_well_formed(f@.body) && f@.metadata == no_metadata(),
            agrees(r, function_definition(self.toks(), p as int)),
            advances(r, p as int, self.len()),
    {
        let pos1 = match self.expect(p, TokenValue::Fn) {
            Ok(q) => q,
            Err(err) => return Err(err),
        };
        let function_name = match self.peek(pos1) {
            TokenValue::Identifier(n) => n.clone(),
            v => return Err(CompileError { location: self.location(pos1), kind: ErrorKind::ExpectedIdentifier(clone_value(v)) }),
        };
        let pos2 = match self.expect(pos1 + 1, TokenValue::OpenParen) {
            Ok(q) => q,
            Err(err) => return Err(err),
        };
        let pos3 = match self.expect(pos2, TokenValue::CloseParen) {
            Ok(q) => q,
            Err(err) => return Err(err),
        };
        let pos4 = match self.expect(pos3, TokenValue::Arrow) {
            Ok(q) => q,
            Err(err) => return Err(err),
        };
        let return_type_location = self.location(pos4);
        let return_type_name = match self.peek(pos4) {
            TokenValue::Identifier(n) => n.clone(),
            v => return Err(CompileError { location: return_type_location, kind: ErrorKind::ExpectedIdentifier(clone_value(v)) }),
        };
        let (body, pos5) = match self.parse_codeblock(pos4 + 1) {
            Ok(x) => x,
            Err(err) => return Err(err),
        };
        let metadata = FunctionMetadata { var_types: Vec::new(), return_type: None };
        proof {
            assert(metadata@.var_types =~= Seq::empty());
        }
        Ok((
            TopLevelStatement::FunctionDefinition {
                function_name,
                body,
                return_type_name,
                return_type_location,
                metadata,
            },
            pos5,
        ))
    }

    fn parse_toplevel_statement(&self, p: usize) -> (r: CompilerResult<(Option<TopLevelStatement>, usize)>)
        requires
            p <= self.len(),
            numbers_are_digits(self.toks()),
        ensures
            r matches Ok((Some(f), _)) ==> body_well_formed(f@.body) && f@.metadata == no_metadata(),
            agrees_opt(r, toplevel(self.toks(), p as int)),
            r matches Ok((Some(_), q)) ==> p < q <= self.len(),
    {
        match self.peek(p) {
            TokenValue::Fn => match self.parse_function_definition(p) {
                Ok((f, q)) => Ok((Some(f), q)),
                Err(err) => Err(err),
            },
            TokenValue::EndOfFile => Ok((None, p)),
            v => Err(CompileError { location: self.location(p), kind: ErrorKind::ExpectedDefinition(clone_value(v)) }),
        }
    }

    /// The syntax tree of the remaining tokens: function definitions up to `EndOfFile`.
    pub fn parse_file(&mut self) -> (r: CompilerResult<File>)
        requires
            old(self).at_start(),
            numbers_are_digits(old(self).toks()),
        ensures
            r matches Ok(f) ==> file_well_formed(f@),
            parsed(r) == parse_spec(old(self).toks()),
    {
        let mut statements: Vec<TopLevelStatement> = Vec::new();
        let mut q: usize = 0;
        proof {
            assert(statements@.map_values(|t: TopLevelStatement| t@) =~= Seq::empty());
        }
        loop
            invariant
                q <= self.tokens.len(),
                numbers_are_digits(self.toks()),
                self.toks() == old(self).toks(),
                file_well_formed(statements@.map_values(|t: TopLevelStatement| t@)),
                parse_spec(self.toks()) == definitions(
                    self.toks(),
                    statements@.map_values(|t: TopLevelStatement| t@),
                    q as int,
                ),
            decreases self.tokens.len() - q,
        {
            match self.parse_toplevel_statement(q) {
                Ok((Some(f), q2)) => {
                    let ghost before = statements@;
                    statements.push(f);
                    proof {
                        assert(statements@.map_values(|t: TopLevelStatement| t@) =~= before.map_values(
                            |t: TopLevelStatement| t@,
                        ).push(f@));
                    }
                    q = q2;
                },
                Ok((None, _)) => {
                    self.position = q;
                    return Ok(File(statements));
                },
                Err(err) => return Err(err),
            }
        }
    }
}

} // verus!
