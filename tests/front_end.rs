use viv_script::ast::{Comparison, Expression, LiteralType, Operator, Statement, TopLevelStatement};
use viv_script::errors::ErrorKind;
use viv_script::ir_plan::{lower_expression, Instr};
use viv_script::stmt_plan::{compile_plans, return_code, store_code, Format, Op, Step, Val};
use viv_script::lexer::tokenize;
use viv_script::lowering::{assert_message, ir_type, predicate, test_label, IntPredicate, IrType};
use viv_script::tokens::TokenValue;
use viv_script::types::TypeInformation;
use viv_script::{check_file, find_exe, parse_file, SourceLocation};

fn body_of(code: &str) -> Vec<Statement> {
    let file = check_file(code).expect("program should compile");
    let TopLevelStatement::FunctionDefinition { body, .. } = file.0.into_iter().next().unwrap();
    body.0
}

fn parsed_body(code: &str) -> Vec<Statement> {
    let file = parse_file(code).expect("program should parse");
    let TopLevelStatement::FunctionDefinition { body, .. } = file.0.into_iter().next().unwrap();
    body.0
}

fn error_message(code: &str) -> String {
    check_file(code).expect_err("program should be rejected").message()
}

fn values(code: &str) -> Vec<TokenValue> {
    tokenize(code).expect("source should lex").into_iter().map(|t| t.value).collect()
}

// Small programs that print one value, checked up to the tree that IR
// generation takes.

#[test]
fn test_string() {
    let code = "
    fn main() -> Num {
        print \"Hello World\";

        return 0;
    }
    ";
    let body = body_of(code);
    match &body[0] {
        Statement::Print(Expression::Literal(m, LiteralType::String(s))) => {
            assert_eq!(s, "Hello World");
            assert_eq!(m.type_information, Some(TypeInformation::String(false)));
        },
        other => panic!("unexpected statement {:?}", other),
    }
}

#[test]
fn test_number() {
    let code = "\n    fn main() -> Num {\n        print 1;\n\n        return 0;\n    }\n    ";
    let body = body_of(code);
    assert!(matches!(&body[0], Statement::Print(Expression::Literal(_, LiteralType::Number(1)))));
    assert!(matches!(&body[1], Statement::Return(Expression::Literal(_, LiteralType::Number(0)))));
}

#[test]
fn test_bool_true() {
    let code = "\n    fn main() -> Num {\n        print true;\n\n        return 0;\n    }\n    ";
    let body = body_of(code);
    assert!(matches!(&body[0], Statement::Print(Expression::Literal(_, LiteralType::Boolean(true)))));
    let plans = compile_plans(code, "t.viv").unwrap();
    match &plans[0].steps[0] {
        Step::Branch { if_true, if_false, .. } => {
            assert_eq!(if_true, &vec![Op::PrintText("true".to_string())]);
            assert_eq!(if_false, &vec![Op::PrintText("false".to_string())]);
        },
        other => panic!("unexpected step {:?}", other),
    }
}

#[test]
fn test_bool_false() {
    let code = "\n    fn main() -> Num {\n        print false;\n\n        return 0;\n    }\n    ";
    let body = body_of(code);
    assert!(matches!(&body[0], Statement::Print(Expression::Literal(_, LiteralType::Boolean(false)))));
}

// Lexer.

#[test]
fn lexer_ends_with_one_end_of_file() {
    let vs = values("fn main() -> Num { return 0; }");
    assert_eq!(vs.last(), Some(&TokenValue::EndOfFile));
    assert_eq!(vs.iter().filter(|v| **v == TokenValue::EndOfFile).count(), 1);
    assert_eq!(values(""), vec![TokenValue::EndOfFile]);
}

#[test]
fn lexer_spans_cover_tokens() {
    let ts = tokenize("x = 12;\n  print \"ab\";").unwrap();
    let spans: Vec<(usize, usize, usize)> =
        ts.iter().map(|t| (t.source_location.line_start, t.source_location.char_start, t.source_location.char_end)).collect();
    assert_eq!(spans, vec![(1, 1, 1), (1, 3, 3), (1, 5, 6), (1, 7, 7), (2, 3, 7), (2, 9, 12), (2, 13, 13), (2, 14, 14)]);
}

#[test]
fn lexer_round_trips_literals() {
    assert_eq!(values("2147483647"), vec![TokenValue::Number("2147483647".to_string()), TokenValue::EndOfFile]);
    assert_eq!(values("\"hi there\""), vec![TokenValue::String("hi there".to_string()), TokenValue::EndOfFile]);
    assert_eq!(values("true"), vec![TokenValue::True, TokenValue::EndOfFile]);
    assert_eq!(values("false"), vec![TokenValue::False, TokenValue::EndOfFile]);
}

#[test]
fn lexer_unterminated_string_at_end_is_an_error() {
    let e = tokenize("print \"abc").unwrap_err();
    assert_eq!(e.kind, ErrorKind::UnterminatedString);
    assert_eq!(e.message(), "Unclosed String");
    let e = tokenize("print \"abc\nx").unwrap_err();
    assert_eq!(e.kind, ErrorKind::UnterminatedString);
}

#[test]
fn lexer_minus_before_non_digit_is_minus() {
    assert_eq!(
        values("- x"),
        vec![TokenValue::Minus, TokenValue::Identifier("x".to_string()), TokenValue::EndOfFile]
    );
    assert_eq!(values("->"), vec![TokenValue::Arrow, TokenValue::EndOfFile]);
}

#[test]
fn lexer_symbols_and_comments() {
    assert_eq!(
        values("== != <= >= < > = ! / * + , ( ) { } ; // comment\nelse if"),
        vec![
            TokenValue::EqualEqual,
            TokenValue::BangEqual,
            TokenValue::LessThanEqual,
            TokenValue::GreaterThanEqual,
            TokenValue::LessThan,
            TokenValue::GreaterThan,
            TokenValue::Equal,
            TokenValue::Bang,
            TokenValue::ForwardSlash,
            TokenValue::Star,
            TokenValue::Plus,
            TokenValue::Comma,
            TokenValue::OpenParen,
            TokenValue::CloseParen,
            TokenValue::OpenBracket,
            TokenValue::CloseBracket,
            TokenValue::Semicolon,
            TokenValue::Else,
            TokenValue::If,
            TokenValue::EndOfFile,
        ]
    );
}

#[test]
fn lexer_non_ascii_letters_form_identifiers() {
    assert_eq!(values("héllo"), vec![TokenValue::Identifier("héllo".to_string()), TokenValue::EndOfFile]);
    assert_eq!(values("a_b"), vec![TokenValue::Identifier("a_b".to_string()), TokenValue::EndOfFile]);
}

#[test]
fn lexer_invalid_character() {
    let e = tokenize("x = 1 $").unwrap_err();
    assert_eq!(e.kind, ErrorKind::InvalidCharacter('$'));
    assert_eq!(e.location, SourceLocation::new(1, 7, 7));
    assert_eq!(e.message(), "invalid char $");
}

// Parser.

#[test]
fn parser_precedence() {
    let body = parsed_body("fn main() -> Num { print 1 + 2 * 3; return 0; }");
    match &body[0] {
        Statement::Print(Expression::Binary { left, operator: Operator::Add, right, metadata }) => {
            assert!(matches!(**left, Expression::Literal(_, LiteralType::Number(1))));
            assert!(matches!(**right, Expression::Binary { operator: Operator::Mul, .. }));
            assert_eq!(metadata.location, SourceLocation::new(1, 26, 34));
        },
        other => panic!("unexpected statement {:?}", other),
    }
}

#[test]
fn parser_left_associative() {
    let body = parsed_body("fn main() -> Num { print 8 - 2 - 1; return 0; }");
    match &body[0] {
        Statement::Print(Expression::Binary { left, operator: Operator::Sub, right, .. }) => {
            assert!(matches!(**left, Expression::Binary { operator: Operator::Sub, .. }));
            assert!(matches!(**right, Expression::Literal(_, LiteralType::Number(1))));
        },
        other => panic!("unexpected statement {:?}", other),
    }
}

#[test]
fn parser_single_operand_is_not_a_chain() {
    let body = parsed_body("fn main() -> Num { print (1); return 0; }");
    assert!(matches!(&body[0], Statement::Print(Expression::Literal(_, LiteralType::Number(1)))));
}

#[test]
fn parser_comparison_chain() {
    let body = parsed_body("fn main() -> Num { print 1 < 2 <= 3; return 0; }");
    match &body[0] {
        Statement::Print(Expression::ComparisonChain { comparisons, metadata, .. }) => {
            let cs: Vec<Comparison> = comparisons.iter().map(|c| c.0).collect();
            assert_eq!(cs, vec![Comparison::LessThan, Comparison::LessThanEqual]);
            assert_eq!(metadata.location, SourceLocation::new(1, 26, 35));
        },
        other => panic!("unexpected statement {:?}", other),
    }
}

#[test]
fn parser_else_if_nests_to_the_right() {
    let body = parsed_body(
        "fn main() -> Num { if 1 < 2 { print 1; } else if 2 < 3 { print 2; } else { print 3; } return 0; }",
    );
    match &body[0] {
        Statement::If { otherwise, .. } => {
            assert_eq!(otherwise.0.len(), 1);
            match &otherwise.0[0] {
                Statement::If { then, otherwise, .. } => {
                    assert_eq!(then.0.len(), 1);
                    assert_eq!(otherwise.0.len(), 1);
                },
                other => panic!("unexpected statement {:?}", other),
            }
        },
        other => panic!("unexpected statement {:?}", other),
    }
    assert_eq!(body.len(), 2);
}

#[test]
fn parser_negative_literal_and_prefix() {
    let body = parsed_body("fn main() -> Num { x = -5; y = !true; return 0; }");
    match &body[0] {
        Statement::Assignment { expression: Expression::Literal(m, LiteralType::Number(-5)), expression_location, .. } => {
            assert_eq!(m.location, SourceLocation::new(1, 24, 25));
            assert_eq!(*expression_location, SourceLocation::new(1, 20, 25));
        },
        other => panic!("unexpected statement {:?}", other),
    }
    match &body[1] {
        Statement::Assignment { expression: Expression::PrefixExpression { expression, metadata, .. }, .. } => {
            assert!(matches!(**expression, Expression::Literal(_, LiteralType::Boolean(true))));
            assert_eq!(metadata.location, SourceLocation::new(1, 32, 36));
        },
        other => panic!("unexpected statement {:?}", other),
    }
}

#[test]
fn parser_spans_enclose_children() {
    let body = parsed_body("fn main() -> Num {\n  print (1 +\n 22) * 3;\n return 0; }");
    match &body[0] {
        Statement::Print(Expression::Binary { left, right, metadata, .. }) => {
            let l = left.location();
            let r = right.location();
            let m = metadata.location;
            for c in [l, r] {
                assert!(m.line_start <= c.line_start && c.line_end <= m.line_end);
                assert!(m.char_start <= c.char_start && c.char_end <= m.char_end);
            }
        },
        other => panic!("unexpected statement {:?}", other),
    }
}

#[test]
fn parser_errors() {
    let e = parse_file("fn main() -> Num { print 1 }").unwrap_err();
    assert_eq!(e.kind, ErrorKind::UnexpectedToken { expected: TokenValue::Semicolon, found: TokenValue::CloseBracket });
    assert_eq!(e.message(), "expected Semicolon found CloseBracket");
    let e = parse_file("fn main() -> Num { print - x; }").unwrap_err();
    assert_eq!(e.kind, ErrorKind::ExpectedNumberAfterMinus(TokenValue::Identifier("x".to_string())));
    let e = parse_file("fn 1() -> Num { }").unwrap_err();
    assert_eq!(e.kind, ErrorKind::ExpectedIdentifier(TokenValue::Number("1".to_string())));
    let e = parse_file("print 1;").unwrap_err();
    assert_eq!(e.kind, ErrorKind::ExpectedDefinition(TokenValue::Print));
    let e = parse_file("fn main() -> Num { test x -> true; }").unwrap_err();
    assert_eq!(e.kind, ErrorKind::ExpectedTestName(TokenValue::Identifier("x".to_string())));
    let e = parse_file("fn main() -> Num { print ; }").unwrap_err();
    assert_eq!(e.kind, ErrorKind::ExpectedExpression(TokenValue::Semicolon));
    let e = parse_file("fn main() -> Num { print 2147483648; }").unwrap_err();
    assert_eq!(e.kind, ErrorKind::NumberTooLarge);
    assert!(parse_file("fn main() -> Num { print -2147483647; return 0; }").is_ok());
    let body = parsed_body("fn main() -> Num { print -2147483648; return 0; }");
    assert!(matches!(&body[0], Statement::Print(Expression::Literal(_, LiteralType::Number(i32::MIN)))));
    let e = parse_file("fn main() -> Num { print -2147483649; }").unwrap_err();
    assert_eq!(e.kind, ErrorKind::NumberTooLarge);
}

// Semantic passes.

#[test]
fn scenario_hello_world() {
    let body = body_of("fn main() -> Num { print \"Hello World\"; return 0; }");
    assert_eq!(body.len(), 2);
    let plans = compile_plans("fn main() -> Num { print \"Hello World\"; return 0; }", "t.viv").unwrap();
    match &plans[0].steps[0] {
        Step::Straight { code, ops } => {
            assert_eq!(code, &vec![Instr::GlobalString("Hello World".to_string())]);
            assert_eq!(ops, &vec![Op::Print(Format::Text, Val::Expr(0))]);
        },
        other => panic!("unexpected step {:?}", other),
    }
}

#[test]
fn scenario_arithmetic_types() {
    let body = body_of("fn main() -> Num { print 1 + 2 * 3; return 0; }");
    match &body[0] {
        Statement::Print(e) => assert_eq!(e.type_info(), &TypeInformation::Number),
        other => panic!("unexpected statement {:?}", other),
    }
}

#[test]
fn scenario_string_reassignment() {
    let file = check_file("fn main() -> Num { x = \"hi\"; x = \"hello\"; print x; return 0; }").unwrap();
    let TopLevelStatement::FunctionDefinition { metadata, body, .. } = &file.0[0];
    assert_eq!(metadata.var_types, vec![("x".to_string(), TypeInformation::String(false))]);
    assert_eq!(metadata.return_type, Some(TypeInformation::Number));
    assert!(matches!(&body.0[1], Statement::Assignment { .. }));
    let x = "x".to_string();
    assert_eq!(
        store_code(&x, 0, TypeInformation::String(false)),
        vec![
            Op::LoadSlot(x.clone()),
            Op::Strlen(Val::Expr(0)),
            Op::Increment(Val::Op(1)),
            Op::Realloc(Val::Op(0), Val::Op(2)),
            Op::Memcpy(Val::Op(3), Val::Expr(0), Val::Op(2)),
            Op::Store(x.clone(), Val::Op(3)),
        ]
    );
    assert_eq!(
        store_code(&x, 2, TypeInformation::String(true)),
        vec![Op::LoadSlot(x.clone()), Op::Free(Val::Op(0)), Op::Store(x.clone(), Val::Expr(2))]
    );
    assert_eq!(store_code(&x, 1, TypeInformation::Number), vec![Op::Store(x.clone(), Val::Expr(1))]);
    let plans = compile_plans("fn main() -> Num { x = \"hi\"; x = \"hello\"; print x; return 0; }", "t.viv").unwrap();
    assert_eq!(
        plans[0].prologue,
        vec![Op::Alloca(x.clone(), IrType::I8Ptr), Op::MallocEmpty, Op::Store(x.clone(), Val::Op(1))]
    );
    match &plans[0].steps[3] {
        Step::Straight { ops, .. } => assert_eq!(
            ops,
            &vec![Op::LoadSlot(x.clone()), Op::Free(Val::Op(0)), Op::Ret(Val::Expr(0))]
        ),
        other => panic!("unexpected step {:?}", other),
    }
}

#[test]
fn scenario_assert_and_if() {
    let body = body_of("fn main() -> Num { assert 1 == 1; if 1 < 2 { print 10; } else { print 20; } return 0; }");
    match &body[0] {
        Statement::Assert(e) => assert_eq!(e.type_info(), &TypeInformation::Boolean),
        other => panic!("unexpected statement {:?}", other),
    }
    assert!(matches!(&body[1], Statement::If { .. }));
    assert_eq!(assert_message(1), "Assert on line 1 failed");
    assert_eq!(predicate(Comparison::LessThan), IntPredicate::Slt);
}

#[test]
fn scenario_undefined_name() {
    assert_eq!(error_message("fn main() -> Num { print x; return 0; }"), "Name x not defined");
}

#[test]
fn scenario_reassignment_type_mismatch() {
    assert_eq!(
        error_message("fn main() -> Num { x = 1; x = \"a\"; return 0; }"),
        "expected Number, but got String"
    );
}

#[test]
fn scenario_bad_return_type() {
    let e = check_file("fn main() -> Num { return \"abc\"; }").unwrap_err();
    assert_eq!(
        e.kind,
        ErrorKind::TypeMismatch { expected: TypeInformation::Number, got: TypeInformation::String(false) }
    );
}

#[test]
fn scenario_assert_needs_boolean() {
    assert_eq!(error_message("fn main() -> Bool { assert 1; return true; }"), "Expected Boolean, got Number");
}

#[test]
fn semantic_errors() {
    assert_eq!(error_message("fn main() -> Float { return 0; }"), "Invalid type name");
    assert_eq!(error_message("fn main() -> Num { print true + 1; return 0; }"), "expected Boolean, but got Number");
    assert_eq!(error_message("fn main() -> Num { print true + false; return 0; }"), "Unsupported operator for Boolean");
    assert_eq!(error_message("fn main() -> Num { print \"a\" < \"b\"; return 0; }"), "Unsupported operator for String");
    assert_eq!(error_message("fn main() -> Num { print !1; return 0; }"), "Unsupported operator for Number");
    assert_eq!(error_message("fn main() -> Num { if 1 { } return 0; }"), "Expected Boolean, got Number");
    let e = check_file("fn main() -> Num { if 1 { } return 0; }").unwrap_err();
    assert_eq!(e.kind, ErrorKind::BadIfCondition(TypeInformation::Number));
    assert_eq!(error_message("fn main() -> Num { test \"t\" -> 1; return 0; }"), "Expected Boolean, got Number");
}

#[test]
fn string_return_accepts_borrowed_string() {
    let file = check_file("fn f() -> String { return \"s\"; } fn main() -> Num { return 0; }").unwrap();
    let TopLevelStatement::FunctionDefinition { metadata, .. } = &file.0[0];
    assert_eq!(metadata.return_type, Some(TypeInformation::String(true)));
    let strings = vec!["a".to_string()];
    assert_eq!(
        return_code(0, TypeInformation::String(false), &strings),
        vec![
            Op::Strlen(Val::Expr(0)),
            Op::Increment(Val::Op(0)),
            Op::Malloc(Val::Op(1)),
            Op::Memcpy(Val::Op(2), Val::Expr(0), Val::Op(1)),
            Op::LoadSlot("a".to_string()),
            Op::Free(Val::Op(4)),
            Op::Ret(Val::Op(2)),
        ]
    );
    assert_eq!(
        return_code(3, TypeInformation::String(true), &strings),
        vec![Op::LoadSlot("a".to_string()), Op::Free(Val::Op(0)), Op::Ret(Val::Expr(3))]
    );
}

#[test]
fn typing_annotates_every_expression() {
    let body = body_of("fn main() -> Num { x = 1; print (x + 2) * 3 == 9 != 10; return x; }");
    match &body[1] {
        Statement::Print(_) => {},
        other => panic!("unexpected statement {:?}", other),
    }
    let body = body_of("fn main() -> Num { x = 1; b = x * 2 < 3; print !b; return x; }");
    fn check(e: &Expression) {
        assert!(e.metadata().type_information.is_some());
        match e {
            Expression::Binary { left, right, .. } => {
                assert!(TypeInformation::same_type(*left.type_info(), *right.type_info()));
                check(left);
                check(right);
            },
            Expression::ComparisonChain { first_element, comparisons, .. } => {
                check(first_element);
                comparisons.iter().for_each(|c| check(&c.1));
            },
            Expression::PrefixExpression { expression, .. } => check(expression),
            _ => {},
        }
    }
    for st in &body {
        match st {
            Statement::Print(e) | Statement::Return(e) | Statement::Assignment { expression: e, .. } => check(e),
            _ => {},
        }
    }
}

#[test]
fn variables_are_recorded_in_order() {
    let file = check_file("fn main() -> Num { a = 1; if true { b = true; } else { c = \"s\"; } print a; return 0; }").unwrap();
    let TopLevelStatement::FunctionDefinition { metadata, .. } = &file.0[0];
    let names: Vec<&str> = metadata.var_types.iter().map(|v| v.0.as_str()).collect();
    assert_eq!(names, vec!["a", "b", "c"]);
    assert_eq!(metadata.var_types[2].1, TypeInformation::String(false));
}

// Spans.

#[test]
fn combine_is_commutative() {
    let a = SourceLocation { line_start: 1, line_end: 3, char_start: 5, char_end: 7 };
    let b = SourceLocation { line_start: 2, line_end: 2, char_start: 1, char_end: 9 };
    assert_eq!(SourceLocation::combine(&a, &b), SourceLocation::combine(&b, &a));
    assert_eq!(
        SourceLocation::combine(&a, &b),
        SourceLocation { line_start: 1, line_end: 3, char_start: 1, char_end: 9 }
    );
}

// Types and lowering.

#[test]
fn ownership_marks() {
    assert_eq!(TypeInformation::String(false).mark_owned(), TypeInformation::String(true));
    assert_eq!(TypeInformation::String(true).mark_borrowed(), TypeInformation::String(false));
    assert_eq!(TypeInformation::Number.mark_owned(), TypeInformation::Number);
    assert!(TypeInformation::same_type(TypeInformation::String(true), TypeInformation::String(false)));
    assert!(!TypeInformation::same_type(TypeInformation::Number, TypeInformation::Boolean));
}

#[test]
fn lowering_choices() {
    assert_eq!(ir_type(TypeInformation::Number), IrType::I32);
    assert_eq!(ir_type(TypeInformation::Boolean), IrType::I1);
    assert_eq!(ir_type(TypeInformation::String(true)), IrType::I8Ptr);
    assert_eq!(assert_message(120), "Assert on line 120 failed");
    assert_eq!(test_label("abc", "f.viv"), "\x1b[36mabc              \x1b[33mf.viv\x1b[0m");
    assert_eq!(test_label("a_very_long_test_name", "f"), "\x1b[36ma_very_long_test_name\x1b[33mf\x1b[0m");
}

#[test]
fn find_exe_takes_first_found() {
    assert_eq!(find_exe(vec![None, Some("/usr/bin/llc".to_string()), Some("/bin/llc".to_string())]), Some("/usr/bin/llc".to_string()));
    assert_eq!(find_exe(vec![None, None]), None);
    assert_eq!(find_exe(vec![]), None);
}

#[test]
fn line_highlights() {
    let code = "fn main() -> Num {\n  print x;\n}";
    let e = check_file(code).unwrap_err();
    assert_eq!(e.location, SourceLocation::new(2, 9, 9));
    assert_eq!(e.location.get_line_highlights(code), "2 |   print x;\n            ^");
    let span = SourceLocation { line_start: 1, line_end: 2, char_start: 2, char_end: 4 };
    assert_eq!(span.get_line_highlights("ab\ncdef\n"), "1 | ab\n2 | cdef\n     ^^^");
    assert_eq!(SourceLocation::new(5, 1, 1).get_line_highlights("x"), "\n    ^");
}

#[test]
fn lowering_arithmetic_plan() {
    let body = body_of("fn main() -> Num { print 1 + 2 * 3; return 0; }");
    let Statement::Print(e) = &body[0] else { panic!("expected a print") };
    let mut plan = Vec::new();
    let r = lower_expression(e, &mut plan);
    assert_eq!(
        plan,
        vec![
            Instr::ConstNumber(1),
            Instr::ConstNumber(2),
            Instr::ConstNumber(3),
            Instr::Arith(Operator::Mul, 1, 2),
            Instr::Arith(Operator::Add, 0, 3),
        ]
    );
    assert_eq!(r, 4);
}

#[test]
fn lowering_comparison_chain_plan() {
    let body = body_of("fn main() -> Num { x = 2; print 1 < x <= 3; print !true; return 0; }");
    let Statement::Print(e) = &body[1] else { panic!("expected a print") };
    let mut plan = vec![Instr::ConstBool(false)];
    let r = lower_expression(e, &mut plan);
    assert_eq!(
        plan,
        vec![
            Instr::ConstBool(false),
            Instr::ConstNumber(1),
            Instr::LoadVar("x".to_string()),
            Instr::Compare(IntPredicate::Slt, 1, 2),
            Instr::ConstNumber(3),
            Instr::Compare(IntPredicate::Sle, 2, 4),
            Instr::And(3, 5),
        ]
    );
    assert_eq!(r, 6);
    let Statement::Print(e) = &body[2] else { panic!("expected a print") };
    let mut plan = Vec::new();
    assert_eq!(lower_expression(e, &mut plan), 1);
    assert_eq!(plan, vec![Instr::ConstBool(true), Instr::Not(0)]);
}

#[test]
fn statement_plans() {
    let code = "fn f() -> String { return \"s\"; }\nfn main() -> Num {\n x = \"a\";\n assert 1 == 1;\n test \"t\" -> true;\n if true { print x; } else { print 1; }\n return 0; }";
    let plans = compile_plans(code, "f.viv").unwrap();
    assert_eq!(plans.len(), 2);
    assert_eq!(plans[0].name, "f");
    assert_eq!(plans[0].result, IrType::I8Ptr);
    assert!(matches!(&plans[0].steps[0], Step::Straight { ops, .. } if ops.last() == Some(&Op::Ret(Val::Op(2)))));
    let steps = &plans[1].steps;
    assert_eq!(steps.len(), 5);
    match &steps[1] {
        Step::Branch { if_true, if_false, value, .. } => {
            assert!(if_true.is_empty());
            assert_eq!(if_false, &vec![Op::PrintText("Assert on line 4 failed".to_string()), Op::Abort]);
            assert_eq!(*value, 2);
        },
        other => panic!("unexpected step {:?}", other),
    }
    match &steps[2] {
        Step::Branch { if_true, if_false, .. } => {
            let label = format!("\x1b[36mt{}\x1b[33mf.viv\x1b[0m", " ".repeat(16));
            assert_eq!(if_true, &vec![Op::PrintText(format!("\x1b[32mOK {}\x1b[0m", label))]);
            assert_eq!(if_false, &vec![Op::PrintText(format!("\x1b[31mFAILED {}\x1b[0m", label)), Op::Abort]);
        },
        other => panic!("unexpected step {:?}", other),
    }
    match &steps[3] {
        Step::If { then, otherwise, .. } => {
            assert!(matches!(&then[0], Step::Straight { ops, .. } if ops == &vec![Op::Print(Format::Text, Val::Expr(0))]));
            assert!(matches!(&otherwise[0], Step::Straight { ops, .. } if ops == &vec![Op::Print(Format::Decimal, Val::Expr(0))]));
        },
        other => panic!("unexpected step {:?}", other),
    }
    assert!(compile_plans("fn main() -> Num { print y; return 0; }", "f.viv").is_err());
}

#[test]
fn line_highlights_edge_cases() {
    assert_eq!(SourceLocation::new(1, 3, 5).get_line_highlights("abcdefg"), "1 | abcdefg\n      ^^^");
    assert_eq!(SourceLocation::new(1, 3, 2).get_line_highlights("abc"), "1 | abc\n      ");
    assert_eq!(SourceLocation::new(1, 1, 2).get_line_highlights("ab\r\ncd"), "1 | ab\n    ^^");
    assert_eq!(SourceLocation::new(2, 1, 2).get_line_highlights("ab\r\ncd\r\n"), "2 | cd\n    ^^");
}

#[test]
fn variables_recorded_once() {
    let file = check_file("fn main() -> Num { a = 1; if true { b = 2; } return 0; }").unwrap();
    let TopLevelStatement::FunctionDefinition { metadata, .. } = &file.0[0];
    assert_eq!(metadata.var_types.len(), 2);
    let file = check_file("fn main() -> Num { a = 1; a = 2; b = a; a = b; return 0; }").unwrap();
    let TopLevelStatement::FunctionDefinition { metadata, .. } = &file.0[0];
    let names: Vec<&str> = metadata.var_types.iter().map(|v| v.0.as_str()).collect();
    assert_eq!(names, vec!["a", "b"]);
}
