//! End-to-end tests of the language engine: lexing, parsing, evaluation,
//! the live-block controller, and the type checker.
use resilient::RunError;
use resilient::interp::Interpreter;
use resilient::lexer::LexError;
use resilient::lexer::Lexer;
use resilient::parse_source;
use resilient::parser::Parser;
use resilient::run;
use resilient::token::Token;
use resilient::typechecker::TypeError;
use resilient::value::Failure;
use resilient::value::Value;
use resilient::value::value_to_string;

fn run_ok(src: &str) -> Value {
    let (program, errors) = parse_source(src.to_string());
    assert!(errors.is_empty(), "unexpected parse errors");
    run(&program, false).expect("expected successful run")
}

fn run_err(src: &str) -> Failure {
    let (program, errors) = parse_source(src.to_string());
    assert!(errors.is_empty(), "unexpected parse errors");
    match run(&program, false) {
        Err(RunError::Runtime(f)) => f,
        other => panic!("expected a runtime failure, got {:?}", other.is_ok()),
    }
}

fn check_err(src: &str) -> TypeError {
    let (program, errors) = parse_source(src.to_string());
    assert!(errors.is_empty(), "unexpected parse errors");
    match run(&program, true) {
        Err(RunError::Typing(e)) => e,
        _ => panic!("expected a type error"),
    }
}

#[test]
fn lex_numbers_idents_and_operators() {
    let mut lx = Lexer::new("let x1 = 42 + 3.5; // note\n\"hi\"".to_string());
    let toks = lx.lex_all().expect("lexing succeeds");
    assert!(matches!(toks[0], Token::Let));
    assert!(matches!(&toks[1], Token::Identifier(s) if s == "x1"));
    assert!(matches!(toks[2], Token::Assign));
    assert!(matches!(toks[3], Token::IntLiteral(42)));
    assert!(matches!(toks[4], Token::Plus));
    assert!(matches!(toks[5], Token::FloatLiteral(b) if b == 3.5f64.to_bits()));
    assert!(matches!(toks[6], Token::Semicolon));
    assert!(matches!(&toks[7], Token::StringLiteral(s) if s == "hi"));
    assert!(matches!(toks[8], Token::Eof));
    assert_eq!(toks.len(), 9);
}

#[test]
fn lex_string_escapes() {
    let mut lx = Lexer::new("\"a\\nb\\t\\\\\\\"q\\z\"".to_string());
    let toks = lx.lex_all().expect("lexing succeeds");
    assert!(matches!(&toks[0], Token::StringLiteral(s) if s == "a\nb\t\\\"q\\z"));
}

#[test]
fn lex_two_char_operators() {
    let mut lx = Lexer::new("== != <= >= < >".to_string());
    let toks = lx.lex_all().expect("lexing succeeds");
    assert!(matches!(toks[0], Token::Equal));
    assert!(matches!(toks[1], Token::NotEqual));
    assert!(matches!(toks[2], Token::LessEqual));
    assert!(matches!(toks[3], Token::GreaterEqual));
    assert!(matches!(toks[4], Token::Less));
    assert!(matches!(toks[5], Token::Greater));
}

#[test]
fn lex_unexpected_character_is_fatal() {
    let mut lx = Lexer::new("let @ = 1;".to_string());
    match lx.lex_all() {
        Err(LexError::UnexpectedChar { ch, .. }) => assert_eq!(ch, '@'),
        _ => panic!("expected a lexical fault"),
    }
}

#[test]
fn lex_bare_bang_is_fatal() {
    let mut lx = Lexer::new("1 ! 2".to_string());
    assert!(matches!(lx.lex_all(), Err(LexError::UnexpectedChar { ch: '!', .. })));
}

#[test]
fn lex_integer_overflow_is_fatal() {
    let mut lx = Lexer::new("99999999999999999999".to_string());
    assert!(matches!(lx.lex_all(), Err(LexError::IntegerOverflow { .. })));
}

#[test]
fn parse_let_and_expression() {
    let (program, errors) = parse_source("let x = 1 + 2 * 3;".to_string());
    assert!(errors.is_empty());
    match &program {
        resilient::ast::Node::Program(stmts) => {
            assert_eq!(stmts.len(), 1);
            assert!(matches!(&stmts[0], resilient::ast::Node::LetStatement { name, .. } if name == "x"));
        },
        _ => panic!("expected a program"),
    }
}

#[test]
fn parse_recovers_and_reports_multiple_errors() {
    // Two independently malformed statements around a valid one: both are
    // reported, and the valid statement still lands in the program.
    let (program, errors) = parse_source("let = 5; fn (int a) { } let y = 7;".to_string());
    assert_eq!(errors.len(), 2);
    assert_eq!(errors[0].message, "Expected identifier after 'let'");
    assert_eq!(errors[1].message, "Expected identifier after 'fn'");
    match &program {
        resilient::ast::Node::Program(stmts) => {
            assert_eq!(stmts.len(), 1);
            assert!(matches!(&stmts[0], resilient::ast::Node::LetStatement { name, .. } if name == "y"));
        },
        _ => panic!("expected a program"),
    }
}

#[test]
fn parse_program_result_carries_errors() {
    let lexer = Lexer::new("let = 5;".to_string());
    let mut parser = Parser::new(lexer);
    match parser.parse_program() {
        Err(errors) => assert_eq!(errors.len(), 1),
        Ok(_) => panic!("expected errors"),
    }
}

#[test]
fn parse_main_gets_friendlier_message() {
    let (_, errors) = parse_source("fn main { }".to_string());
    assert_eq!(errors.len(), 1);
    assert!(errors[0].message.contains("fn main(int dummy)"));
}

#[test]
fn parse_static_let() {
    let (program, errors) = parse_source("static let toggle = false;".to_string());
    assert!(errors.is_empty());
    match &program {
        resilient::ast::Node::Program(stmts) => {
            assert!(matches!(&stmts[0], resilient::ast::Node::LetStatement { name, .. } if name == "toggle"));
        },
        _ => panic!("expected a program"),
    }
}

#[test]
fn int_arithmetic_yields_int() {
    assert!(matches!(run_ok("1 + 2 * 3;"), Value::Int(7)));
    assert!(matches!(run_ok("10 - 4;"), Value::Int(6)));
    assert!(matches!(run_ok("7 / 2;"), Value::Int(3)));
    assert!(matches!(run_ok("(0 - 7) / 2;"), Value::Int(-3)));
}

#[test]
fn division_by_zero_fails() {
    assert!(matches!(run_err("1 / 0;"), Failure::DivisionByZero));
    assert!(matches!(run_err("1.5 / 0.0;"), Failure::DivisionByZero));
    assert!(matches!(run_err("7 / (3 - 3);"), Failure::DivisionByZero));
}

#[test]
fn float_operand_promotes_result() {
    assert!(matches!(run_ok("1.5 + 2.25;"), Value::Float(b) if b == 3.75f64.to_bits()));
    assert!(matches!(run_ok("1 + 0.5;"), Value::Float(b) if b == 1.5f64.to_bits()));
    assert!(matches!(run_ok("0.5 * 4;"), Value::Float(b) if b == 2.0f64.to_bits()));
    assert!(matches!(run_ok("1.0 / 4.0;"), Value::Float(b) if b == 0.25f64.to_bits()));
}

#[test]
fn string_concatenation_and_comparison() {
    assert!(matches!(run_ok("\"ab\" + \"cd\";"), Value::Str(s) if s == "abcd"));
    assert!(matches!(run_ok("\"x\" == \"x\";"), Value::Bool(true)));
    assert!(matches!(run_ok("\"x\" != \"y\";"), Value::Bool(true)));
}

#[test]
fn comparisons_and_booleans() {
    assert!(matches!(run_ok("1 < 2;"), Value::Bool(true)));
    assert!(matches!(run_ok("2 <= 1;"), Value::Bool(false)));
    assert!(matches!(run_ok("true == false;"), Value::Bool(false)));
    assert!(matches!(run_ok("1.5 > 1.25;"), Value::Bool(true)));
}

#[test]
fn mixed_type_operands_fail() {
    assert!(matches!(run_err("1 + true;"), Failure::TypeMismatch { .. }));
    assert!(matches!(run_err("\"a\" - \"b\";"), Failure::UnknownOperator { .. }));
}

#[test]
fn let_binds_and_identifier_resolves() {
    assert!(matches!(run_ok("let x = 5; x;"), Value::Int(5)));
    assert!(matches!(run_err("y;"), Failure::IdentifierNotFound { name } if name == "y"));
}

#[test]
fn function_call_and_closure_capture() {
    assert!(matches!(run_ok("fn double(int x) { return x * 2; } double(21);"), Value::Int(42)));
    assert!(matches!(
        run_ok("let a = 10; fn adda(int x) { return x + a; } adda(1);"),
        Value::Int(11)
    ));
}

#[test]
fn return_stops_the_program() {
    assert!(matches!(run_ok("return 5; 6;"), Value::Int(5)));
}

#[test]
fn if_statement_follows_truthiness() {
    assert!(matches!(run_ok("if (true) { 2 } else { 3 }"), Value::Int(2)));
    assert!(matches!(run_ok("if (0) { 2 } else { 3 }"), Value::Int(3)));
    assert!(matches!(run_ok("if 1 { 2 } else { 3 }"), Value::Int(2)));
    assert!(matches!(run_ok("if (\"\") { 2 } else { 3 }"), Value::Int(3)));
    assert!(matches!(run_ok("if (false) { 2 }"), Value::Void));
}

#[test]
fn call_argument_count_unchecked_at_runtime() {
    // A missing argument leaves the parameter unbound; only touching it
    // fails.
    assert!(matches!(run_ok("fn f(int a, int b) { return 1; } f(5);"), Value::Int(1)));
    assert!(matches!(
        run_err("fn g(int a, int b) { return b; } g(5);"),
        Failure::IdentifierNotFound { name } if name == "b"
    ));
}

#[test]
fn calling_a_non_function_fails() {
    assert!(matches!(run_err("let x = 1; x(2);"), Failure::NotAFunction { .. }));
}

#[test]
fn assert_passes_on_truthy_condition() {
    assert!(matches!(run_ok("assert(true); 7;"), Value::Int(7)));
}

#[test]
fn assert_failure_carries_message_and_condition() {
    match run_err("assert(false, \"boom\");") {
        Failure::AssertionFailed { message, condition } => {
            assert_eq!(message, "boom");
            assert_eq!(condition, "false");
        },
        _ => panic!("expected an assertion failure"),
    }
}

#[test]
fn assert_default_message() {
    match run_err("assert(1 > 2);") {
        Failure::AssertionFailed { message, .. } => assert_eq!(message, "Assertion failed"),
        _ => panic!("expected an assertion failure"),
    }
}

#[test]
fn live_block_succeeding_body_is_transparent() {
    assert!(matches!(run_ok("live { 42 }"), Value::Int(42)));
    assert!(matches!(run_ok("let x = 1; live { let y = x + 1; y }"), Value::Int(2)));
}

#[test]
fn live_block_retries_three_times_then_fails() {
    match run_err("live { assert(false, \"x\"); }") {
        Failure::Exhausted { attempts, cause } => {
            assert_eq!(attempts, 3);
            match *cause {
                Failure::AssertionFailed { message, .. } => assert_eq!(message, "x"),
                _ => panic!("expected the assertion failure as the cause"),
            }
        },
        _ => panic!("expected exhaustion"),
    }
}

#[test]
fn live_block_failure_message_mentions_attempts_and_cause() {
    let f = run_err("live { assert(false, \"x\"); }");
    let text = f.to_text();
    assert!(text.contains("3"));
    assert!(text.contains("x"));
    assert_eq!(
        text,
        "Live block failed after 3 attempts: ASSERTION ERROR: x\n  - Condition evaluated to: false"
    );
}

#[test]
fn live_block_rolls_back_between_attempts() {
    // Each retry resets n to its pre-attempt value, so the last failed
    // attempt leaves n at 1, not 3.
    let (program, errors) = parse_source(
        "let n = 0; live { let n = n + 1; assert(n > 5, \"no\"); }".to_string(),
    );
    assert!(errors.is_empty());
    let mut interp = Interpreter::new();
    assert!(interp.eval(&program).is_err());
    match interp.env.get(&"n".to_string()) {
        Some(Value::Int(n)) => assert_eq!(n, 1),
        _ => panic!("expected n to be bound to an integer"),
    }
}

#[test]
fn nested_live_blocks_fail_independently() {
    match run_err("live { live { assert(false, \"inner\"); } }") {
        Failure::Exhausted { attempts, cause } => {
            assert_eq!(attempts, 3);
            assert!(matches!(*cause, Failure::Exhausted { attempts: 3, .. }));
        },
        _ => panic!("expected exhaustion"),
    }
}

#[test]
fn type_checker_rejects_non_boolean_if_condition() {
    assert!(matches!(
        check_err("if (1) { 1 } else { \"x\" }"),
        TypeError::IfConditionNotBool { found: resilient::typechecker::Type::Int }
    ));
}

#[test]
fn type_checker_rejects_mismatched_branches() {
    assert!(matches!(
        check_err("if (true) { 1 } else { \"x\" }"),
        TypeError::IfBranchMismatch { .. }
    ));
}

#[test]
fn type_checker_rejects_wrong_argument_count() {
    match check_err("fn f(int a) { return a; } f(1, 2);") {
        TypeError::WrongArgumentCount { expected_count, got_count } => {
            assert_eq!(expected_count, 1);
            assert_eq!(got_count, 2);
        },
        _ => panic!("expected an argument count fault"),
    }
}

#[test]
fn type_checker_rejects_argument_type_mismatch() {
    assert!(matches!(
        check_err("fn f(string s) { return s; } f(1);"),
        TypeError::ArgumentTypeMismatch { index: 1, .. }
    ));
}

#[test]
fn any_typed_parameter_accepts_everything() {
    // The built-in println has an Any parameter: any argument type checks.
    let (program, errors) = parse_source("println(\"hello\");".to_string());
    assert!(errors.is_empty());
    let mut checker = resilient::typechecker::TypeChecker::new();
    assert!(checker.check_program(&program).is_ok());
    let (program2, errors2) = parse_source("fn f(int a) { return a; } f(1) + 2;".to_string());
    assert!(errors2.is_empty());
    assert!(matches!(run(&program2, true), Ok(Value::Int(3))));
}

#[test]
fn type_check_passes_then_evaluates() {
    let (program, errors) = parse_source("1 + 2;".to_string());
    assert!(errors.is_empty());
    assert!(matches!(run(&program, true), Ok(Value::Int(3))));
}

#[test]
fn type_check_does_not_block_unchecked_evaluation() {
    // Without the checker the same ill-typed program fails only at
    // runtime.
    let (program, errors) = parse_source("if (1) { 1 } else { \"x\" }".to_string());
    assert!(errors.is_empty());
    assert!(matches!(run(&program, false), Ok(Value::Int(1))));
}

#[test]
fn roundtrip_int_value() {
    let v = run_ok("42;");
    let text = value_to_string(&v);
    assert_eq!(text, "42");
    let again = run_ok(&format!("{};", text));
    assert!(matches!(again, Value::Int(42)));
}

#[test]
fn roundtrip_bool_value() {
    let v = run_ok("true;");
    let text = value_to_string(&v);
    assert_eq!(text, "true");
    assert!(matches!(run_ok(&format!("{};", text)), Value::Bool(true)));
}

#[test]
fn roundtrip_string_value() {
    let v = run_ok("\"hi\";");
    let text = value_to_string(&v);
    assert_eq!(text, "\"hi\"");
    assert!(matches!(run_ok(&format!("{};", text)), Value::Str(s) if s == "hi"));
}

#[test]
fn roundtrip_float_value() {
    let v = run_ok("2.5;");
    let text = value_to_string(&v);
    let again = run_ok(&format!("{};", text));
    match (v, again) {
        (Value::Float(b1), Value::Float(b2)) => assert_eq!(b1, b2),
        _ => panic!("expected float values"),
    }
}

#[test]
fn negative_int_renders_with_sign() {
    let v = run_ok("0 - 42;");
    assert_eq!(value_to_string(&v), "-42");
}

#[test]
fn void_and_function_render_opaquely() {
    assert_eq!(value_to_string(&run_ok("assert(true);")), "void");
    assert_eq!(value_to_string(&run_ok("fn f(int a) { return a; } f;")), "<function>");
}

#[test]
fn wrapping_integer_arithmetic() {
    // Arithmetic wraps around the 64-bit range instead of failing.
    assert!(matches!(
        run_ok("9223372036854775807 + 1;"),
        Value::Int(i) if i == i64::MIN
    ));
}

#[test]
fn malformed_float_literal_is_fatal() {
    let mut lx = Lexer::new("1.2.3".to_string());
    assert!(matches!(lx.lex_all(), Err(LexError::BadFloatLiteral { .. })));
}

#[test]
fn runaway_call_nesting_is_cut_off() {
    // Self-application recurses until the depth bound trips.
    assert!(matches!(
        run_err("fn g(int h) { return h(h); } g(g);"),
        Failure::DepthExceeded
    ));
}

#[test]
fn unterminated_block_is_reported() {
    let (_, errors) = parse_source("fn f(int a) { let x = 1;".to_string());
    assert!(!errors.is_empty());
    assert!(errors.iter().any(|e| e.message == "Unclosed block, expected '}'"));
}

#[test]
fn parse_error_renders_position() {
    let (_, errors) = parse_source("let = 5;".to_string());
    assert_eq!(errors.len(), 1);
    let text = errors[0].to_text();
    assert!(text.starts_with("Parse error at line "));
    assert!(text.contains("Expected identifier after 'let'"));
}

#[test]
fn type_checker_rejects_undefined_variable() {
    assert!(matches!(
        check_err("nope;"),
        TypeError::UndefinedVariable { name } if name == "nope"
    ));
}

#[test]
fn type_checker_rejects_non_callable() {
    assert!(matches!(
        check_err("let x = 1; x();"),
        TypeError::NotCallable { found: resilient::typechecker::Type::Int }
    ));
}

#[test]
fn type_checker_rejects_bad_assert_operands() {
    assert!(matches!(
        check_err("assert(1);"),
        TypeError::AssertConditionNotBool { found: resilient::typechecker::Type::Int }
    ));
    assert!(matches!(
        check_err("assert(true, 1);"),
        TypeError::AssertMessageNotString { found: resilient::typechecker::Type::Int }
    ));
}

#[test]
fn type_checker_rejects_unknown_type_name() {
    assert!(matches!(
        check_err("fn f(widget x) { return x; }"),
        TypeError::UnknownTypeName { name } if name == "widget"
    ));
}

#[test]
fn type_checker_rejects_cross_type_comparison() {
    assert!(matches!(check_err("1 == \"a\";"), TypeError::CannotCompare { .. }));
    assert!(matches!(check_err("true + false;"), TypeError::BadInfixOperands { .. }));
}

#[test]
fn type_checker_wants_a_program_node() {
    let mut checker = resilient::typechecker::TypeChecker::new();
    assert!(matches!(
        checker.check_program(&resilient::ast::Node::IntegerLiteral(5)),
        Err(TypeError::ExpectedProgram)
    ));
}

#[test]
fn string_concatenation_type_checks() {
    let (program, errors) = parse_source("\"a\" + \"b\";".to_string());
    assert!(errors.is_empty());
    assert!(matches!(run(&program, true), Ok(Value::Str(s)) if s == "ab"));
}
