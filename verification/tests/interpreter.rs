use atium::ast::{Expr, Stmt};
use atium::error::{Column, Diagnostic, Line, RuntimeError, Span};
use atium::interpreter::{Interpreter, Outcome};
use atium::lexer::Cursor;
use atium::parser::Parser;
use atium::token::{Token, TokenKind, Type, Value};

fn interpret(src: &str) -> Outcome {
    let tokens = Cursor::new(src, None).lex().expect("no lexical error");
    let stmts = Parser::new(tokens).parse().expect("no syntax error");
    Interpreter::new(stmts).interpret()
}

fn output(src: &str) -> Vec<String> {
    let out = interpret(src);
    assert!(out.result.is_ok(), "errors: {:?}", out.result);
    out.lines()
}

fn errors(src: &str) -> Vec<Diagnostic<RuntimeError>> {
    interpret(src).result.expect_err("a runtime error")
}

fn kinds(src: &str) -> Vec<RuntimeError> {
    errors(src).into_iter().map(|d| d.kind).collect()
}

#[test]
fn grouping_overrides_precedence() {
    assert_eq!(output("print (1+2)*3;"), vec!["9"]);
    assert_eq!(output("print 1+2*3;"), vec!["7"]);
}

#[test]
fn string_concatenation() {
    assert_eq!(output("print \"a\"+\"b\";"), vec!["ab"]);
    assert_eq!(output("print \"\" + \"\";"), vec![""]);
    assert_eq!(output("print \"a\" + \"b\" + \"c\";"), vec!["abc"]);
}

#[test]
fn shadowing_does_not_leak_out_of_the_block() {
    assert_eq!(output("var x = 1; { var x = 2; print x; } print x;"), vec!["2", "1"]);
}

#[test]
fn assignment_reaches_the_outer_scope() {
    assert_eq!(output("var x = 1; { x = 2; } print x;"), vec!["2"]);
    assert_eq!(output("var x = 1; { { x = 2; } print x; } print x;"), vec!["2", "2"]);
}

#[test]
fn variable_of_a_block_is_gone_after_it() {
    let out = interpret("{ var y = 1; } print y;");
    assert!(out.lines().is_empty());
    let errors = out.result.unwrap_err();
    assert_eq!(errors.len(), 1);
    assert_eq!(errors[0].kind, RuntimeError::InvalidIdent("y".to_string()));
}

#[test]
fn reading_an_uninitialised_variable_fails() {
    let out = interpret("var x; print x;");
    assert!(out.lines().is_empty());
    let errors = out.result.unwrap_err();
    assert_eq!(errors.len(), 1);
    assert_eq!(errors[0].kind, RuntimeError::UninitialisedVar("x".to_string()));
}

#[test]
fn uninitialised_variable_can_be_assigned() {
    assert_eq!(output("var x; x = 3; print x;"), vec!["3"]);
}

#[test]
fn reading_an_undeclared_variable_fails() {
    assert_eq!(kinds("print x;"), vec![RuntimeError::InvalidIdent("x".to_string())]);
}

#[test]
fn assigning_an_undeclared_variable_fails() {
    assert_eq!(kinds("x = 1;"), vec![RuntimeError::InvalidAssignmentTarget]);
    assert_eq!(
        kinds("x = 1; print x;"),
        vec![RuntimeError::InvalidAssignmentTarget, RuntimeError::InvalidIdent("x".to_string())]
    );
}

#[test]
fn type_mismatch_names_the_types_found_and_those_accepted() {
    let errors = errors("print 1 + true;");
    assert_eq!(errors.len(), 1);
    assert_eq!(
        errors[0].kind,
        RuntimeError::InvalidTypes(
            "+".to_string(),
            vec![Type::Integer, Type::Boolean],
            vec![(Type::Integer, Type::Integer), (Type::String, Type::String)],
        )
    );
    assert_eq!(
        errors[0].kind.message(),
        "cannot apply '+' to values (Integer, Boolean), expected: (Integer, Integer) or (String, String)"
    );
    assert_eq!(errors[0].span.lex, "+");
    assert_eq!(errors[0].span.column, Column(9));
}

#[test]
fn plus_takes_no_mixed_operands() {
    assert_eq!(
        kinds("print \"a\" + 1;"),
        vec![RuntimeError::InvalidTypes(
            "+".to_string(),
            vec![Type::String, Type::Integer],
            vec![(Type::Integer, Type::Integer), (Type::String, Type::String)],
        )]
    );
    assert_eq!(
        kinds("print 1.5 + 1.5;"),
        vec![RuntimeError::InvalidTypes(
            "+".to_string(),
            vec![Type::Float, Type::Float],
            vec![(Type::Integer, Type::Integer), (Type::String, Type::String)],
        )]
    );
}

#[test]
fn arithmetic_takes_integers_only() {
    for op in ["-", "*", "/"] {
        assert_eq!(
            kinds(&format!("print \"a\" {} \"b\";", op)),
            vec![RuntimeError::InvalidTypes(
                op.to_string(),
                vec![Type::String, Type::String],
                vec![(Type::Integer, Type::Integer)],
            )]
        );
        assert_eq!(
            kinds(&format!("print 1 {} false;", op)),
            vec![RuntimeError::InvalidTypes(
                op.to_string(),
                vec![Type::Integer, Type::Boolean],
                vec![(Type::Integer, Type::Integer)],
            )]
        );
    }
}

#[test]
fn integer_arithmetic() {
    assert_eq!(output("print 7 - 10;"), vec!["-3"]);
    assert_eq!(output("print 6 * 7;"), vec!["42"]);
    assert_eq!(output("print 2 - 3 - 4;"), vec!["-5"]);
    assert_eq!(output("print 100 / 10 / 5;"), vec!["2"]);
    assert_eq!(output("print 0 * 5;"), vec!["0"]);
}

#[test]
fn division_rounds_towards_zero() {
    assert_eq!(output("print 7 / 2;"), vec!["3"]);
    assert_eq!(output("print -7 / 2;"), vec!["-3"]);
    assert_eq!(output("print 7 / -2;"), vec!["-3"]);
    assert_eq!(output("print -7 / -2;"), vec!["3"]);
    assert_eq!(output("print 0 / 5;"), vec!["0"]);
    assert_eq!(output("print 1 / 2;"), vec!["0"]);
    assert_eq!(output("print -1 / 2;"), vec!["0"]);
}

#[test]
fn division_by_zero_is_an_error() {
    let out = interpret("print 1 / 0; print 2;");
    assert_eq!(out.lines(), vec!["2"]);
    let errors = out.result.unwrap_err();
    assert_eq!(errors.len(), 1);
    assert_eq!(errors[0].kind, RuntimeError::DivisionByZero);
    assert_eq!(errors[0].span.lex, "/");
    assert_eq!(kinds("print 0 / 0;"), vec![RuntimeError::DivisionByZero]);
}

#[test]
fn overflow_is_an_error() {
    let max = "170141183460469231731687303715884105727";
    assert_eq!(kinds(&format!("print {} + 1;", max)), vec![RuntimeError::Overflow]);
    assert_eq!(kinds(&format!("print {} * 2;", max)), vec![RuntimeError::Overflow]);
    assert_eq!(kinds(&format!("print -{} - 2;", max)), vec![RuntimeError::Overflow]);
    assert_eq!(kinds(&format!("print (-{} - 1) / -1;", max)), vec![RuntimeError::Overflow]);
    assert_eq!(kinds(&format!("print -(-{} - 1);", max)), vec![RuntimeError::Overflow]);
    assert_eq!(
        output(&format!("print -{} - 1;", max)),
        vec!["-170141183460469231731687303715884105728"]
    );
    assert_eq!(output(&format!("print {} + 0;", max)), vec![max]);
}

#[test]
fn unary_minus_takes_an_integer() {
    assert_eq!(output("print -5;"), vec!["-5"]);
    assert_eq!(output("print --5;"), vec!["5"]);
    assert_eq!(output("print -0;"), vec!["0"]);
    assert_eq!(
        kinds("print -true;"),
        vec![RuntimeError::InvalidType(Type::Boolean, vec![Type::Integer])]
    );
    assert_eq!(
        kinds("print -\"a\";"),
        vec![RuntimeError::InvalidType(Type::String, vec![Type::Integer])]
    );
    assert_eq!(
        kinds("print -1.5;"),
        vec![RuntimeError::InvalidType(Type::Float, vec![Type::Integer])]
    );
}

#[test]
fn bang_takes_a_boolean() {
    assert_eq!(output("print !true;"), vec!["false"]);
    assert_eq!(output("print !false;"), vec!["true"]);
    assert_eq!(output("print !!true;"), vec!["true"]);
    assert_eq!(
        kinds("print !1;"),
        vec![RuntimeError::InvalidType(Type::Integer, vec![Type::Boolean])]
    );
}

#[test]
fn equality_is_no_operator_of_the_evaluator() {
    assert_eq!(
        kinds("print 1 == 1;"),
        vec![RuntimeError::InvalidOperator("==".to_string(), vec!['+', '/', '-', '*'])]
    );
}

#[test]
fn unknown_prefix_operator_in_a_tree_built_by_hand() {
    let span = |lex: &str| Span {
        line: Line(1),
        column: Column(1),
        file: None,
        lex: lex.to_string(),
    };
    let one = Token::new(TokenKind::Number, Some(Value::Integer(1)), span("1"));
    let star = Token::new(TokenKind::Star, None, span("*"));
    let stmts = vec![Stmt::Print(Expr::Unary(star, Box::new(Expr::Literal(one))))];
    let errors = Interpreter::new(stmts).interpret().result.unwrap_err();
    assert_eq!(
        errors[0].kind,
        RuntimeError::InvalidOperator("*".to_string(), vec!['-', '!'])
    );
}

#[test]
fn literal_token_without_a_value_is_null() {
    let token = Token::new(
        TokenKind::Number,
        None,
        Span { line: Line(1), column: Column(1), file: None, lex: "1".to_string() },
    );
    let out = Interpreter::new(vec![Stmt::Print(Expr::Literal(token))]).interpret();
    assert_eq!(out.lines(), vec!["Null"]);
    assert!(out.result.is_ok());
}

#[test]
fn values_print_as_text() {
    assert_eq!(output("print 12;"), vec!["12"]);
    assert_eq!(output("print \"hi there\";"), vec!["hi there"]);
    assert_eq!(output("print true;"), vec!["true"]);
    assert_eq!(output("print false;"), vec!["false"]);
    assert_eq!(output("print 2.50;"), vec!["2.50"]);
}

#[test]
fn expression_statement_prints_nothing() {
    assert_eq!(output("1 + 2;"), Vec::<String>::new());
    assert_eq!(output("var x = 1; x = 2;"), Vec::<String>::new());
}

#[test]
fn assignment_is_an_expression() {
    assert_eq!(output("var x; print x = 4; print x;"), vec!["4", "4"]);
    assert_eq!(output("var a; var b; a = b = 3; print a; print b;"), vec!["3", "3"]);
}

#[test]
fn operands_are_evaluated_from_left_to_right() {
    assert_eq!(output("var a = 1; print (a = 2) + a;"), vec!["4"]);
    assert_eq!(output("var a = 1; print a + (a = 2);"), vec!["3"]);
    assert_eq!(output("var a = 10; print (a = a - 1) * (a = a - 1);"), vec!["72"]);
}

#[test]
fn left_operand_keeps_its_effect_when_the_right_one_fails() {
    let out = interpret("var a = 1; print (a = 2) + b; print a;");
    assert_eq!(out.lines(), vec!["2"]);
    assert_eq!(out.result.unwrap_err().len(), 1);
}

#[test]
fn left_error_ends_the_expression() {
    let out = interpret("var a = 1; print b + (a = 2); print a;");
    assert_eq!(out.lines(), vec!["1"]);
    let errors = out.result.unwrap_err();
    assert_eq!(errors.len(), 1);
    assert_eq!(errors[0].kind, RuntimeError::InvalidIdent("b".to_string()));
}

#[test]
fn an_error_does_not_stop_the_next_statement() {
    let out = interpret("print x; print 1; print y; print 2;");
    assert_eq!(out.lines(), vec!["1", "2"]);
    let errors = out.result.unwrap_err();
    assert_eq!(errors.len(), 2);
    assert_eq!(errors[0].kind, RuntimeError::InvalidIdent("x".to_string()));
    assert_eq!(errors[1].kind, RuntimeError::InvalidIdent("y".to_string()));
}

#[test]
fn a_block_runs_on_after_an_error_and_leaves_its_scope() {
    let out = interpret("var x = 1; { var x = 2; print y; print x; print z; } print x;");
    assert_eq!(out.lines(), vec!["2", "1"]);
    let errors = out.result.unwrap_err();
    assert_eq!(errors.len(), 2);
    assert_eq!(errors[0].kind, RuntimeError::InvalidIdent("y".to_string()));
    assert_eq!(errors[1].kind, RuntimeError::InvalidIdent("z".to_string()));
}

#[test]
fn a_failing_initialiser_defines_nothing() {
    let out = interpret("var x = y; print x;");
    let errors = out.result.unwrap_err();
    assert_eq!(errors.len(), 2);
    assert_eq!(errors[0].kind, RuntimeError::InvalidIdent("y".to_string()));
    assert_eq!(errors[1].kind, RuntimeError::InvalidIdent("x".to_string()));
    let out = interpret("var x = 1; var x = 1 / 0; print x;");
    assert_eq!(out.lines(), vec!["1"]);
}

#[test]
fn redeclaration_in_one_scope_is_legal() {
    assert_eq!(output("var x = 1; var x = 2; print x;"), vec!["2"]);
    assert_eq!(output("var x = 1; var x = x + 1; print x;"), vec!["2"]);
    assert_eq!(kinds("var x = 1; var x; print x;"), vec![RuntimeError::UninitialisedVar(
        "x".to_string()
    )]);
}

#[test]
fn nested_blocks() {
    assert_eq!(
        output("var a = 1; { var b = 2; { var c = 3; print a + b + c; a = 10; } print a + b; } print a;"),
        vec!["6", "12", "10"]
    );
    assert_eq!(output("{ } { { } } print 1;"), vec!["1"]);
}

#[test]
fn a_block_reads_the_outer_variable_until_it_shadows_it() {
    assert_eq!(output("var x = 1; { print x; var x = 2; print x; } print x;"), vec!["1", "2", "1"]);
}

#[test]
fn empty_program_does_nothing() {
    let out = interpret("");
    assert!(out.lines().is_empty());
    assert!(out.result.is_ok());
}

#[test]
fn runtime_errors_hold_the_span_of_the_name() {
    let errors = errors("\n  print x;");
    assert_eq!(errors[0].span.line, Line(2));
    assert_eq!(errors[0].span.column, Column(9));
    assert_eq!(errors[0].span.lex, "x");
}

#[test]
fn a_run_hands_back_the_values_printed() {
    let out = interpret("print 1 + 2; print \"a\" + \"b\"; print !false; print 1.50;");
    assert_eq!(
        out.printed,
        vec![
            Value::Integer(3),
            Value::String("ab".to_string()),
            Value::Boolean(true),
            Value::Float("1.50".to_string()),
        ]
    );
    assert_eq!(out.lines(), vec!["3", "ab", "true", "1.50"]);
}
