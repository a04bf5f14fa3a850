use atium::atium::{run_checked, Atium, Failure};
use atium::error::{RuntimeError, SyntaxError};
use atium::impetuous::Impetuous;
use atium::lexer::Cursor;
use atium::parser::Parser;
use atium::token::TokenKind;

#[test]
fn a_program_runs_through_the_three_stages() {
    let out = Atium::new("var x = 2; print x * 21;", Some("main.at"))
        .lex()
        .unwrap()
        .parse()
        .ok()
        .unwrap()
        .interpret();
    assert_eq!(out.lines(), vec!["42"]);
    assert!(out.result.is_ok());
}

#[test]
fn lexical_errors_end_the_pipeline() {
    let errors = match Atium::new("print 1; @ print #;", None).lex() {
        Ok(_) => panic!("lexing passed"),
        Err(errors) => errors,
    };
    assert_eq!(errors.len(), 2);
    assert_eq!(errors[0].kind, SyntaxError::UnexpectedCharacter('@'));
    assert_eq!(errors[1].kind, SyntaxError::UnexpectedCharacter('#'));
}

#[test]
fn syntax_errors_end_the_pipeline() {
    let parsing = Atium::new("print 1; print ;", None).lex().ok().unwrap();
    let errors = match parsing.parse() {
        Ok(_) => panic!("parsing passed"),
        Err(errors) => errors,
    };
    assert_eq!(errors.len(), 1);
    assert_eq!(errors[0].kind, SyntaxError::ExpectedExpression(";".to_string()));
}

#[test]
fn too_large_a_literal_is_told_apart() {
    assert!(Atium::new("print 999999999999999999999999999999999999999999;", None)
        .lex_checked()
        .is_none());
    assert!(Atium::new("print 9;", None).lex_checked().is_some());
    assert!(run_checked("print 999999999999999999999999999999999999999999;", None).is_none());
}

#[test]
fn run_gives_what_was_printed() {
    let ran = run_checked("var x = 1; { var x = 2; print x; } print x;", None).unwrap();
    assert_eq!(ran.lines(), vec!["2", "1"]);
    assert!(ran.failure.is_none());
}

#[test]
fn run_reports_the_first_stage_that_fails() {
    let ran = run_checked("print 1; @", None).unwrap();
    assert!(ran.lines().is_empty());
    match ran.failure {
        Some(Failure::Lexical(errors)) => {
            assert_eq!(errors.len(), 1);
            assert_eq!(errors[0].kind, SyntaxError::UnexpectedCharacter('@'));
        }
        other => panic!("failure is {:?}", other),
    }
    let ran = run_checked("print 1; print", None).unwrap();
    assert!(ran.lines().is_empty());
    match ran.failure {
        Some(Failure::Syntactic(errors)) => {
            assert_eq!(errors.len(), 1);
            assert_eq!(errors[0].kind, SyntaxError::UnexpectedEOF);
        }
        other => panic!("failure is {:?}", other),
    }
    let ran = run_checked("print 1; print x; print 2;", Some("f")).unwrap();
    assert_eq!(ran.lines(), vec!["1", "2"]);
    match ran.failure {
        Some(Failure::Runtime(errors)) => {
            assert_eq!(errors.len(), 1);
            assert_eq!(errors[0].kind, RuntimeError::InvalidIdent("x".to_string()));
            assert_eq!(errors[0].span.file, Some("f".to_string()));
        }
        other => panic!("failure is {:?}", other),
    }
}

#[test]
fn a_malformed_program_is_not_run() {
    let ran = run_checked("print 1; var ;", None).unwrap();
    assert!(ran.lines().is_empty());
    assert!(matches!(ran.failure, Some(Failure::Syntactic(_))));
}

#[test]
fn the_parser_is_a_cursor_with_lookahead() {
    fn second<C: Impetuous>(cursor: &mut C) -> Option<C::Item> {
        cursor.step();
        cursor.step()
    }
    let tokens = Cursor::new("a b c", None).lex().unwrap();
    let mut parser = Parser::new(tokens);
    assert_eq!(second(&mut parser).unwrap().lex(), "b");
    assert_eq!(Impetuous::prev(&parser).unwrap().lex(), "b");
    assert_eq!(Impetuous::peer(&mut parser).unwrap().lex(), "c");
    assert_eq!(Impetuous::taste(&mut parser, TokenKind::Identifier).unwrap(), true);
    assert!(Impetuous::eat(&mut parser, TokenKind::Number).is_none());
    assert_eq!(Impetuous::advance(&mut parser).unwrap().lex(), "c");
    assert!(Impetuous::advance(&mut parser).is_err());
}
