use atium::ast::{Expr, Stmt};
use atium::error::{Column, Diagnostic, Line, Span, SyntaxError};
use atium::lexer::Cursor;
use atium::parser::{infix_bp, prefix_bp, Parser};
use atium::token::{Token, TokenKind, Value};

fn tokens(src: &str) -> Vec<Token> {
    Cursor::new(src, None).lex().expect("no lexical error")
}

fn expression(src: &str) -> Result<Expr, Diagnostic<SyntaxError>> {
    Parser::new(tokens(src)).expression()
}

fn shape(src: &str) -> String {
    expression(src).expect("an expression").text()
}

fn program(src: &str) -> Vec<Stmt> {
    Parser::new(tokens(src)).parse().expect("no syntax error")
}

fn syntax_errors(src: &str) -> Vec<SyntaxError> {
    Parser::new(tokens(src))
        .parse()
        .expect_err("a syntax error")
        .into_iter()
        .map(|d| d.kind)
        .collect()
}

fn expected(c: char, found: &str) -> SyntaxError {
    SyntaxError::ExpectedCharacter { found: found.to_string(), expected: c }
}

#[test]
fn multiplication_binds_tighter_than_addition() {
    match expression("1+2*3").unwrap() {
        Expr::Binary(left, op, right) => {
            assert_eq!(op.kind, TokenKind::Plus);
            match *left {
                Expr::Literal(t) => assert_eq!(t.literal, Some(Value::Integer(1))),
                other => panic!("left is {:?}", other),
            }
            match *right {
                Expr::Binary(l, op, r) => {
                    assert_eq!(op.kind, TokenKind::Star);
                    match (*l, *r) {
                        (Expr::Literal(a), Expr::Literal(b)) => {
                            assert_eq!(a.literal, Some(Value::Integer(2)));
                            assert_eq!(b.literal, Some(Value::Integer(3)));
                        }
                        other => panic!("operands are {:?}", other),
                    }
                }
                other => panic!("right is {:?}", other),
            }
        }
        other => panic!("parsed to {:?}", other),
    }
    assert_eq!(shape("1+2*3"), "(1 + (2 * 3))");
    assert_eq!(shape("1*2+3"), "((1 * 2) + 3)");
}

#[test]
fn subtraction_associates_to_the_left() {
    match expression("2-3-4").unwrap() {
        Expr::Binary(left, op, right) => {
            assert_eq!(op.kind, TokenKind::Minus);
            match *right {
                Expr::Literal(t) => assert_eq!(t.literal, Some(Value::Integer(4))),
                other => panic!("right is {:?}", other),
            }
            match *left {
                Expr::Binary(l, op, r) => {
                    assert_eq!(op.kind, TokenKind::Minus);
                    match (*l, *r) {
                        (Expr::Literal(a), Expr::Literal(b)) => {
                            assert_eq!(a.literal, Some(Value::Integer(2)));
                            assert_eq!(b.literal, Some(Value::Integer(3)));
                        }
                        other => panic!("operands are {:?}", other),
                    }
                }
                other => panic!("left is {:?}", other),
            }
        }
        other => panic!("parsed to {:?}", other),
    }
    assert_eq!(shape("2-3-4"), "((2 - 3) - 4)");
}

#[test]
fn operators_of_one_level_associate_to_the_left() {
    assert_eq!(shape("1+2-3+4"), "(((1 + 2) - 3) + 4)");
    assert_eq!(shape("8/4*2/1"), "(((8 / 4) * 2) / 1)");
}

#[test]
fn equality_binds_looser_than_addition() {
    assert_eq!(shape("1+2==3"), "((1 + 2) == 3)");
    assert_eq!(shape("1==2+3"), "(1 == (2 + 3))");
}

#[test]
fn assignment_binds_loosest_and_to_the_right() {
    assert_eq!(shape("a = 1 + 2"), "(1 + 2) -> a");
    assert_eq!(shape("a = b = 3"), "3 -> b -> a");
    assert_eq!(shape("a = 1 == 2"), "(1 == 2) -> a");
}

#[test]
fn prefix_operators_bind_tightest() {
    assert_eq!(shape("-1*2"), "((-1) * 2)");
    assert_eq!(shape("-1+2"), "((-1) + 2)");
    assert_eq!(shape("!a == b"), "((!a) == b)");
    assert_eq!(shape("--1"), "(-(-1))");
    assert_eq!(shape("1 - -2"), "(1 - (-2))");
}

#[test]
fn grouping_is_kept_in_the_tree() {
    assert_eq!(shape("(1+2)*3"), "([(1 + 2)] * 3)");
    assert_eq!(shape("((1))"), "[[1]]");
    match expression("(1)").unwrap() {
        Expr::Grouping(inner) => match *inner {
            Expr::Literal(t) => assert_eq!(t.lex(), "1"),
            other => panic!("inner is {:?}", other),
        },
        other => panic!("parsed to {:?}", other),
    }
}

#[test]
fn literals_and_names() {
    assert!(matches!(expression("1").unwrap(), Expr::Literal(_)));
    assert!(matches!(expression("\"s\"").unwrap(), Expr::Literal(_)));
    assert!(matches!(expression("true").unwrap(), Expr::Literal(_)));
    assert!(matches!(expression("false").unwrap(), Expr::Literal(_)));
    assert!(matches!(expression("1.5").unwrap(), Expr::Literal(_)));
    assert!(matches!(expression("x").unwrap(), Expr::Variable(_)));
}

#[test]
fn expression_stops_before_what_is_no_operator() {
    let mut parser = Parser::new(tokens("1 + 2 ; 3"));
    assert_eq!(parser.expression().unwrap().text(), "(1 + 2)");
    assert_eq!(parser.peer().unwrap().kind, TokenKind::Semicolon);
    let mut parser = Parser::new(tokens("1 2"));
    assert_eq!(parser.expression().unwrap().text(), "1");
    assert_eq!(parser.peer().unwrap().lex(), "2");
}

#[test]
fn missing_closing_parenthesis() {
    assert_eq!(expression("(1 + 2").unwrap_err().kind, expected(')', "EOF"));
    assert_eq!(expression("(1 + 2;").unwrap_err().kind, expected(')', ";"));
    assert_eq!(syntax_errors("print (1;"), vec![expected(')', ";")]);
}

#[test]
fn input_ends_inside_an_expression() {
    assert_eq!(expression("").unwrap_err().kind, SyntaxError::UnexpectedEOF);
    assert_eq!(expression("1 +").unwrap_err().kind, SyntaxError::UnexpectedEOF);
    assert_eq!(expression("-").unwrap_err().kind, SyntaxError::UnexpectedEOF);
    assert_eq!(expression("(").unwrap_err().kind, SyntaxError::UnexpectedEOF);
    assert_eq!(expression("a =").unwrap_err().kind, SyntaxError::UnexpectedEOF);
    assert_eq!(expression("1 +").unwrap_err().span, Span::unknown());
}

#[test]
fn plus_is_no_prefix_operator() {
    assert_eq!(expression("+1").unwrap_err().kind, SyntaxError::UnaryPlus);
    assert_eq!(expression("1 * +2").unwrap_err().kind, SyntaxError::UnaryPlus);
    assert_eq!(syntax_errors("print +1;"), vec![SyntaxError::UnaryPlus]);
}

#[test]
fn token_that_starts_no_expression() {
    assert_eq!(
        expression("*").unwrap_err().kind,
        SyntaxError::ExpectedExpression("*".to_string())
    );
    assert_eq!(
        expression("1 + )").unwrap_err().kind,
        SyntaxError::ExpectedExpression(")".to_string())
    );
    assert_eq!(
        expression("nil").unwrap_err().kind,
        SyntaxError::ExpectedExpression("nil".to_string())
    );
}

#[test]
fn failed_expression_leaves_the_offending_token() {
    let mut parser = Parser::new(tokens("1 + ; 2"));
    assert!(parser.expression().is_err());
    assert_eq!(parser.peer().unwrap().kind, TokenKind::Semicolon);
}

#[test]
fn error_holds_the_span_of_the_offending_token() {
    let err = expression("1 +\n   )").unwrap_err();
    assert_eq!(err.span.line, Line(2));
    assert_eq!(err.span.column, Column(4));
    assert_eq!(err.span.lex, ")");
}

#[test]
fn assignment_needs_a_name_on_its_left() {
    assert_eq!(expression("1 = 2").unwrap_err().kind, SyntaxError::InvalidAssignmentTarget);
    assert_eq!(expression("(a) = 2").unwrap_err().kind, SyntaxError::InvalidAssignmentTarget);
    assert_eq!(expression("a + b = 2").unwrap_err().kind, SyntaxError::InvalidAssignmentTarget);
    assert_eq!(expression("1 = 2").unwrap_err().span.lex, "=");
    match expression("a = 2").unwrap() {
        Expr::Assignment(name, value) => {
            assert_eq!(name.lex(), "a");
            assert!(matches!(*value, Expr::Literal(_)));
        }
        other => panic!("parsed to {:?}", other),
    }
}

#[test]
fn binding_powers() {
    assert_eq!(infix_bp(&TokenKind::Equal), Some((2, 1)));
    assert_eq!(infix_bp(&TokenKind::EqualEqual), Some((4, 3)));
    assert_eq!(infix_bp(&TokenKind::Plus), Some((5, 6)));
    assert_eq!(infix_bp(&TokenKind::Minus), Some((5, 6)));
    assert_eq!(infix_bp(&TokenKind::Star), Some((7, 8)));
    assert_eq!(infix_bp(&TokenKind::Slash), Some((7, 8)));
    assert_eq!(infix_bp(&TokenKind::Bang), None);
    assert_eq!(infix_bp(&TokenKind::Semicolon), None);
    assert_eq!(infix_bp(&TokenKind::Less), None);
    assert_eq!(prefix_bp(&TokenKind::Minus), ((), 9));
    assert_eq!(prefix_bp(&TokenKind::Bang), ((), 9));
}

#[test]
fn prefix_binds_tighter_than_every_infix_operator() {
    let infix = [
        TokenKind::Equal,
        TokenKind::EqualEqual,
        TokenKind::Plus,
        TokenKind::Minus,
        TokenKind::Star,
        TokenKind::Slash,
    ];
    for op in infix {
        let (left, right) = infix_bp(&op).unwrap();
        assert!(left < prefix_bp(&TokenKind::Minus).1);
        assert!(right < prefix_bp(&TokenKind::Minus).1);
    }
}

#[test]
fn empty_program() {
    assert!(program("").is_empty());
}

#[test]
fn variable_declaration() {
    let stmts = program("var x = 1 + 2; var y;");
    assert_eq!(stmts.len(), 2);
    match &stmts[0] {
        Stmt::Var { name, value } => {
            assert_eq!(name.lex(), "x");
            assert_eq!(name.kind, TokenKind::Identifier);
            assert_eq!(value.as_ref().unwrap().text(), "(1 + 2)");
        }
        other => panic!("parsed to {:?}", other),
    }
    match &stmts[1] {
        Stmt::Var { name, value } => {
            assert_eq!(name.lex(), "y");
            assert!(value.is_none());
        }
        other => panic!("parsed to {:?}", other),
    }
}

#[test]
fn print_statement() {
    let stmts = program("print 1 + 2;");
    assert_eq!(stmts.len(), 1);
    match &stmts[0] {
        Stmt::Print(e) => assert_eq!(e.text(), "(1 + 2)"),
        other => panic!("parsed to {:?}", other),
    }
}

#[test]
fn expression_statement_needs_its_semicolon() {
    let stmts = program("x = 2; 1 + 1;");
    assert_eq!(stmts.len(), 2);
    assert!(matches!(&stmts[0], Stmt::Expr(Expr::Assignment(_, _))));
    assert!(matches!(&stmts[1], Stmt::Expr(Expr::Binary(_, _, _))));
    assert_eq!(syntax_errors("x = 2"), vec![expected(';', "EOF")]);
    assert_eq!(syntax_errors("1 2;"), vec![expected(';', "2")]);
}

#[test]
fn block_statement() {
    let stmts = program("{ var x = 1; print x; { } }");
    assert_eq!(stmts.len(), 1);
    match &stmts[0] {
        Stmt::Block(inner) => {
            assert_eq!(inner.len(), 3);
            assert!(matches!(&inner[0], Stmt::Var { .. }));
            assert!(matches!(&inner[1], Stmt::Print(_)));
            match &inner[2] {
                Stmt::Block(empty) => assert!(empty.is_empty()),
                other => panic!("parsed to {:?}", other),
            }
        }
        other => panic!("parsed to {:?}", other),
    }
}

#[test]
fn block_without_its_closing_brace() {
    assert_eq!(syntax_errors("{ print 1;"), vec![expected('}', "EOF")]);
    assert_eq!(syntax_errors("{"), vec![expected('}', "EOF")]);
    assert_eq!(syntax_errors("{ { }"), vec![expected('}', "EOF")]);
}

#[test]
fn closing_brace_without_a_block() {
    assert_eq!(syntax_errors("}"), vec![SyntaxError::ExpectedExpression("}".to_string())]);
}

#[test]
fn print_without_its_semicolon() {
    assert_eq!(syntax_errors("print 1"), vec![expected(';', "EOF")]);
    assert_eq!(syntax_errors("print 1 }"), vec![expected(';', "}")]);
}

#[test]
fn declaration_without_a_name() {
    assert_eq!(syntax_errors("var 1;"), vec![SyntaxError::ExpectedIdent("1".to_string())]);
    assert_eq!(syntax_errors("var"), vec![SyntaxError::ExpectedIdent("EOF".to_string())]);
    assert_eq!(syntax_errors("var = 1;"), vec![SyntaxError::ExpectedIdent("=".to_string())]);
    assert_eq!(syntax_errors("var print;"), vec![SyntaxError::ExpectedIdent("print".to_string())]);
}

#[test]
fn declaration_without_its_semicolon() {
    assert_eq!(syntax_errors("var x"), vec![expected(';', "EOF")]);
    assert_eq!(syntax_errors("var x = 1"), vec![expected(';', "EOF")]);
    assert_eq!(syntax_errors("var x 1;"), vec![expected(';', "1")]);
}

#[test]
fn declaration_with_a_failing_initialiser() {
    assert_eq!(syntax_errors("var x = ;"), vec![SyntaxError::ExpectedExpression(";".to_string())]);
    assert_eq!(syntax_errors("var x ="), vec![SyntaxError::UnexpectedEOF]);
}

#[test]
fn two_malformed_statements_give_two_diagnostics() {
    assert_eq!(
        syntax_errors("var 1; var 2;"),
        vec![
            SyntaxError::ExpectedIdent("1".to_string()),
            SyntaxError::ExpectedIdent("2".to_string())
        ]
    );
    assert_eq!(
        syntax_errors("print 1 +; print (2;"),
        vec![SyntaxError::ExpectedExpression(";".to_string()), expected(')', ";")]
    );
    assert_eq!(
        syntax_errors("print ; print ;"),
        vec![
            SyntaxError::ExpectedExpression(";".to_string()),
            SyntaxError::ExpectedExpression(";".to_string())
        ]
    );
}

#[test]
fn statement_between_two_malformed_ones_is_parsed() {
    assert_eq!(
        syntax_errors("var ; print 1; var ;"),
        vec![
            SyntaxError::ExpectedIdent(";".to_string()),
            SyntaxError::ExpectedIdent(";".to_string())
        ]
    );
}

#[test]
fn a_failure_hands_back_no_statements() {
    assert!(Parser::new(tokens("print 1; print ;")).parse().is_err());
    assert_eq!(syntax_errors("print 1; print ;").len(), 1);
}

#[test]
fn recovery_skips_to_the_next_statement_keyword() {
    assert_eq!(
        syntax_errors("print 1 2 3 4 print ;"),
        vec![expected(';', "2"), SyntaxError::ExpectedExpression(";".to_string())]
    );
    assert_eq!(syntax_errors("1 2 3 var x = 1;"), vec![expected(';', "2")]);
    assert_eq!(syntax_errors("1 2 3 4 5"), vec![expected(';', "2")]);
}

#[test]
fn recovery_stops_behind_a_semicolon() {
    let mut parser = Parser::new(tokens("; 1 ; print 2;"));
    parser.recover();
    assert_eq!(parser.peer().unwrap().lex(), "1");
    parser.recover();
    assert_eq!(parser.peer().unwrap().kind, TokenKind::Print);
    let mut parser = Parser::new(tokens(""));
    parser.recover();
    assert!(parser.peer().is_err());
}

#[test]
fn recovery_leaves_the_keyword_it_finds() {
    for keyword in ["class", "fun", "var", "for", "if", "while", "print", "return"] {
        let src = format!("1 2 {} 3", keyword);
        let mut parser = Parser::new(tokens(&src));
        parser.recover();
        assert_eq!(parser.peer().unwrap().lex(), keyword);
    }
    let mut parser = Parser::new(tokens("1 else and 2"));
    parser.recover();
    assert!(parser.peer().is_err());
}

#[test]
fn declaration_recovers_where_it_fails() {
    let mut parser = Parser::new(tokens("var 1 2 ; print 3;"));
    assert_eq!(
        parser.declaration().unwrap_err().kind,
        SyntaxError::ExpectedIdent("1".to_string())
    );
    assert_eq!(parser.peer().unwrap().kind, TokenKind::Print);
    assert!(matches!(parser.declaration().unwrap(), Stmt::Print(_)));
    assert_eq!(parser.declaration().unwrap_err().kind, SyntaxError::UnexpectedEOF);
}

#[test]
fn parsing_never_loops_on_stray_tokens() {
    assert_eq!(syntax_errors(") ) )").len(), 1);
    assert_eq!(syntax_errors("; ; ;").len(), 3);
    assert_eq!(syntax_errors("} ; {").len(), 1);
    assert_eq!(syntax_errors("; } ; {").len(), 2);
}

#[test]
fn cursor_steps_and_looks_ahead() {
    let mut parser = Parser::new(tokens("a b"));
    assert!(parser.prev().is_none());
    assert_eq!(parser.peek_kind(), Some(TokenKind::Identifier));
    assert_eq!(parser.peer().unwrap().lex(), "a");
    assert_eq!(parser.taste(TokenKind::Identifier).unwrap(), true);
    assert_eq!(parser.taste(TokenKind::Number).unwrap(), false);
    assert!(parser.eat(TokenKind::Number).is_none());
    assert_eq!(parser.eat(TokenKind::Identifier).unwrap().lex(), "a");
    assert_eq!(parser.prev().unwrap().lex(), "a");
    assert_eq!(parser.step().unwrap().lex(), "b");
    assert_eq!(parser.prev().unwrap().lex(), "b");
    assert!(parser.step().is_none());
    assert_eq!(parser.peek_kind(), None);
    assert_eq!(parser.advance().unwrap_err().kind, SyntaxError::UnexpectedEOF);
    assert_eq!(parser.peer().unwrap_err().kind, SyntaxError::UnexpectedEOF);
    assert_eq!(parser.taste(TokenKind::Identifier).unwrap_err().kind, SyntaxError::UnexpectedEOF);
    assert!(parser.eat(TokenKind::Identifier).is_none());
    assert_eq!(parser.prev().unwrap().lex(), "b");
}

#[test]
fn parse_goes_on_from_where_the_parser_stands() {
    let mut parser = Parser::new(tokens("1 2 ; print 3;"));
    parser.step();
    parser.step();
    parser.step();
    let stmts = parser.parse().unwrap();
    assert_eq!(stmts.len(), 1);
    assert!(parser.peer().is_err());
}

#[test]
fn tokens_built_by_hand_parse_too() {
    let span = |lex: &str| Span {
        line: Line(1),
        column: Column(1),
        file: None,
        lex: lex.to_string(),
    };
    let stream = vec![
        Token::new(TokenKind::Print, None, span("print")),
        Token::new(TokenKind::Number, Some(Value::Integer(4)), span("4")),
        Token::new(TokenKind::Semicolon, None, span(";")),
    ];
    let stmts = Parser::new(stream).parse().unwrap();
    match &stmts[0] {
        Stmt::Print(Expr::Literal(t)) => assert_eq!(t.literal, Some(Value::Integer(4))),
        other => panic!("parsed to {:?}", other),
    }
}
