use atium::error::{Column, Diagnostic, Line, SyntaxError};
use atium::lexer::Cursor;
use atium::token::{Token, TokenKind, Value};

fn lex(src: &str) -> Vec<Token> {
    Cursor::new(src, None).lex().expect("no lexical error")
}

fn lex_errors(src: &str) -> Vec<Diagnostic<SyntaxError>> {
    Cursor::new(src, None).lex().expect_err("a lexical error")
}

fn kinds(src: &str) -> Vec<TokenKind> {
    lex(src).iter().map(|t| t.kind).collect()
}

fn lexemes(src: &str) -> Vec<String> {
    lex(src).iter().map(|t| t.lex()).collect()
}

#[test]
fn empty_source_has_no_tokens() {
    assert!(lex("").is_empty());
    assert!(lex(" \t\r\n").is_empty());
}

#[test]
fn single_character_tokens() {
    assert_eq!(
        kinds("(){},.-+;*"),
        vec![
            TokenKind::LeftParen,
            TokenKind::RightParen,
            TokenKind::LeftBrace,
            TokenKind::RightBrace,
            TokenKind::Comma,
            TokenKind::Dot,
            TokenKind::Minus,
            TokenKind::Plus,
            TokenKind::Semicolon,
            TokenKind::Star,
        ]
    );
    assert_eq!(lexemes("(){},.-+;*"), vec!["(", ")", "{", "}", ",", ".", "-", "+", ";", "*"]);
}

#[test]
fn single_character_tokens_carry_no_literal() {
    for t in lex("( ) ; + =") {
        assert_eq!(t.literal, None);
    }
}

#[test]
fn two_character_operators_match_greedily() {
    assert_eq!(
        kinds("! != = == < <= > >="),
        vec![
            TokenKind::Bang,
            TokenKind::BangEqual,
            TokenKind::Equal,
            TokenKind::EqualEqual,
            TokenKind::Less,
            TokenKind::LessEqual,
            TokenKind::Greater,
            TokenKind::GreaterEqual,
        ]
    );
    assert_eq!(lexemes("! != = == < <= > >="), vec!["!", "!=", "=", "==", "<", "<=", ">", ">="]);
}

#[test]
fn three_equals_are_a_pair_and_one() {
    assert_eq!(kinds("==="), vec![TokenKind::EqualEqual, TokenKind::Equal]);
    assert_eq!(kinds("!=="), vec![TokenKind::BangEqual, TokenKind::Equal]);
}

#[test]
fn lone_operator_at_the_end_is_a_token() {
    assert_eq!(kinds("!"), vec![TokenKind::Bang]);
    assert_eq!(kinds("="), vec![TokenKind::Equal]);
    assert_eq!(kinds("<"), vec![TokenKind::Less]);
    assert_eq!(kinds(">"), vec![TokenKind::Greater]);
    assert_eq!(lexemes("a !"), vec!["a", "!"]);
}

#[test]
fn operator_before_another_character_keeps_its_own_text() {
    assert_eq!(lexemes("!a"), vec!["!", "a"]);
    assert_eq!(lexemes("<1"), vec!["<", "1"]);
}

#[test]
fn slash_alone_is_a_token() {
    assert_eq!(kinds("1 / 2"), vec![TokenKind::Number, TokenKind::Slash, TokenKind::Number]);
    assert_eq!(kinds("/"), vec![TokenKind::Slash]);
    assert_eq!(lexemes("/"), vec!["/"]);
}

#[test]
fn comment_runs_through_the_end_of_the_line() {
    assert_eq!(lexemes("1 // two three\n4"), vec!["1", "4"]);
    assert_eq!(lexemes("// only a comment"), Vec::<String>::new());
    assert_eq!(lexemes("//"), Vec::<String>::new());
    assert_eq!(lexemes("a//b\n//c\nd"), vec!["a", "d"]);
}

#[test]
fn comment_may_hold_any_character() {
    assert_eq!(lexemes("1 // @ # \" ~\n2"), vec!["1", "2"]);
}

#[test]
fn string_literal_carries_its_content() {
    let tokens = lex("\"hello world\"");
    assert_eq!(tokens.len(), 1);
    assert_eq!(tokens[0].kind, TokenKind::String);
    assert_eq!(tokens[0].lex(), "\"hello world\"");
    assert_eq!(tokens[0].literal, Some(Value::String("hello world".to_string())));
}

#[test]
fn empty_string_literal() {
    let tokens = lex("\"\"");
    assert_eq!(tokens.len(), 1);
    assert_eq!(tokens[0].lex(), "\"\"");
    assert_eq!(tokens[0].literal, Some(Value::String(String::new())));
}

#[test]
fn string_literal_may_hold_slashes_and_line_ends() {
    let tokens = lex("\"a//b\nc\" x");
    assert_eq!(tokens.len(), 2);
    assert_eq!(tokens[0].literal, Some(Value::String("a//b\nc".to_string())));
    assert_eq!(tokens[1].lex(), "x");
    assert_eq!(tokens[1].span.line, Line(2));
    assert_eq!(tokens[1].span.column, Column(4));
}

#[test]
fn unterminated_string_is_an_error() {
    let errors = lex_errors("\"abc");
    assert_eq!(errors.len(), 1);
    assert_eq!(
        errors[0].kind,
        SyntaxError::ExpectedCharacter { found: "EOF".to_string(), expected: '"' }
    );
    assert_eq!(errors[0].span.lex, "\"abc");
    assert_eq!(errors[0].span.line, Line(1));
    assert_eq!(errors[0].span.column, Column(1));
}

#[test]
fn unterminated_string_still_makes_a_token() {
    let (tokens, errors) = Cursor::new("print \"abc", None).lex_all().unwrap();
    assert_eq!(errors.len(), 1);
    assert_eq!(tokens.len(), 2);
    assert_eq!(tokens[1].kind, TokenKind::String);
    assert_eq!(tokens[1].lex(), "\"abc");
    assert_eq!(tokens[1].literal, Some(Value::String("abc".to_string())));
}

#[test]
fn integer_literal_carries_its_value() {
    let tokens = lex("0 7 0012 1234567890");
    let values: Vec<Option<Value>> = tokens.iter().map(|t| t.literal.clone()).collect();
    assert_eq!(
        values,
        vec![
            Some(Value::Integer(0)),
            Some(Value::Integer(7)),
            Some(Value::Integer(12)),
            Some(Value::Integer(1234567890)),
        ]
    );
    assert_eq!(
        tokens.iter().map(|t| t.lex()).collect::<Vec<_>>(),
        vec!["0", "7", "0012", "1234567890"]
    );
    assert!(tokens.iter().all(|t| t.kind == TokenKind::Number));
}

#[test]
fn largest_integer_literal() {
    let tokens = lex("170141183460469231731687303715884105727");
    assert_eq!(tokens[0].literal, Some(Value::Integer(i128::MAX)));
}

#[test]
fn integer_literal_too_large_is_fatal() {
    assert!(Cursor::new("170141183460469231731687303715884105728", None).lex_checked().is_none());
    assert!(Cursor::new("print 999999999999999999999999999999999999999999;", None)
        .lex_all()
        .is_none());
    assert!(Cursor::new("@ 999999999999999999999999999999999999999999", None)
        .lex_checked()
        .is_none());
}

#[test]
fn float_literal_carries_its_text() {
    let tokens = lex("1.5 10.25 3.");
    assert_eq!(tokens.len(), 3);
    assert!(tokens.iter().all(|t| t.kind == TokenKind::Number));
    assert_eq!(tokens[0].literal, Some(Value::Float("1.5".to_string())));
    assert_eq!(tokens[1].literal, Some(Value::Float("10.25".to_string())));
    assert_eq!(tokens[2].literal, Some(Value::Float("3.".to_string())));
    assert_eq!(tokens[1].lex(), "10.25");
}

#[test]
fn float_literal_text_parses_as_a_float() {
    for t in lex("1.5 10.25 3. 0.0") {
        match t.literal {
            Some(Value::Float(text)) => assert!(text.parse::<f64>().is_ok()),
            other => panic!("not a float: {:?}", other),
        }
    }
}

#[test]
fn number_takes_at_most_one_point() {
    assert_eq!(
        kinds("1.2.3"),
        vec![TokenKind::Number, TokenKind::Dot, TokenKind::Number]
    );
    assert_eq!(lexemes("1.2.3"), vec!["1.2", ".", "3"]);
    assert_eq!(lexemes("1..2"), vec!["1.", ".", "2"]);
}

#[test]
fn point_before_a_number_is_a_dot() {
    assert_eq!(kinds(".5"), vec![TokenKind::Dot, TokenKind::Number]);
}

#[test]
fn huge_float_literal_is_not_fatal() {
    let tokens = lex("999999999999999999999999999999999999999999.5");
    assert_eq!(tokens.len(), 1);
    assert_eq!(
        tokens[0].literal,
        Some(Value::Float("999999999999999999999999999999999999999999.5".to_string()))
    );
}

#[test]
fn names_are_identifiers() {
    let tokens = lex("foo Bar x1 a0b");
    assert!(tokens.iter().all(|t| t.kind == TokenKind::Identifier));
    assert!(tokens.iter().all(|t| t.literal.is_none()));
    assert_eq!(
        tokens.iter().map(|t| t.lex()).collect::<Vec<_>>(),
        vec!["foo", "Bar", "x1", "a0b"]
    );
}

#[test]
fn reserved_words() {
    assert_eq!(
        kinds("and class else false fun for if nil or print return super this true var while"),
        vec![
            TokenKind::And,
            TokenKind::Class,
            TokenKind::Else,
            TokenKind::False,
            TokenKind::Fun,
            TokenKind::For,
            TokenKind::If,
            TokenKind::Nil,
            TokenKind::Or,
            TokenKind::Print,
            TokenKind::Return,
            TokenKind::Super,
            TokenKind::This,
            TokenKind::True,
            TokenKind::Var,
            TokenKind::While,
        ]
    );
}

#[test]
fn reserved_words_are_case_sensitive_and_whole() {
    assert_eq!(
        kinds("Print printer var1 truefalse"),
        vec![
            TokenKind::Identifier,
            TokenKind::Identifier,
            TokenKind::Identifier,
            TokenKind::Identifier
        ]
    );
}

#[test]
fn true_and_false_carry_their_value() {
    let tokens = lex("true false nil");
    assert_eq!(tokens[0].literal, Some(Value::Boolean(true)));
    assert_eq!(tokens[1].literal, Some(Value::Boolean(false)));
    assert_eq!(tokens[2].literal, None);
}

#[test]
fn digits_then_letters_are_two_tokens() {
    assert_eq!(kinds("12ab"), vec![TokenKind::Number, TokenKind::Identifier]);
    assert_eq!(lexemes("12ab"), vec!["12", "ab"]);
}

#[test]
fn unexpected_character_is_an_error() {
    let errors = lex_errors("@");
    assert_eq!(errors.len(), 1);
    assert_eq!(errors[0].kind, SyntaxError::UnexpectedCharacter('@'));
    assert_eq!(errors[0].span.lex, "@");
}

#[test]
fn underscore_is_no_part_of_a_name() {
    let errors = lex_errors("a_b");
    assert_eq!(errors.len(), 1);
    assert_eq!(errors[0].kind, SyntaxError::UnexpectedCharacter('_'));
}

#[test]
fn lexing_goes_on_after_an_error() {
    let (tokens, errors) = Cursor::new("1 @ 2 # 3", None).lex_all().unwrap();
    assert_eq!(tokens.iter().map(|t| t.lex()).collect::<Vec<_>>(), vec!["1", "2", "3"]);
    assert_eq!(errors.len(), 2);
    assert_eq!(errors[0].kind, SyntaxError::UnexpectedCharacter('@'));
    assert_eq!(errors[1].kind, SyntaxError::UnexpectedCharacter('#'));
}

#[test]
fn every_lexical_error_is_reported() {
    let errors = lex_errors("@ $ \"open");
    assert_eq!(errors.len(), 3);
    assert_eq!(errors[0].kind, SyntaxError::UnexpectedCharacter('@'));
    assert_eq!(errors[1].kind, SyntaxError::UnexpectedCharacter('$'));
    assert_eq!(
        errors[2].kind,
        SyntaxError::ExpectedCharacter { found: "EOF".to_string(), expected: '"' }
    );
}

#[test]
fn non_ascii_character_is_an_error() {
    let errors = lex_errors("é");
    assert_eq!(errors[0].kind, SyntaxError::UnexpectedCharacter('é'));
    let tokens = lex("\"é\" x");
    assert_eq!(tokens[0].literal, Some(Value::String("é".to_string())));
    assert_eq!(tokens[1].span.column, Column(5));
}

#[test]
fn spans_hold_line_and_column_from_one() {
    let tokens = lex("var x = 1;\n  print x;\n\nx");
    let places: Vec<(u32, u32)> =
        tokens.iter().map(|t| (t.span.line.0, t.span.column.0)).collect();
    assert_eq!(
        places,
        vec![(1, 1), (1, 5), (1, 7), (1, 9), (1, 10), (2, 3), (2, 9), (2, 10), (4, 1)]
    );
}

#[test]
fn a_comment_ends_its_line() {
    let tokens = lex("a // b\nc");
    assert_eq!(tokens[1].span.line, Line(2));
    assert_eq!(tokens[1].span.column, Column(1));
}

#[test]
fn error_spans_hold_their_place() {
    let errors = lex_errors("ab\n  @");
    assert_eq!(errors[0].span.line, Line(2));
    assert_eq!(errors[0].span.column, Column(3));
}

#[test]
fn spans_hold_the_file() {
    let tokens = Cursor::new("x", Some("main.at")).lex().unwrap();
    assert_eq!(tokens[0].span.file, Some("main.at".to_string()));
    let tokens = Cursor::new("x", None).lex().unwrap();
    assert_eq!(tokens[0].span.file, None);
    let errors = Cursor::new("@", Some("main.at")).lex().unwrap_err();
    assert_eq!(errors[0].span.file, Some("main.at".to_string()));
}

#[test]
fn carriage_return_and_tab_are_skipped() {
    assert_eq!(lexemes("a\r\n\tb"), vec!["a", "b"]);
}

#[test]
fn lexemes_and_blanks_give_the_source_again() {
    let src = "var answer = (1 + 20) * 3; // the answer\nprint \"a b\" ;\n{ x = !y; }";
    let tokens = lex(src);
    let chars: Vec<char> = src.chars().collect();
    let mut at = 0usize;
    let mut rebuilt = String::new();
    for t in &tokens {
        let lexeme: Vec<char> = t.lex().chars().collect();
        while chars[at..at + lexeme.len()] != lexeme[..] {
            let c = chars[at];
            if c == '/' {
                while at < chars.len() && chars[at] != '\n' {
                    at += 1;
                }
            } else {
                assert!(c == ' ' || c == '\n' || c == '\t' || c == '\r');
                rebuilt.push(c);
                at += 1;
            }
        }
        rebuilt.push_str(&t.lex());
        at += lexeme.len();
    }
    assert_eq!(at, chars.len());
    assert_eq!(rebuilt, src.replace("// the answer", ""));
}

#[test]
fn a_statement_lexes_to_its_tokens() {
    assert_eq!(
        kinds("var x = 1 + 2;"),
        vec![
            TokenKind::Var,
            TokenKind::Identifier,
            TokenKind::Equal,
            TokenKind::Number,
            TokenKind::Plus,
            TokenKind::Number,
            TokenKind::Semicolon,
        ]
    );
}

#[test]
fn pieces_can_be_read_one_by_one() {
    let mut cursor = Cursor::new("<= ab 12 \"s\" / //c", None);
    assert_eq!(cursor.begin(), Some('<'));
    cursor.branching_char('<', '=', TokenKind::LessEqual, TokenKind::Less);
    assert_eq!(cursor.begin(), Some(' '));
    assert_eq!(cursor.begin(), Some('a'));
    cursor.handle_ident('a');
    assert_eq!(cursor.begin(), Some(' '));
    assert_eq!(cursor.begin(), Some('1'));
    cursor.handle_number('1');
    assert_eq!(cursor.begin(), Some(' '));
    assert_eq!(cursor.begin(), Some('"'));
    cursor.handle_string();
    assert_eq!(cursor.begin(), Some(' '));
    assert_eq!(cursor.begin(), Some('/'));
    cursor.handle_comment('/');
    assert_eq!(cursor.begin(), Some(' '));
    assert_eq!(cursor.begin(), Some('/'));
    cursor.handle_comment('/');
    assert_eq!(cursor.begin(), None);
    let tokens = cursor.lex().unwrap();
    assert_eq!(
        tokens.iter().map(|t| t.lex()).collect::<Vec<_>>(),
        vec!["<=", "ab", "12", "\"s\"", "/"]
    );
}

#[test]
fn add_token_uses_the_marked_place() {
    let mut cursor = Cursor::new("\n  x", None);
    assert_eq!(cursor.begin(), Some('\n'));
    assert_eq!(cursor.begin(), Some(' '));
    assert_eq!(cursor.begin(), Some(' '));
    assert_eq!(cursor.begin(), Some('x'));
    cursor.add_token(TokenKind::Identifier, "x".to_string(), None);
    let tokens = cursor.lex().unwrap();
    assert_eq!(tokens.len(), 1);
    assert_eq!(tokens[0].span.line, Line(2));
    assert_eq!(tokens[0].span.column, Column(3));
    assert_eq!(tokens[0].lex(), "x");
}
