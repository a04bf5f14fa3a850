use atium::error::{
    display_ops, display_tuple_vec, display_vec, Column, DbgSpan, Diagnostic, Line, RuntimeError,
    Span, SyntaxError,
};
use atium::text::{chars_of, int_to_text, join, push_nat, text_of};
use atium::token::Type;

#[test]
fn syntax_error_messages() {
    assert_eq!(
        SyntaxError::UnexpectedCharacter('@').message(),
        "an unexpected character was found while lexing: '@'"
    );
    assert_eq!(
        SyntaxError::ExpectedCharacter { found: "EOF".to_string(), expected: ';' }.message(),
        "expected ';' but found 'EOF'"
    );
    assert_eq!(
        SyntaxError::ExpectedCharacter { found: "print".to_string(), expected: ')' }.message(),
        "expected ')' but found 'print'"
    );
    assert_eq!(
        SyntaxError::ExpectedIdent("1".to_string()).message(),
        "expected: identifier but found: 1"
    );
    assert_eq!(SyntaxError::UnexpectedEOF.message(), "unexpected EOF found");
    assert_eq!(
        SyntaxError::ExpectedExpression(";".to_string()).message(),
        "expected: expression but found: ;"
    );
    assert_eq!(SyntaxError::UnaryPlus.message(), "'+' cannot be used as a unary operator");
    assert_eq!(SyntaxError::InvalidAssignmentTarget.message(), "invalid assignment target");
}

#[test]
fn runtime_error_messages() {
    assert_eq!(
        RuntimeError::InvalidOperator("==".to_string(), vec!['-', '!']).message(),
        "an invalid operator was used. found: == | expected: '-', '!'"
    );
    assert_eq!(
        RuntimeError::InvalidType(Type::Boolean, vec![Type::Integer]).message(),
        "an invalid type was found: Boolean | expected: Integer"
    );
    assert_eq!(
        RuntimeError::InvalidTypes(
            "-".to_string(),
            vec![Type::String, Type::Null],
            vec![(Type::Integer, Type::Integer)]
        )
        .message(),
        "cannot apply '-' to values (String, Null), expected: (Integer, Integer)"
    );
    assert_eq!(
        RuntimeError::InvalidTypes("-".to_string(), vec![], vec![]).message(),
        "cannot apply '-' to values (), expected: "
    );
    assert_eq!(RuntimeError::InvalidIdent("x".to_string()).message(), "undefined variable 'x'");
    assert_eq!(
        RuntimeError::UninitialisedVar("x".to_string()).message(),
        "variable 'x' was never given a value"
    );
    assert_eq!(RuntimeError::InvalidAssignmentTarget.message(), "invalid assignment target");
    assert_eq!(RuntimeError::DivisionByZero.message(), "division by zero");
    assert_eq!(RuntimeError::Overflow.message(), "integer overflow");
}

#[test]
fn diagnostic_text() {
    let d = Diagnostic { kind: SyntaxError::UnexpectedEOF, span: Span::unknown() };
    assert_eq!(d.text(), "error: unexpected EOF found");
    let d = Diagnostic { kind: RuntimeError::DivisionByZero, span: Span::unknown() };
    assert_eq!(d.text(), "error: division by zero");
}

#[test]
fn lists_of_types() {
    assert_eq!(display_vec(&vec![]), "");
    assert_eq!(display_vec(&vec![Type::Integer]), "Integer");
    assert_eq!(
        display_vec(&vec![Type::String, Type::Integer, Type::Float, Type::Boolean, Type::Null]),
        "String, Integer, Float, Boolean, Null"
    );
}

#[test]
fn lists_of_type_pairs() {
    assert_eq!(display_tuple_vec(&vec![(Type::Integer, Type::Integer)]), "(Integer, Integer)");
    assert_eq!(
        display_tuple_vec(&vec![
            (Type::Integer, Type::Integer),
            (Type::String, Type::String),
            (Type::Float, Type::Null)
        ]),
        "(Integer, Integer) or (String, String) or (Float, Null)"
    );
}

#[test]
fn lists_of_operators() {
    assert_eq!(display_ops(&vec![]), "");
    assert_eq!(display_ops(&vec!['-']), "'-'");
    assert_eq!(display_ops(&vec!['+', '/', '-', '*']), "'+', '/', '-', '*'");
}

#[test]
fn type_names() {
    assert_eq!(Type::String.text(), "String");
    assert_eq!(Type::Integer.text(), "Integer");
    assert_eq!(Type::Float.text(), "Float");
    assert_eq!(Type::Boolean.text(), "Boolean");
    assert_eq!(Type::Null.text(), "Null");
}

#[test]
fn positions_as_text() {
    assert_eq!(Line(0).text(), "0");
    assert_eq!(Line(17).text(), "17");
    assert_eq!(Column(4294967295).text(), "4294967295");
    let d = DbgSpan::new("src/interpreter.rs", 63, 12);
    assert_eq!(d.file, "src/interpreter.rs");
    assert_eq!(d.line, Line(63));
    assert_eq!(d.column, Column(12));
    assert_eq!(d.text(), "[src/interpreter.rs:63:12]");
    assert_eq!(d.clone(), d);
}

#[test]
fn unknown_span() {
    let s = Span::unknown();
    assert_eq!(s.line, Line(0));
    assert_eq!(s.column, Column(0));
    assert_eq!(s.file, None);
    assert_eq!(s.lex, "");
    Span::to_snippet();
}

#[test]
fn integers_in_decimal() {
    assert_eq!(int_to_text(0), "0");
    assert_eq!(int_to_text(7), "7");
    assert_eq!(int_to_text(10), "10");
    assert_eq!(int_to_text(-1), "-1");
    assert_eq!(int_to_text(1234567890), "1234567890");
    assert_eq!(int_to_text(-1002003), "-1002003");
    assert_eq!(int_to_text(i128::MAX), i128::MAX.to_string());
    assert_eq!(int_to_text(i128::MIN), i128::MIN.to_string());
    assert_eq!(int_to_text(i128::MIN + 1), (i128::MIN + 1).to_string());
    let mut s = String::from("n=");
    push_nat(&mut s, u128::MAX);
    assert_eq!(s, format!("n={}", u128::MAX));
}

#[test]
fn characters_and_texts() {
    assert_eq!(chars_of(""), Vec::<char>::new());
    assert_eq!(chars_of("aé\n"), vec!['a', 'é', '\n']);
    let chars = vec!['h', 'e', 'l', 'l', 'o'];
    assert_eq!(text_of(&chars, 0, 5), "hello");
    assert_eq!(text_of(&chars, 1, 3), "el");
    assert_eq!(text_of(&chars, 2, 2), "");
    assert_eq!(text_of(&vec!['é'], 0, 1), "é");
}

#[test]
fn joining_texts() {
    assert_eq!(join(&vec![], ", "), "");
    assert_eq!(join(&vec!["a".to_string()], ", "), "a");
    assert_eq!(join(&vec!["a".to_string(), "b".to_string(), "c".to_string()], " or "), "a or b or c");
    assert_eq!(join(&vec!["".to_string(), "".to_string()], "-"), "-");
}
