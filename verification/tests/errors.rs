use kaleidoscope::error::Error;
use kaleidoscope::parser::Parser;
use kaleidoscope::prec::PrecTable;

#[test]
fn missing_body_fails_with_end_of_file() {
    let mut prec = PrecTable::with_defaults();
    let mut parser = Parser::new("def foo(a, a)");
    // Duplicate parameter names are not rejected by the parser; the failure
    // is the missing body, reported as an end-of-file condition.
    match parser.parse_definition(&mut prec) {
        Err(Error::Eof(m)) => assert_eq!(m, "Unexpected end of file."),
        other => panic!("expected an end-of-file error, got {:?}", other),
    }
}

#[test]
fn unclosed_call_fails_with_end_of_file() {
    let mut prec = PrecTable::with_defaults();
    let mut parser = Parser::new("foo(");
    // The token stream runs out right after the opening parenthesis, so the
    // failure surfaces as an end-of-file condition.
    match parser.parse_toplevel_expr(&prec) {
        Err(Error::Eof(m)) => assert_eq!(m, "Unexpected end of file."),
        other => panic!("expected an end-of-file error, got {:?}", other),
    }
}

#[test]
fn call_without_separator_fails_with_syntax() {
    let mut prec = PrecTable::with_defaults();
    let mut parser = Parser::new("foo(a b");
    match parser.parse_toplevel_expr(&prec) {
        Err(Error::Syntax(m)) => {
            assert_eq!(m, "Expected ',' character in function call.")
        },
        other => panic!("expected a syntax error, got {:?}", other),
    }
}

#[test]
fn stray_closing_parenthesis_is_a_syntax_error() {
    let mut prec = PrecTable::with_defaults();
    let mut parser = Parser::new(")");
    match parser.parse_toplevel_expr(&prec) {
        Err(Error::Syntax(m)) => {
            assert_eq!(m, "unknown token when expecting an expression")
        },
        other => panic!("expected a syntax error, got {:?}", other),
    }
}

#[test]
fn unclosed_parenthesized_expression_reports_end_of_file() {
    let mut prec = PrecTable::with_defaults();
    let mut parser = Parser::new("(1+2");
    match parser.parse_toplevel_expr(&prec) {
        Err(Error::Eof(m)) => assert_eq!(m, "Unexpected end of file."),
        other => panic!("expected an end-of-file error, got {:?}", other),
    }
}

#[test]
fn missing_closing_parenthesis_is_a_syntax_error() {
    let mut prec = PrecTable::with_defaults();
    let mut parser = Parser::new("(1+2 3");
    match parser.parse_toplevel_expr(&prec) {
        Err(Error::Syntax(m)) => {
            assert_eq!(m, "Expected ')' character at end of parenthesized expression.")
        },
        other => panic!("expected a syntax error, got {:?}", other),
    }
}

#[test]
fn prototype_requires_an_identifier() {
    let mut prec = PrecTable::with_defaults();
    let mut parser = Parser::new("def 1(x) x");
    match parser.parse_definition(&mut prec) {
        Err(Error::Syntax(m)) => {
            assert_eq!(m, "Expected identifier in prototype declaration.")
        },
        other => panic!("expected a syntax error, got {:?}", other),
    }
}

#[test]
fn custom_operator_declaration_requires_an_operator() {
    let mut prec = PrecTable::with_defaults();
    let mut parser = Parser::new("def binary 5 (a, b) a");
    match parser.parse_definition(&mut prec) {
        Err(Error::Syntax(m)) => {
            assert_eq!(m, "Expected operator in custom operator declaration.")
        },
        other => panic!("expected a syntax error, got {:?}", other),
    }
}

#[test]
fn parameter_list_requires_separators() {
    let mut prec = PrecTable::with_defaults();
    let mut parser = Parser::new("def f(a b) a");
    match parser.parse_definition(&mut prec) {
        Err(Error::Syntax(m)) => {
            assert_eq!(m, "Expected ',' or ')' character in prototype declaration.")
        },
        other => panic!("expected a syntax error, got {:?}", other),
    }
}

#[test]
fn parameter_list_requires_identifiers() {
    let mut prec = PrecTable::with_defaults();
    let mut parser = Parser::new("def f(,) a");
    match parser.parse_definition(&mut prec) {
        Err(Error::Syntax(m)) => {
            assert_eq!(m, "Expected identifier in parameter declaration.")
        },
        other => panic!("expected a syntax error, got {:?}", other),
    }
}

#[test]
fn prototype_requires_opening_parenthesis() {
    let mut prec = PrecTable::with_defaults();
    let mut parser = Parser::new("def f x");
    match parser.parse_definition(&mut prec) {
        Err(Error::Syntax(m)) => {
            assert_eq!(m, "Expected '(' character in prototype declaration.")
        },
        other => panic!("expected a syntax error, got {:?}", other),
    }
}

#[test]
fn parse_rejects_trailing_tokens() {
    let mut prec = PrecTable::with_defaults();
    let mut parser = Parser::new("1+2;");
    match parser.parse(&mut prec) {
        Err(Error::Eof(m)) => {
            assert_eq!(m, "Unexpected token after parsed expression.")
        },
        other => panic!("expected the trailing-token error, got {:?}", other),
    }
}

#[test]
fn parse_of_empty_input_reports_end_of_file() {
    let mut prec = PrecTable::with_defaults();
    let mut parser = Parser::new("   ");
    match parser.parse(&mut prec) {
        Err(Error::Eof(m)) => assert_eq!(m, "Unexpected end of file."),
        other => panic!("expected an end-of-file error, got {:?}", other),
    }
}

#[test]
fn message_accessor_returns_the_text() {
    let mut prec = PrecTable::with_defaults();
    let mut parser = Parser::new(")");
    let err = parser.parse_toplevel_expr(&prec).unwrap_err();
    assert_eq!(err.message(), "unknown token when expecting an expression");
}

#[test]
fn comment_tokens_are_not_expressions() {
    // Comments are kept in the token buffer; where an expression is
    // expected, one is a syntax error.
    let mut prec = PrecTable::with_defaults();
    let mut parser = Parser::new("1 + # rest of line\n");
    match parser.parse_toplevel_expr(&prec) {
        Err(Error::Syntax(m)) => {
            assert_eq!(m, "unknown token when expecting an expression")
        },
        other => panic!("expected a syntax error, got {:?}", other),
    }
}
