use kaleidoscope::lexer::Lexer;
use kaleidoscope::token::Token;

#[test]
fn lexes_definition_token_sequence() {
    let mut lexer = Lexer::new("def foo(a, b) a+b");
    let tokens = lexer.tokenize();
    let expected = vec![
        Token::Def,
        Token::Ident("foo".to_string()),
        Token::LParen,
        Token::Ident("a".to_string()),
        Token::Comma,
        Token::Ident("b".to_string()),
        Token::RParen,
        Token::Ident("a".to_string()),
        Token::Op('+'),
        Token::Ident("b".to_string()),
    ];
    assert_eq!(tokens, expected);
    assert_eq!(lexer.token(), Token::EOF);
}

#[test]
fn lexes_eof_on_empty_and_whitespace() {
    let mut lexer = Lexer::new("   \t\r\n ");
    assert_eq!(lexer.token(), Token::EOF);
    let mut empty = Lexer::new("");
    assert_eq!(empty.token(), Token::EOF);
}

#[test]
fn lexes_comment_through_end_of_line() {
    let mut lexer = Lexer::new("1 # a comment, (with) punctuation\n2");
    let tokens = lexer.tokenize();
    assert_eq!(
        tokens,
        vec![
            Token::Number("1".to_string()),
            Token::Comment,
            Token::Number("2".to_string()),
        ]
    );
}

#[test]
fn lexes_comment_at_end_of_stream() {
    let mut lexer = Lexer::new("# only a comment");
    assert_eq!(lexer.tokenize(), vec![Token::Comment]);
}

#[test]
fn number_run_accepts_dots_and_hex_letters() {
    // The numeric scanner consumes a maximal run of dots and hexadecimal
    // digits; the captured text is carried as is.
    let mut lexer = Lexer::new("1a .5 1.2.3 12ef");
    assert_eq!(
        lexer.tokenize(),
        vec![
            Token::Number("1a".to_string()),
            Token::Number(".5".to_string()),
            Token::Number("1.2.3".to_string()),
            Token::Number("12ef".to_string()),
        ]
    );
}

#[test]
fn keywords_and_identifiers_are_distinguished() {
    let mut lexer = Lexer::new("def extern binary define externs _x x_1");
    assert_eq!(
        lexer.tokenize(),
        vec![
            Token::Def,
            Token::Extern,
            Token::Binary,
            Token::Ident("define".to_string()),
            Token::Ident("externs".to_string()),
            Token::Ident("_x".to_string()),
            Token::Ident("x_1".to_string()),
        ]
    );
}

#[test]
fn punctuation_becomes_dedicated_or_op_tokens() {
    let mut lexer = Lexer::new("(),;!<=*");
    assert_eq!(
        lexer.tokenize(),
        vec![
            Token::LParen,
            Token::RParen,
            Token::Comma,
            Token::Op(';'),
            Token::Op('!'),
            Token::Op('<'),
            Token::Op('='),
            Token::Op('*'),
        ]
    );
}
