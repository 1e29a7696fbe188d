use kaleidoscope::ast::Expr;
use kaleidoscope::parser::Parser;
use kaleidoscope::prec::PrecTable;

fn num(s: &str) -> Expr {
    Expr::Number(s.to_string())
}

fn var(s: &str) -> Expr {
    Expr::Variable(s.to_string())
}

fn bin(op: char, lhs: Expr, rhs: Expr) -> Expr {
    Expr::Binary {
        op,
        lhs: Box::new(lhs),
        rhs: Box::new(rhs),
    }
}

fn parse_toplevel(input: &str) -> Expr {
    let prec = PrecTable::with_defaults();
    let mut parser = Parser::new(input);
    let func = parser
        .parse_toplevel_expr(&prec)
        .expect("expected a successful parse");
    assert!(func.is_anon);
    assert_eq!(func.proto.name, "anon");
    assert!(func.proto.args.is_empty());
    func.body.expect("a top-level expression has a body")
}

#[test]
fn tighter_operator_binds_deeper() {
    assert_eq!(
        parse_toplevel("1+2*3"),
        bin('+', num("1"), bin('*', num("2"), num("3")))
    );
}

#[test]
fn equal_precedence_groups_left() {
    assert_eq!(
        parse_toplevel("1-2-3"),
        bin('-', bin('-', num("1"), num("2")), num("3"))
    );
}

#[test]
fn parentheses_override_precedence() {
    assert_eq!(
        parse_toplevel("(1+2)*3"),
        bin('*', bin('+', num("1"), num("2")), num("3"))
    );
}

#[test]
fn unary_operator_becomes_synthesized_call() {
    assert_eq!(
        parse_toplevel("!x"),
        Expr::Call {
            name: "unary!".to_string(),
            args: vec![var("x")],
        }
    );
}

#[test]
fn call_with_arguments() {
    assert_eq!(
        parse_toplevel("foo(a, 1+2)"),
        Expr::Call {
            name: "foo".to_string(),
            args: vec![var("a"), bin('+', num("1"), num("2"))],
        }
    );
}

#[test]
fn call_with_no_arguments() {
    assert_eq!(
        parse_toplevel("foo()"),
        Expr::Call {
            name: "foo".to_string(),
            args: vec![],
        }
    );
}

#[test]
fn bare_identifier_is_a_variable() {
    assert_eq!(parse_toplevel("x"), var("x"));
}

#[test]
fn custom_operator_declaration_registers_precedence() {
    let mut prec = PrecTable::with_defaults();
    let mut parser = Parser::new("def binary: 1 (a b) a+b");
    // The parameter list `a b` lacks the separating comma, so the
    // declaration itself fails — but the operator was already registered as
    // a side effect of parsing the prototype's head.
    assert!(parser.parse_definition(&mut prec).is_err());
    assert_eq!(prec.lookup(':'), 1);

    let mut second = Parser::new("4:5");
    let func = second.parse_toplevel_expr(&prec).expect("`:` is now infix");
    assert_eq!(func.body, Some(bin(':', num("4"), num("5"))));
}

#[test]
fn custom_operator_default_precedence_is_zero() {
    let mut prec = PrecTable::with_defaults();
    let mut parser = Parser::new("def binary$ (a, b) a+b");
    let func = parser.parse_definition(&mut prec).expect("valid declaration");
    assert_eq!(prec.lookup('$'), 0);
    assert!(func.proto.is_op);
    assert_eq!(func.proto.name, "binary$");
    assert_eq!(func.proto.prec, 0);
    assert_eq!(func.proto.args, vec!["a".to_string(), "b".to_string()]);

    let mut second = Parser::new("1$2");
    let wrapped = second.parse_toplevel_expr(&prec).expect("`$` is now infix");
    assert_eq!(wrapped.body, Some(bin('$', num("1"), num("2"))));
}

#[test]
fn declared_precedence_reads_leading_decimal_digits() {
    let mut prec = PrecTable::with_defaults();
    let mut parser = Parser::new("def binary@ 12 (a, b) a");
    parser.parse_definition(&mut prec).expect("valid declaration");
    assert_eq!(prec.lookup('@'), 12);
}

#[test]
fn definition_parses_prototype_and_body() {
    let mut prec = PrecTable::with_defaults();
    let mut parser = Parser::new("def foo(a, b) a+b");
    let func = parser.parse_definition(&mut prec).expect("valid definition");
    assert_eq!(func.proto.name, "foo");
    assert_eq!(func.proto.args, vec!["a".to_string(), "b".to_string()]);
    assert!(!func.proto.is_op);
    assert!(!func.is_anon);
    assert_eq!(func.body, Some(bin('+', var("a"), var("b"))));
}

#[test]
fn extern_declaration_has_no_body() {
    let mut prec = PrecTable::with_defaults();
    let mut parser = Parser::new("extern cos(x)");
    let func = parser.parse_extern(&mut prec).expect("valid extern");
    assert_eq!(func.proto.name, "cos");
    assert_eq!(func.proto.args, vec!["x".to_string()]);
    assert_eq!(func.body, None);
    assert!(!func.is_anon);
}

#[test]
fn extern_declaration_with_empty_parameters() {
    let mut prec = PrecTable::with_defaults();
    let mut parser = Parser::new("extern now()");
    let func = parser.parse_extern(&mut prec).expect("valid extern");
    assert_eq!(func.proto.name, "now");
    assert!(func.proto.args.is_empty());
}

#[test]
fn parse_dispatches_on_first_token() {
    let mut prec = PrecTable::with_defaults();
    let mut parser = Parser::new("def foo(x) x");
    let func = parser.parse(&mut prec).expect("full parse");
    assert_eq!(func.proto.name, "foo");

    let mut second = Parser::new("1<2");
    let wrapped = second.parse(&mut prec).expect("full parse");
    assert!(wrapped.is_anon);
    assert_eq!(wrapped.body, Some(bin('<', num("1"), num("2"))));
}

#[test]
fn default_table_has_documented_precedences() {
    let prec = PrecTable::with_defaults();
    assert_eq!(prec.lookup('='), 2);
    assert_eq!(prec.lookup('<'), 10);
    assert_eq!(prec.lookup('+'), 20);
    assert_eq!(prec.lookup('-'), 20);
    assert_eq!(prec.lookup('*'), 40);
    assert_eq!(prec.lookup('/'), 40);
    assert_eq!(prec.lookup('!'), -1);
}

#[test]
fn insert_overwrites_a_registered_operator() {
    let mut prec = PrecTable::with_defaults();
    prec.insert('+', 5);
    assert_eq!(prec.lookup('+'), 5);
}

#[test]
fn full_parse_consumes_a_whole_call() {
    let mut prec = PrecTable::with_defaults();
    let mut parser = Parser::new("foo()");
    let func = parser.parse(&mut prec).expect("the call consumes its parentheses");
    assert_eq!(
        func.body,
        Some(Expr::Call {
            name: "foo".to_string(),
            args: vec![],
        })
    );
}

#[test]
fn expression_may_end_at_the_stream_boundary() {
    // A well-formed construct whose last token is the last of the stream
    // parses successfully; only reading past the end fails.
    assert_eq!(parse_toplevel("1"), num("1"));
    assert_eq!(parse_toplevel("(1)"), num("1"));
    let mut prec = PrecTable::with_defaults();
    let mut parser = Parser::new("foo(a)");
    let func = parser.parse_toplevel_expr(&prec).expect("valid call");
    assert_eq!(
        func.body,
        Some(Expr::Call {
            name: "foo".to_string(),
            args: vec![var("a")],
        })
    );
}
