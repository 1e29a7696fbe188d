use kaleidoscope::ast::Expr;
use kaleidoscope::parser::Parser;
use kaleidoscope::prec::PrecTable;

/// A minimal pretty-printer: fully parenthesized, so the rendering is
/// unambiguous whatever the precedences are.
fn render(e: &Expr) -> String {
    match e {
        Expr::Number(s) => s.clone(),
        Expr::Variable(s) => s.clone(),
        Expr::Call { name, args } => {
            // A synthesized `unary` name is not a lexable identifier (it
            // ends in the operator character), so it is rendered back in
            // prefix-operator syntax.
            if args.len() == 1 && name.chars().count() == 6 && name.starts_with("unary") {
                let op = name.chars().last().unwrap();
                return format!("({}{})", op, render(&args[0]));
            }
            let mut out = String::new();
            out.push_str(name);
            out.push('(');
            for (i, a) in args.iter().enumerate() {
                if i > 0 {
                    out.push_str(", ");
                }
                out.push_str(&render(a));
            }
            out.push(')');
            out
        },
        Expr::Binary { op, lhs, rhs } => {
            format!("({}{}{})", render(lhs), op, render(rhs))
        },
    }
}

fn parse_body(input: &str, prec: &PrecTable) -> Expr {
    let mut parser = Parser::new(input);
    parser
        .parse_toplevel_expr(prec)
        .expect("expected a successful parse")
        .body
        .expect("a top-level expression has a body")
}

fn round_trips(input: &str) {
    let prec = PrecTable::with_defaults();
    let tree = parse_body(input, &prec);
    let rendered = render(&tree);
    let reparsed = parse_body(&rendered, &prec);
    assert_eq!(reparsed, tree, "render of {:?} was {:?}", input, rendered);
}

#[test]
fn reparsing_a_rendering_reproduces_the_tree() {
    round_trips("1+2*3");
    round_trips("1-2-3");
    round_trips("(1+2)*3");
    round_trips("!x");
    round_trips("foo(a, 1+2)");
    round_trips("foo()");
    round_trips("a<b");
}

#[test]
fn reparsing_a_rendering_with_a_custom_operator() {
    let mut prec = PrecTable::with_defaults();
    let mut parser = Parser::new("def binary: 1 (a, b) a+b");
    parser
        .parse_definition(&mut prec)
        .expect("valid custom-operator definition");
    let tree = parse_body("1:2+3", &prec);
    let rendered = render(&tree);
    assert_eq!(parse_body(&rendered, &prec), tree);
}
