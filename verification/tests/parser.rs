use tinylang::ast::{
    CallExpr, Expr, ExprKind, IdentifierExpr, LetStmt, LiteralExpr, Parser, Stmt,
    StmtKind,
};
use tinylang::lexer::{chars_of, Lexer, Position};

fn fail() {
    assert!(false);
}

fn identifier(name: &str, start: u32, end: u32) -> Expr {
    Expr::new(
        ExprKind::Identifier(IdentifierExpr::new(name.to_string())),
        Position::new(start, end),
    )
}

#[test]
fn parse_identifier_expr() {
    let mut parser = Parser::new("foo bar");
    assert_eq!(
        parser.parse_expr().unwrap().kind,
        ExprKind::Identifier(IdentifierExpr::new("foo".to_string()))
    );
    parser.lexer.ignore_spaces();
    assert_eq!(
        parser.parse_expr().unwrap().kind,
        ExprKind::Identifier(IdentifierExpr::new("bar".to_string()))
    );
}

#[test]
fn parse_literal_expr() {
    // Number
    let mut parser = Parser::new("42 23");
    assert_eq!(
        parser.parse_expr().unwrap().kind,
        ExprKind::Literal(LiteralExpr::Number(42))
    );
    parser.lexer.ignore_spaces();
    assert_eq!(
        parser.parse_expr().unwrap().kind,
        ExprKind::Literal(LiteralExpr::Number(23))
    );

    // Bool
    parser.reload("true false");
    assert_eq!(
        parser.parse_expr().unwrap().kind,
        ExprKind::Literal(LiteralExpr::Bool(true))
    );
    parser.lexer.ignore_spaces();
    assert_eq!(
        parser.parse_expr().unwrap().kind,
        ExprKind::Literal(LiteralExpr::Bool(false))
    );

    // String
    parser.reload("'hello'");
    assert_eq!(
        parser.parse_expr().unwrap().kind,
        ExprKind::Literal(LiteralExpr::String("hello".to_string()))
    );
}

#[test]
fn parse_call_expr() {
    let mut parser = Parser::new("foo(bar) baz(input) add(1)");
    let call = parser.parse_expr().unwrap().kind;
    if let ExprKind::Call(call) = call {
        if let ExprKind::Identifier(identifier) = call.called.kind {
            assert_eq!(identifier.ident, "foo");
        } else {
            fail()
        }
        if let ExprKind::Identifier(identifier) = call.input.kind {
            assert_eq!(identifier.ident, "bar");
        } else {
            fail()
        }
    } else {
        fail()
    }

    parser.lexer.ignore_spaces();
    let call = parser.parse_expr().unwrap().kind;
    if let ExprKind::Call(call) = call {
        if let ExprKind::Identifier(identifier) = call.called.kind {
            assert_eq!(identifier.ident, "baz");
        } else {
            fail()
        }
        if let ExprKind::Identifier(identifier) = call.input.kind {
            assert_eq!(identifier.ident, "input");
        } else {
            fail()
        }
    } else {
        fail()
    }

    parser.lexer.ignore_spaces();
    let call = parser.parse_expr().unwrap().kind;
    if let ExprKind::Call(call) = call {
        if let ExprKind::Identifier(identifier) = call.called.kind {
            assert_eq!(identifier.ident, "add");
        } else {
            fail()
        }
        assert_eq!(call.input.kind, ExprKind::Literal(LiteralExpr::Number(1)));
    } else {
        fail()
    }
}

#[test]
fn parse_let_stmt() {
    let mut parser = Parser::new("let foo = bar(baz);");
    let stmt = parser.parse_stmt().unwrap();

    assert_eq!(
        stmt,
        Stmt::new(
            StmtKind::Let(LetStmt::new(
                "foo".into(),
                Expr::new(
                    ExprKind::Call(CallExpr::new(
                        Expr::new(
                            ExprKind::Identifier(IdentifierExpr::new("bar".to_string())),
                            Position::new(10, 12)
                        ),
                        Expr::new(
                            ExprKind::Identifier(IdentifierExpr::new("baz".to_string())),
                            Position::new(14, 16)
                        )
                    )),
                    Position::new(10, 17)
                )
            )),
            Position::new(0, 18)
        )
    );
}

#[test]
fn bare_identifier_is_no_call() {
    let mut parser = Parser::new("foo");
    assert_eq!(parser.parse_expr(), Some(identifier("foo", 0, 2)));
    assert_eq!(parser.lexer.mark(), 3);
    assert_eq!(parser.parse_expr(), None);
    assert_eq!(parser.lexer.mark(), 3);
}

#[test]
fn call_with_whitespace_before_the_parenthesis() {
    let mut parser = Parser::new("foo (bar)");
    assert_eq!(
        parser.parse_expr(),
        Some(Expr::new(
            ExprKind::Call(CallExpr::new(identifier("foo", 0, 2), identifier("bar", 5, 7))),
            Position::new(0, 8)
        ))
    );
    assert_eq!(parser.lexer.mark(), 9);
}

#[test]
fn incomplete_call_falls_back_to_the_primary() {
    for text in ["foo(", "foo(bar", "foo()", "foo(bar,baz)", "foo (  bar)", "foo(bar )"] {
        let mut parser = Parser::new(text);
        assert_eq!(parser.parse_expr(), Some(identifier("foo", 0, 2)), "{}", text);
        assert_eq!(parser.lexer.mark(), 3, "{}", text);
    }
}

#[test]
fn called_expression_is_never_a_call() {
    let mut parser = Parser::new("f(g(h))(x)");
    let inner = Expr::new(
        ExprKind::Call(CallExpr::new(identifier("g", 2, 2), identifier("h", 4, 4))),
        Position::new(2, 5),
    );
    assert_eq!(
        parser.parse_expr(),
        Some(Expr::new(
            ExprKind::Call(CallExpr::new(identifier("f", 0, 0), inner)),
            Position::new(0, 6)
        ))
    );
    assert_eq!(parser.lexer.mark(), 7);
    assert_eq!(parser.parse_expr(), None);
    assert_eq!(parser.lexer.mark(), 7);
}

#[test]
fn string_literal_spans_both_quotes() {
    let mut parser = Parser::new("'hello world'");
    assert_eq!(
        parser.parse_expr(),
        Some(Expr::new(
            ExprKind::Literal(LiteralExpr::String("hello world".to_string())),
            Position::new(0, 12)
        ))
    );
}

#[test]
fn boolean_literals_are_not_identifiers() {
    let mut parser = Parser::new("true");
    assert_eq!(
        parser.parse_expr(),
        Some(Expr::new(ExprKind::Literal(LiteralExpr::Bool(true)), Position::new(0, 3)))
    );
    parser.reload("false");
    assert_eq!(
        parser.parse_expr(),
        Some(Expr::new(ExprKind::Literal(LiteralExpr::Bool(false)), Position::new(0, 4)))
    );
}

#[test]
fn digits_accumulate_in_base_ten() {
    let mut parser = Parser::new("023");
    assert_eq!(
        parser.parse_expr(),
        Some(Expr::new(ExprKind::Literal(LiteralExpr::Number(23)), Position::new(0, 2)))
    );
    parser.reload("4294967295x");
    assert_eq!(
        parser.parse_expr(),
        Some(Expr::new(ExprKind::Literal(LiteralExpr::Number(4294967295)), Position::new(0, 9)))
    );
    assert_eq!(parser.lexer.mark(), 10);
    parser.reload("0000000000007");
    assert_eq!(
        parser.parse_expr(),
        Some(Expr::new(ExprKind::Literal(LiteralExpr::Number(7)), Position::new(0, 12)))
    );
}

#[test]
fn number_that_does_not_fit_is_no_match() {
    for text in ["4294967296", "99999999999999999999999999", "4294967296(x)"] {
        let mut parser = Parser::new(text);
        assert_eq!(parser.parse_expr(), None, "{}", text);
        assert_eq!(parser.lexer.mark(), 0, "{}", text);
        assert_eq!(parser.parse_stmt(), None, "{}", text);
        assert_eq!(parser.lexer.mark(), 0, "{}", text);
    }
}

#[test]
fn no_match_leaves_the_lexer_in_place() {
    for text in ["", " foo", "(foo)", "let", "let x", "let x =", "let = 1", "fn", ";", "=", "'abc"] {
        let mut parser = Parser::new(text);
        assert_eq!(parser.parse_expr(), None, "{}", text);
        assert_eq!(parser.lexer.mark(), 0, "{}", text);
        assert_eq!(parser.parse_stmt(), None, "{}", text);
        assert_eq!(parser.lexer.mark(), 0, "{}", text);
        let mut lexer = Lexer::new(chars_of(text));
        assert_eq!(Parser::parse_expr_call(&mut lexer), None, "{}", text);
        assert_eq!(lexer.mark(), 0, "{}", text);
    }
}

#[test]
fn let_without_semicolon_ends_at_the_value() {
    let mut parser = Parser::new("let x=12 y");
    assert_eq!(
        parser.parse_stmt(),
        Some(Stmt::new(
            StmtKind::Let(LetStmt::new(
                "x".to_string(),
                Expr::new(ExprKind::Literal(LiteralExpr::Number(12)), Position::new(6, 7))
            )),
            Position::new(0, 7)
        ))
    );
    assert_eq!(parser.lexer.mark(), 9);
    assert_eq!(
        parser.parse_stmt(),
        Some(Stmt::new(StmtKind::Expr(identifier("y", 9, 9)), Position::new(9, 9)))
    );
}

#[test]
fn expression_statement_takes_its_semicolon() {
    let mut parser = Parser::new("foo(bar) ;baz");
    assert_eq!(
        parser.parse_stmt(),
        Some(Stmt::new(
            StmtKind::Expr(Expr::new(
                ExprKind::Call(CallExpr::new(identifier("foo", 0, 2), identifier("bar", 4, 6))),
                Position::new(0, 7)
            )),
            Position::new(0, 9)
        ))
    );
    assert_eq!(parser.lexer.mark(), 10);
    assert_eq!(
        parser.parse_stmt(),
        Some(Stmt::new(StmtKind::Expr(identifier("baz", 10, 12)), Position::new(10, 12)))
    );
    assert_eq!(parser.parse_stmt(), None);
}

#[test]
fn let_spelled_as_identifier_is_unreachable() {
    let mut parser = Parser::new("let let = 1");
    assert_eq!(parser.parse_stmt(), None);
    assert_eq!(parser.lexer.mark(), 0);
}

#[test]
fn parsers_built_in_different_ways_agree() {
    let text = "let a = f('x');";
    let mut from_text = Parser::new(text);
    let mut from_chars = Parser::from_chars(text.chars().collect());
    let mut from_lexer = Parser::from_lexer(Lexer::new(chars_of(text)));
    let expected = from_text.parse_stmt();
    assert!(expected.is_some());
    assert_eq!(from_chars.parse_stmt(), expected);
    assert_eq!(from_lexer.parse_stmt(), expected);
    from_text.reload_chars("b".chars().collect());
    assert_eq!(from_text.parse_expr(), Some(identifier("b", 0, 0)));
    from_text.reload_lexer(Lexer::new(chars_of("c")));
    assert_eq!(from_text.parse_expr(), Some(identifier("c", 0, 0)));
}

#[test]
fn chars_of_keeps_every_character() {
    assert_eq!(chars_of("a\u{e9}\u{1f600}b"), vec!['a', '\u{e9}', '\u{1f600}', 'b']);
    assert_eq!(chars_of(""), Vec::<char>::new());
}
