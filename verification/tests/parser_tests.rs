use script::error::ErrorKind;
use script::parser::ast::{BinaryOp, ExprKind, Literal, TypeKind, UnaryOp};
use script::parser::parser::Parser;
use script::parser::token::{Token, TokenKind};
use script::source::{SourceLocation, Span};

fn tok(kind: TokenKind) -> Token {
    Token::new(kind, Span::single(SourceLocation::initial()))
}

fn tokens(kinds: Vec<TokenKind>) -> Vec<Token> {
    let mut v: Vec<Token> = kinds.into_iter().map(tok).collect();
    v.push(tok(TokenKind::Eof));
    v
}

fn id(n: &str) -> TokenKind {
    TokenKind::Identifier(n.to_string())
}

fn num(n: &str) -> TokenKind {
    TokenKind::Number(n.to_string())
}

fn render(kinds: Vec<TokenKind>) -> String {
    let mut p = Parser::new(tokens(kinds));
    p.parse_expression().unwrap().to_string()
}

#[test]
fn operators_from_tokens() {
    assert_eq!(BinaryOp::from_token(&TokenKind::Plus), Some(BinaryOp::Add));
    assert_eq!(BinaryOp::from_token(&TokenKind::LessEquals), Some(BinaryOp::LessEqual));
    assert_eq!(BinaryOp::from_token(&TokenKind::Or), Some(BinaryOp::Or));
    assert_eq!(BinaryOp::from_token(&TokenKind::Bang), None);
    assert_eq!(UnaryOp::from_token(&TokenKind::Bang), Some(UnaryOp::Not));
    assert_eq!(UnaryOp::from_token(&TokenKind::Minus), Some(UnaryOp::Minus));
    assert_eq!(UnaryOp::from_token(&TokenKind::Plus), None);
}

#[test]
fn precedence_of_binary_operators() {
    let s = render(vec![num("1"), TokenKind::Plus, num("2"), TokenKind::Star, id("x")]);
    assert_eq!(s, "(1 + (2 * x))");
    let s = render(vec![id("a"), TokenKind::Or, id("b"), TokenKind::And, id("c")]);
    assert_eq!(s, "(a || (b && c))");
    let s = render(vec![num("1"), TokenKind::Minus, num("2"), TokenKind::Minus, num("3")]);
    assert_eq!(s, "((1 - 2) - 3)");
}

#[test]
fn comparison_after_a_name() {
    let s = render(vec![id("x"), TokenKind::Less, num("10")]);
    assert_eq!(s, "(x < 10)");
}

#[test]
fn generic_constructor() {
    let mut p = Parser::new(tokens(vec![id("Vec"), TokenKind::Less, id("i32"), TokenKind::Greater]));
    let e = p.parse_expression().unwrap();
    match e.kind {
        ExprKind::GenericConstructor { name, type_args } => {
            assert_eq!(name, "Vec");
            assert_eq!(type_args.len(), 1);
            assert_eq!(type_args[0].kind, TypeKind::Named("i32".to_string()));
        }
        _ => panic!("expected a generic constructor"),
    }
}

#[test]
fn type_parameters_in_generic_arguments() {
    let mut p = Parser::new(tokens(vec![id("Map"), TokenKind::Less, id("K"), TokenKind::Comma, id("TValue"), TokenKind::Greater]));
    let e = p.parse_expression().unwrap();
    match e.kind {
        ExprKind::GenericConstructor { type_args, .. } => {
            assert_eq!(type_args[0].kind, TypeKind::TypeParam("K".to_string()));
            assert_eq!(type_args[1].kind, TypeKind::TypeParam("TValue".to_string()));
        }
        _ => panic!("expected a generic constructor"),
    }
}

#[test]
fn calls_indexing_and_members() {
    let s = render(vec![
        id("f"),
        TokenKind::LeftParen,
        id("a"),
        TokenKind::Comma,
        num("2"),
        TokenKind::RightParen,
        TokenKind::LeftBracket,
        num("0"),
        TokenKind::RightBracket,
        TokenKind::Dot,
        id("len"),
    ]);
    assert_eq!(s, "f(a, 2)[0].len");
}

#[test]
fn unary_and_grouping() {
    let s = render(vec![TokenKind::Minus, TokenKind::LeftParen, id("a"), TokenKind::Plus, id("b"), TokenKind::RightParen]);
    assert_eq!(s, "(-(a + b))");
    let s = render(vec![TokenKind::Bang, TokenKind::True]);
    assert_eq!(s, "(!true)");
}

#[test]
fn assignment_is_right_associative() {
    let mut p = Parser::new(tokens(vec![id("a"), TokenKind::Equals, id("b"), TokenKind::Equals, num("1")]));
    let e = p.parse_expression().unwrap();
    match e.kind {
        ExprKind::Assign { target, value } => {
            assert_eq!(target.kind, ExprKind::Identifier("a".to_string()));
            assert!(matches!(value.kind, ExprKind::Assign { .. }));
        }
        _ => panic!("expected an assignment"),
    }
}

#[test]
fn arrays_and_comprehensions() {
    let mut p = Parser::new(tokens(vec![TokenKind::LeftBracket, num("1"), TokenKind::Comma, num("2"), TokenKind::Comma, TokenKind::RightBracket]));
    let e = p.parse_expression().unwrap();
    match e.kind {
        ExprKind::Array(items) => assert_eq!(items.len(), 2),
        _ => panic!("expected an array"),
    }
    let mut p = Parser::new(tokens(vec![
        TokenKind::LeftBracket,
        id("x"),
        TokenKind::For,
        id("x"),
        TokenKind::In,
        id("xs"),
        TokenKind::If,
        id("x"),
        TokenKind::RightBracket,
    ]));
    let e = p.parse_expression().unwrap();
    match e.kind {
        ExprKind::ListComprehension { variable, condition, .. } => {
            assert_eq!(variable, "x");
            assert!(condition.is_some());
        }
        _ => panic!("expected a list comprehension"),
    }
}

#[test]
fn literals() {
    let mut p = Parser::new(tokens(vec![TokenKind::String("hi".to_string())]));
    let e = p.parse_expression().unwrap();
    assert_eq!(e.kind, ExprKind::Literal(Literal::String("hi".to_string())));
    let mut p = Parser::new(tokens(vec![num("3.5")]));
    let e = p.parse_expression().unwrap();
    assert_eq!(e.kind, ExprKind::Literal(Literal::Number("3.5".to_string())));
}

#[test]
fn missing_expression_is_a_parse_error() {
    let mut p = Parser::new(tokens(vec![TokenKind::RightParen]));
    let err = p.parse_expression().unwrap_err();
    assert_eq!(err.kind, ErrorKind::ParseError);
    assert_eq!(err.message, "Expected expression");
    let mut p = Parser::new(tokens(vec![id("f"), TokenKind::LeftParen, id("a")]));
    let err = p.parse_expression().unwrap_err();
    assert_eq!(err.message, "Expected ')' after arguments");
}

#[test]
fn grouping_indexing_and_members_follow_precedence() {
    let s = render(vec![
        TokenKind::LeftParen,
        id("a"),
        TokenKind::Or,
        id("b"),
        TokenKind::RightParen,
        TokenKind::And,
        id("c"),
        TokenKind::Dot,
        id("d"),
        TokenKind::LeftBracket,
        num("1"),
        TokenKind::Plus,
        num("2"),
        TokenKind::RightBracket,
        TokenKind::EqualsEquals,
        TokenKind::Bang,
        id("e"),
    ]);
    assert_eq!(s, "((a || b) && (c.d[(1 + 2)] == (!e)))");
}

#[test]
fn less_than_without_closing_angle_is_a_comparison() {
    let s = render(vec![id("a"), TokenKind::Less, id("b"), TokenKind::Plus, num("1")]);
    assert_eq!(s, "(a < (b + 1))");
}
