use salal::ast::BinaryOp;
use salal::ast::Expr;
use salal::ast::Literal;
use salal::ast::LogicalOp;
use salal::ast::UnaryOp;
use salal::errors::ParserError;
use salal::parser::Parser;
use salal::scanner::Scanner;
use salal::tokens::Token;
use salal::tokens::TokenVariant;

fn parse_source(src: &str) -> Result<Expr, ParserError> {
    let mut scanner = Scanner::new(src.to_string());
    let tokens = scanner.scan().unwrap();
    let mut parser = Parser::new(tokens);
    parser.parse()
}

fn num(text: &str) -> Expr {
    Expr::Literal(Literal::NumberLiteral(text.to_string()))
}

#[test]
fn chains_of_one_level_group_to_the_left() {
    let tree = parse_source("1 - 2 - 3").unwrap();
    let expected = Expr::binary(
        BinaryOp::Subtract,
        Expr::binary(BinaryOp::Subtract, num("1"), num("2")),
        num("3"),
    );
    assert_eq!(tree, expected);
}

#[test]
fn chained_prefix_operators_group_to_the_right() {
    let tree = parse_source("- - 5").unwrap();
    let expected = Expr::unary(UnaryOp::Negate, Expr::unary(UnaryOp::Negate, num("5")));
    assert_eq!(tree, expected);
}

#[test]
fn multiplication_binds_tighter_than_addition() {
    let tree = parse_source("1 + 2 * 3").unwrap();
    let expected = Expr::binary(
        BinaryOp::Add,
        num("1"),
        Expr::binary(BinaryOp::Multiply, num("2"), num("3")),
    );
    assert_eq!(tree, expected);
}

#[test]
fn parentheses_override_precedence_and_stay_in_the_tree() {
    let tree = parse_source("(1 + 2) * 3").unwrap();
    let expected = Expr::binary(
        BinaryOp::Multiply,
        Expr::grouping(Expr::binary(BinaryOp::Add, num("1"), num("2"))),
        num("3"),
    );
    assert_eq!(tree, expected);
}

#[test]
fn comparison_binds_tighter_than_equality() {
    let tree = parse_source("1 < 2 == true").unwrap();
    let expected = Expr::binary(
        BinaryOp::Equal,
        Expr::binary(BinaryOp::Less, num("1"), num("2")),
        Expr::Literal(Literal::BoolLiteral(true)),
    );
    assert_eq!(tree, expected);
}

#[test]
fn all_binary_operator_tokens_reach_their_operators() {
    let cases = [
        ("1 + 2", BinaryOp::Add),
        ("1 - 2", BinaryOp::Subtract),
        ("1 * 2", BinaryOp::Multiply),
        ("1 / 2", BinaryOp::Divide),
        ("1 == 2", BinaryOp::Equal),
        ("1 != 2", BinaryOp::NotEqual),
        ("1 < 2", BinaryOp::Less),
        ("1 <= 2", BinaryOp::LessEqual),
        ("1 > 2", BinaryOp::Greater),
        ("1 >= 2", BinaryOp::GreaterEqual),
    ];
    for (src, op) in cases {
        let tree = parse_source(src).unwrap();
        assert_eq!(tree, Expr::binary(op, num("1"), num("2")), "source {}", src);
    }
}

#[test]
fn bang_is_the_not_operator() {
    let tree = parse_source("!true").unwrap();
    let expected = Expr::unary(UnaryOp::Not, Expr::Literal(Literal::BoolLiteral(true)));
    assert_eq!(tree, expected);
}

#[test]
fn literal_tokens_parse_to_literal_nodes() {
    assert_eq!(parse_source("nil").unwrap(), Expr::Literal(Literal::NilLiteral));
    assert_eq!(parse_source("true").unwrap(), Expr::Literal(Literal::BoolLiteral(true)));
    assert_eq!(parse_source("false").unwrap(), Expr::Literal(Literal::BoolLiteral(false)));
    assert_eq!(
        parse_source("\"hi\"").unwrap(),
        Expr::Literal(Literal::StringLiteral("hi".to_string()))
    );
}

#[test]
fn trailing_tokens_after_a_full_expression_are_an_error() {
    let error = parse_source("1 2").unwrap_err();
    assert_eq!(
        error,
        ParserError::new(Some(Token::new(TokenVariant::Number("2".to_string()), "2".to_string(), 1)))
    );
}

#[test]
fn end_of_input_token_in_primary_position_is_reported() {
    let error = parse_source("").unwrap_err();
    assert_eq!(
        error,
        ParserError::new(Some(Token::new(TokenVariant::Eof, String::new(), 1)))
    );
}

#[test]
fn empty_token_sequence_reports_unexpected_end() {
    let mut parser = Parser::new(vec![]);
    assert_eq!(parser.parse(), Err(ParserError::new(None)));
}

#[test]
fn operand_missing_after_operator_is_reported() {
    let error = parse_source("1 +").unwrap_err();
    assert_eq!(
        error,
        ParserError::new(Some(Token::new(TokenVariant::Eof, String::new(), 1)))
    );
}

#[test]
fn unexpected_token_in_primary_position_is_reported() {
    let error = parse_source("+ 1").unwrap_err();
    assert_eq!(
        error,
        ParserError::new(Some(Token::new(TokenVariant::Plus, "+".to_string(), 1)))
    );
}

#[test]
fn missing_closing_parenthesis_is_reported() {
    let error = parse_source("(1 + 2").unwrap_err();
    assert_eq!(
        error,
        ParserError::new(Some(Token::new(TokenVariant::Eof, String::new(), 1)))
    );
}

#[test]
fn whatever_stops_a_parse_is_readable_from_the_error() {
    let error = parse_source("(1 2").unwrap_err();
    let offending = error.offending_token().as_ref().unwrap();
    assert_eq!(offending.variant, TokenVariant::Number("2".to_string()));
    assert_eq!(offending.line, 1);
}

#[test]
fn deeply_nested_groupings_parse_and_unwrap() {
    let mut tree = parse_source("((((5))))").unwrap();
    let mut depth: usize = 0;
    while let Expr::Grouping(node) = tree {
        tree = *node.expr;
        depth += 1;
    }
    assert_eq!(depth, 4);
    assert_eq!(tree, num("5"));
}

#[test]
fn unclosed_parentheses_fail_without_panicking() {
    let error = parse_source("(((").unwrap_err();
    assert!(error.offending_token().is_some());
}

#[test]
fn parse_error_text_names_the_lexeme_and_line() {
    let error = parse_source("\n+ 1").unwrap_err();
    assert_eq!(error.describe(), "Parsing error: Unexpected token '+' at line 2");
}

#[test]
fn parse_error_text_for_an_empty_token_sequence() {
    let mut parser = Parser::new(vec![]);
    let error = parser.parse().unwrap_err();
    assert_eq!(error.describe(), "Parsing error: Unexpectedly reached end of file");
}

#[test]
fn logical_nodes_can_be_built_for_consumers() {
    let tree = Expr::logical(
        LogicalOp::And,
        Expr::Literal(Literal::BoolLiteral(true)),
        Expr::Literal(Literal::BoolLiteral(false)),
    );
    match tree {
        Expr::Logical(node) => {
            assert_eq!(node.operator, LogicalOp::And);
            assert_eq!(*node.left, Expr::Literal(Literal::BoolLiteral(true)));
            assert_eq!(*node.right, Expr::Literal(Literal::BoolLiteral(false)));
        }
        other => panic!("expected a logical node, got {:?}", other),
    }
}
