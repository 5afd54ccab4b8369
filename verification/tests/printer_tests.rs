use salal::ast::BinaryOp;
use salal::ast::Expr;
use salal::ast::Literal;
use salal::ast::LogicalOp;
use salal::ast::UnaryOp;
use salal::ast_printer::pretty_print;
use salal::parser::Parser;
use salal::scanner::Scanner;

fn parse_source(src: &str) -> Expr {
    let mut scanner = Scanner::new(src.to_string());
    let tokens = scanner.scan().unwrap();
    let mut parser = Parser::new(tokens);
    parser.parse().unwrap()
}

fn num(text: &str) -> Expr {
    Expr::Literal(Literal::NumberLiteral(text.to_string()))
}

#[test]
fn printing_a_parse_gives_fully_parenthesized_prefix_form() {
    let tree = parse_source("1 - (2 + 3)");
    assert_eq!(pretty_print(&tree), "(- 1 (group (+ 2 3)))");
}

#[test]
fn literals_print_as_their_text() {
    assert_eq!(pretty_print(&Expr::Literal(Literal::NilLiteral)), "nil");
    assert_eq!(pretty_print(&Expr::Literal(Literal::BoolLiteral(true))), "true");
    assert_eq!(pretty_print(&Expr::Literal(Literal::BoolLiteral(false))), "false");
    assert_eq!(
        pretty_print(&Expr::Literal(Literal::StringLiteral("hi".to_string()))),
        "hi"
    );
    assert_eq!(pretty_print(&num("123.45")), "123.45");
}

#[test]
fn every_binary_operator_prints_its_symbol() {
    let cases = [
        (BinaryOp::Add, "(+ 1 2)"),
        (BinaryOp::Subtract, "(- 1 2)"),
        (BinaryOp::Multiply, "(* 1 2)"),
        (BinaryOp::Divide, "(/ 1 2)"),
        (BinaryOp::Equal, "(== 1 2)"),
        (BinaryOp::NotEqual, "(!= 1 2)"),
        (BinaryOp::Less, "(< 1 2)"),
        (BinaryOp::LessEqual, "(<= 1 2)"),
        (BinaryOp::Greater, "(> 1 2)"),
        (BinaryOp::GreaterEqual, "(>= 1 2)"),
    ];
    for (op, expected) in cases {
        let tree = Expr::binary(op, num("1"), num("2"));
        assert_eq!(pretty_print(&tree), expected);
    }
}

#[test]
fn prefix_operators_print_before_their_operand() {
    assert_eq!(pretty_print(&Expr::unary(UnaryOp::Negate, num("5"))), "(- 5)");
    assert_eq!(
        pretty_print(&Expr::unary(UnaryOp::Not, Expr::Literal(Literal::BoolLiteral(true)))),
        "(! true)"
    );
}

#[test]
fn logical_nodes_print_their_word() {
    let both = Expr::logical(
        LogicalOp::And,
        Expr::Literal(Literal::BoolLiteral(true)),
        Expr::Literal(Literal::BoolLiteral(false)),
    );
    assert_eq!(pretty_print(&both), "(and true false)");
    let either = Expr::logical(LogicalOp::Or, num("1"), num("2"));
    assert_eq!(pretty_print(&either), "(or 1 2)");
}

#[test]
fn nested_parses_print_depth_first() {
    let tree = parse_source("- - (1 * 2) < 3");
    assert_eq!(pretty_print(&tree), "(< (- (- (group (* 1 2)))) 3)");
}
