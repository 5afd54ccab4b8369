//! The expression vocabulary: a closed set of tree node variants, each
//! non-leaf node exclusively owning its children. Trees are built bottom-up by
//! the parser and never mutated afterwards.

use vstd::prelude::*;

verus! {

/// A prefix operator.
#[derive(Clone, Copy, Debug, PartialEq, Eq, Structural)]
pub enum UnaryOp {
    Negate,
    Not,
}

/// An infix arithmetic or comparison operator.
#[derive(Clone, Copy, Debug, PartialEq, Eq, Structural)]
pub enum BinaryOp {
    Add,
    Subtract,
    Multiply,
    Divide,
    Equal,
    NotEqual,
    Less,
    LessEqual,
    Greater,
    GreaterEqual,
}

/// A short-circuiting logical operator. Kept apart from `BinaryOp` because
/// logical operators must short-circuit at evaluation time, a distinction the
/// tree has to preserve for its consumers.
#[derive(Clone, Copy, Debug, PartialEq, Eq, Structural)]
pub enum LogicalOp {
    And,
    Or,
}

/// A literal value: nil, a boolean, a string's decoded contents, or a number's
/// exact digit text (decoding it into a machine number is the consumer's
/// concern).
#[derive(Debug, PartialEq)]
pub enum Literal {
    NilLiteral,
    BoolLiteral(bool),
    StringLiteral(String),
    NumberLiteral(String),
}

/// An infix application: `left operator right`.
#[derive(Debug, PartialEq)]
pub struct Binary {
    pub left: Box<Expr>,
    pub operator: BinaryOp,
    pub right: Box<Expr>,
}

/// A parenthesized sub-expression, kept as its own node so that source
/// grouping stays visible to consumers such as a printer.
#[derive(Debug, PartialEq)]
pub struct Grouping {
    pub expr: Box<Expr>,
}

/// A prefix application: `operator right`.
#[derive(Debug, PartialEq)]
pub struct Unary {
    pub operator: UnaryOp,
    pub right: Box<Expr>,
}

/// A short-circuiting infix application: `left operator right`.
#[derive(Debug, PartialEq)]
pub struct Logical {
    pub left: Box<Expr>,
    pub operator: LogicalOp,
    pub right: Box<Expr>,
}

/// An expression tree node.
#[derive(Debug, PartialEq)]
pub enum Expr {
    Binary(Binary),
    Grouping(Grouping),
    Literal(Literal),
    Unary(Unary),
    Logical(Logical),
}

/// The mathematical model of a literal.
#[verifier::ext_equal]
pub enum LiteralView {
    NilLiteral,
    BoolLiteral(bool),
    StringLiteral(Seq<char>),
    NumberLiteral(Seq<char>),
}

/// The mathematical model of an expression tree.
#[verifier::ext_equal]
pub enum ExprView {
    Binary(BinaryOp, Box<ExprView>, Box<ExprView>),
    Grouping(Box<ExprView>),
    Literal(LiteralView),
    Unary(UnaryOp, Box<ExprView>),
    Logical(LogicalOp, Box<ExprView>, Box<ExprView>),
}

impl View for Literal {
    type V = LiteralView;

    open spec fn view(&self) -> LiteralView {
        match self {
            Literal::NilLiteral => LiteralView::NilLiteral,
            Literal::BoolLiteral(b) => LiteralView::BoolLiteral(*b),
            Literal::StringLiteral(s) => LiteralView::StringLiteral(s@),
            Literal::NumberLiteral(s) => LiteralView::NumberLiteral(s@),
        }
    }
}

/// The model of an expression tree: node for node, with literal payloads
/// modelled as character sequences.
pub open spec fn view_of_expr(e: Expr) -> ExprView
    decreases e,
{
    match e {
        Expr::Binary(b) => ExprView::Binary(
            b.operator,
            Box::new(view_of_expr(*b.left)),
            Box::new(view_of_expr(*b.right)),
        ),
        Expr::Grouping(g) => ExprView::Grouping(Box::new(view_of_expr(*g.expr))),
        Expr::Literal(l) => ExprView::Literal(l@),
        Expr::Unary(u) => ExprView::Unary(u.operator, Box::new(view_of_expr(*u.right))),
        Expr::Logical(l) => ExprView::Logical(
            l.operator,
            Box::new(view_of_expr(*l.left)),
            Box::new(view_of_expr(*l.right)),
        ),
    }
}

impl View for Expr {
    type V = ExprView;

    open spec fn view(&self) -> ExprView {
        view_of_expr(*self)
    }
}

impl Expr {
    /// An infix node owning both operands.
    pub fn binary(operator: BinaryOp, left: Expr, right: Expr) -> (e: Expr)
        ensures
            e@ == ExprView::Binary(operator, Box::new(left@), Box::new(right@)),
    {
        Expr::Binary(Binary { left: Box::new(left), right: Box::new(right), operator })
    }

    /// A short-circuiting infix node owning both operands.
    pub fn logical(operator: LogicalOp, left: Expr, right: Expr) -> (e: Expr)
        ensures
            e@ == ExprView::Logical(operator, Box::new(left@), Box::new(right@)),
    {
        Expr::Logical(Logical { left: Box::new(left), right: Box::new(right), operator })
    }

    /// A grouping node owning the parenthesized sub-expression.
    pub fn grouping(grouping: Expr) -> (e: Expr)
        ensures
            e@ == ExprView::Grouping(Box::new(grouping@)),
    {
        Expr::Grouping(Grouping { expr: Box::new(grouping) })
    }

    /// A prefix node owning its operand.
    pub fn unary(operator: UnaryOp, unary: Expr) -> (e: Expr)
        ensures
            e@ == ExprView::Unary(operator, Box::new(unary@)),
    {
        Expr::Unary(Unary { operator, right: Box::new(unary) })
    }
}

} // verus!
