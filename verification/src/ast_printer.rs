//! A pretty-printer that renders an expression tree in fully parenthesized
//! prefix form: `1 - (2 + 3)` prints as `(- 1 (group (+ 2 3)))`.

use vstd::prelude::*;
use vstd::string::StringExecFns;

use crate::ast::{BinaryOp, Expr, ExprView, Literal, LiteralView, LogicalOp, UnaryOp};

verus! {

/// The symbol an infix operator prints as.
pub open spec fn binary_op_text(op: BinaryOp) -> Seq<char> {
    match op {
        BinaryOp::Add => "+"@,
        BinaryOp::Subtract => "-"@,
        BinaryOp::Multiply => "*"@,
        BinaryOp::Divide => "/"@,
        BinaryOp::Equal => "=="@,
        BinaryOp::NotEqual => "!="@,
        BinaryOp::Less => "<"@,
        BinaryOp::LessEqual => "<="@,
        BinaryOp::Greater => ">"@,
        BinaryOp::GreaterEqual => ">="@,
    }
}

/// The symbol a prefix operator prints as.
pub open spec fn unary_op_text(op: UnaryOp) -> Seq<char> {
    match op {
        UnaryOp::Negate => "-"@,
        UnaryOp::Not => "!"@,
    }
}

/// The word a logical operator prints as.
pub open spec fn logical_op_text(op: LogicalOp) -> Seq<char> {
    match op {
        LogicalOp::And => "and"@,
        LogicalOp::Or => "or"@,
    }
}

/// What a tree prints as: each node fully parenthesized in prefix form, a
/// grouping under the word `group`, and literals as their text.
pub open spec fn spec_pretty(e: ExprView) -> Seq<char>
    decreases e,
{
    match e {
        ExprView::Literal(l) => match l {
            LiteralView::NilLiteral => "nil"@,
            LiteralView::BoolLiteral(b) => if b {
                "true"@
            } else {
                "false"@
            },
            LiteralView::StringLiteral(s) => s,
            LiteralView::NumberLiteral(s) => s,
        },
        ExprView::Binary(op, l, r) => seq!['('] + binary_op_text(op) + seq![' '] + spec_pretty(*l)
            + seq![' '] + spec_pretty(*r) + seq![')'],
        ExprView::Grouping(inner) => seq!['('] + "group"@ + seq![' '] + spec_pretty(*inner)
            + seq![')'],
        ExprView::Unary(op, r) => seq!['('] + unary_op_text(op) + seq![' '] + spec_pretty(*r)
            + seq![')'],
        ExprView::Logical(op, l, r) => seq!['('] + logical_op_text(op) + seq![' '] + spec_pretty(
            *l,
        ) + seq![' '] + spec_pretty(*r) + seq![')'],
    }
}

fn binary_op_str(op: BinaryOp) -> (s: &'static str)
    ensures
        s@ == binary_op_text(op),
{
    match op {
        BinaryOp::Add => "+",
        BinaryOp::Subtract => "-",
        BinaryOp::Multiply => "*",
        BinaryOp::Divide => "/",
        BinaryOp::Equal => "==",
        BinaryOp::NotEqual => "!=",
        BinaryOp::Less => "<",
        BinaryOp::LessEqual => "<=",
        BinaryOp::Greater => ">",
        BinaryOp::GreaterEqual => ">=",
    }
}

fn unary_op_str(op: UnaryOp) -> (s: &'static str)
    ensures
        s@ == unary_op_text(op),
{
    match op {
        UnaryOp::Negate => "-",
        UnaryOp::Not => "!",
    }
}

fn logical_op_str(op: LogicalOp) -> (s: &'static str)
    ensures
        s@ == logical_op_text(op),
{
    match op {
        LogicalOp::And => "and",
        LogicalOp::Or => "or",
    }
}

/// The already-rendered parts of a node, each behind one space.
pub open spec fn spec_joined(parts: Seq<Seq<char>>) -> Seq<char>
    decreases parts.len(),
{
    if parts.len() == 0 {
        Seq::empty()
    } else {
        spec_joined(parts.drop_last()) + seq![' '] + parts.last()
    }
}

/// Wraps a node's name and its already-rendered parts in parentheses.
fn parenthize(name: &str, parts: Vec<String>) -> (s: String)
    ensures
        s@ == seq!['('] + name@ + spec_joined(parts.deep_view()) + seq![')'],
{
    let mut rv = String::new();
    rv.append("(");
    rv.append(name);
    let ghost all = parts.deep_view();
    proof {
        reveal_strlit("(");
        assert(rv@ =~= seq!['('] + name@ + spec_joined(all.take(0int)));
    }
    let mut idx: usize = 0;
    while idx < parts.len()
        invariant
            all == parts.deep_view(),
            idx <= parts.len(),
            rv@ == seq!['('] + name@ + spec_joined(all.take(idx as int)),
        decreases parts.len() - idx,
    {
        rv.append(" ");
        rv.append(parts[idx].as_str());
        proof {
            reveal_strlit(" ");
            assert(all[idx as int] == parts@[idx as int]@);
            assert(all.take(idx + 1).drop_last() =~= all.take(idx as int));
            assert(all.take(idx + 1).last() == all[idx as int]);
            assert(rv@ =~= seq!['('] + name@ + spec_joined(all.take(idx + 1)));
        }
        idx = idx + 1;
    }
    rv.append(")");
    proof {
        reveal_strlit(")");
        assert(all.take(parts.len() as int) =~= all);
        assert(rv@ =~= seq!['('] + name@ + spec_joined(all) + seq![')']);
    }
    rv
}

/// Renders a tree: exactly `spec_pretty` of its model.
pub fn pretty_print(expr: &Expr) -> (s: String)
    ensures
        s@ == spec_pretty(expr@),
    decreases expr,
{
    match expr {
        Expr::Literal(l) => match l {
            Literal::NilLiteral => "nil".to_owned(),
            Literal::BoolLiteral(b) => if *b {
                "true".to_owned()
            } else {
                "false".to_owned()
            },
            Literal::StringLiteral(s) => s.clone(),
            Literal::NumberLiteral(s) => s.clone(),
        },
        Expr::Binary(b) => {
            let left = pretty_print(&b.left);
            let right = pretty_print(&b.right);
            let ghost lv = left@;
            let ghost rv = right@;
            let mut parts: Vec<String> = Vec::new();
            parts.push(left);
            parts.push(right);
            let s = parenthize(binary_op_str(b.operator), parts);
            proof {
                reveal_with_fuel(spec_joined, 3);
                assert(s@ =~= spec_pretty(expr@));
            }
            s
        },
        Expr::Grouping(g) => {
            let inner = pretty_print(&g.expr);
            let mut parts: Vec<String> = Vec::new();
            parts.push(inner);
            let s = parenthize("group", parts);
            proof {
                reveal_with_fuel(spec_joined, 2);
                assert(s@ =~= spec_pretty(expr@));
            }
            s
        },
        Expr::Unary(u) => {
            let operand = pretty_print(&u.right);
            let mut parts: Vec<String> = Vec::new();
            parts.push(operand);
            let s = parenthize(unary_op_str(u.operator), parts);
            proof {
                reveal_with_fuel(spec_joined, 2);
                assert(s@ =~= spec_pretty(expr@));
            }
            s
        },
        Expr::Logical(l) => {
            let left = pretty_print(&l.left);
            let right = pretty_print(&l.right);
            let mut parts: Vec<String> = Vec::new();
            parts.push(left);
            parts.push(right);
            let s = parenthize(logical_op_str(l.operator), parts);
            proof {
                reveal_with_fuel(spec_joined, 3);
                assert(s@ =~= spec_pretty(expr@));
            }
            s
        },
    }
}

} // verus!
