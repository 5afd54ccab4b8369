//! The parser: recursive-descent precedence climbing over a token sequence,
//! producing one expression tree or a parse error carrying the offending token
//! (`None` for an unexpected end of input).
//!
//! The grammar, lowest precedence first:
//! ```text
//! expression := equality
//! equality   := comparison ( ("!=" | "==") comparison )*
//! comparison := term ( (">" | ">=" | "<" | "<=") term )*
//! term       := factor ( ("+" | "-") factor )*
//! factor     := unary ( ("*" | "/") unary )*
//! unary      := ("!" | "-") unary | primary
//! primary    := NUMBER | STRING | "true" | "false" | "nil" | "(" expression ")"
//! ```
//! Each level is modelled by a spec function from the token sequence and a
//! cursor to the parsed sub-tree and the cursor behind it, or the error; the
//! executable parser is proved to return exactly those values. Binary levels
//! fold left (chains group left-to-right); `unary` recurses into itself, so
//! chained prefix operators group to the right.

use vstd::prelude::*;

use crate::ast::{BinaryOp, Expr, ExprView, Literal, LiteralView, LogicalOp, UnaryOp};
use crate::errors::ParserError;
use crate::tokens::{Token, TokenVariant, TokenVariantView, TokenView};

verus! {

// ---------------------------------------------------------------------------
// The operator set of each binary level, and of the prefix level.
// ---------------------------------------------------------------------------
pub open spec fn spec_equality_op(k: TokenVariantView) -> Option<BinaryOp> {
    match k {
        TokenVariantView::BangEqual => Some(BinaryOp::NotEqual),
        TokenVariantView::EqualEqual => Some(BinaryOp::Equal),
        _ => None,
    }
}

pub open spec fn spec_comparison_op(k: TokenVariantView) -> Option<BinaryOp> {
    match k {
        TokenVariantView::Greater => Some(BinaryOp::Greater),
        TokenVariantView::GreaterEqual => Some(BinaryOp::GreaterEqual),
        TokenVariantView::Less => Some(BinaryOp::Less),
        TokenVariantView::LessEqual => Some(BinaryOp::LessEqual),
        _ => None,
    }
}

pub open spec fn spec_term_op(k: TokenVariantView) -> Option<BinaryOp> {
    match k {
        TokenVariantView::Plus => Some(BinaryOp::Add),
        TokenVariantView::Minus => Some(BinaryOp::Subtract),
        _ => None,
    }
}

pub open spec fn spec_factor_op(k: TokenVariantView) -> Option<BinaryOp> {
    match k {
        TokenVariantView::Slash => Some(BinaryOp::Divide),
        TokenVariantView::Star => Some(BinaryOp::Multiply),
        _ => None,
    }
}

pub open spec fn spec_unary_op(k: TokenVariantView) -> Option<UnaryOp> {
    match k {
        TokenVariantView::Bang => Some(UnaryOp::Not),
        TokenVariantView::Minus => Some(UnaryOp::Negate),
        _ => None,
    }
}

fn equality_op(v: &TokenVariant) -> (r: Option<BinaryOp>)
    ensures
        r == spec_equality_op(v@),
{
    match v {
        TokenVariant::BangEqual => Some(BinaryOp::NotEqual),
        TokenVariant::EqualEqual => Some(BinaryOp::Equal),
        _ => None,
    }
}

fn comparison_op(v: &TokenVariant) -> (r: Option<BinaryOp>)
    ensures
        r == spec_comparison_op(v@),
{
    match v {
        TokenVariant::Greater => Some(BinaryOp::Greater),
        TokenVariant::GreaterEqual => Some(BinaryOp::GreaterEqual),
        TokenVariant::Less => Some(BinaryOp::Less),
        TokenVariant::LessEqual => Some(BinaryOp::LessEqual),
        _ => None,
    }
}

fn term_op(v: &TokenVariant) -> (r: Option<BinaryOp>)
    ensures
        r == spec_term_op(v@),
{
    match v {
        TokenVariant::Plus => Some(BinaryOp::Add),
        TokenVariant::Minus => Some(BinaryOp::Subtract),
        _ => None,
    }
}

fn factor_op(v: &TokenVariant) -> (r: Option<BinaryOp>)
    ensures
        r == spec_factor_op(v@),
{
    match v {
        TokenVariant::Slash => Some(BinaryOp::Divide),
        TokenVariant::Star => Some(BinaryOp::Multiply),
        _ => None,
    }
}

fn unary_op_of(v: &TokenVariant) -> (r: Option<UnaryOp>)
    ensures
        r == spec_unary_op(v@),
{
    match v {
        TokenVariant::Bang => Some(UnaryOp::Not),
        TokenVariant::Minus => Some(UnaryOp::Negate),
        _ => None,
    }
}

// ---------------------------------------------------------------------------
// The grammar as spec functions. Each takes the token sequence and a cursor
// and yields the parsed sub-tree with the cursor behind it, or the offending
// token (`None` for end of input). The binary levels recurse through a `rest`
// function standing for the fold over trailing operator-operand pairs; the
// guards `j < k <= toks.len()` only restate the progress every level makes
// (proved in `lemma_parse_consumes`) so that each call visibly terminates.
// ---------------------------------------------------------------------------
pub open spec fn spec_expression(toks: Seq<TokenView>, i: int) -> Result<
    (ExprView, int),
    Option<TokenView>,
>
    decreases toks.len() - i, 7int,
{
    spec_equality(toks, i)
}

pub open spec fn spec_equality(toks: Seq<TokenView>, i: int) -> Result<
    (ExprView, int),
    Option<TokenView>,
>
    decreases toks.len() - i, 6int,
{
    match spec_comparison(toks, i) {
        Ok((left, j)) => if i < j && j <= toks.len() {
            spec_equality_rest(toks, left, j)
        } else {
            Ok((left, j))
        },
        Err(e) => Err(e),
    }
}

pub open spec fn spec_equality_rest(toks: Seq<TokenView>, left: ExprView, j: int) -> Result<
    (ExprView, int),
    Option<TokenView>,
>
    decreases toks.len() - j, 6int,
{
    if 0 <= j && j < toks.len() && spec_equality_op(toks[j].kind) is Some {
        let op = spec_equality_op(toks[j].kind)->0;
        match spec_comparison(toks, j + 1) {
            Ok((right, k)) => if j < k && k <= toks.len() {
                spec_equality_rest(toks, ExprView::Binary(op, Box::new(left), Box::new(right)), k)
            } else {
                Ok((ExprView::Binary(op, Box::new(left), Box::new(right)), k))
            },
            Err(e) => Err(e),
        }
    } else {
        Ok((left, j))
    }
}

pub open spec fn spec_comparison(toks: Seq<TokenView>, i: int) -> Result<
    (ExprView, int),
    Option<TokenView>,
>
    decreases toks.len() - i, 5int,
{
    match spec_term(toks, i) {
        Ok((left, j)) => if i < j && j <= toks.len() {
            spec_comparison_rest(toks, left, j)
        } else {
            Ok((left, j))
        },
        Err(e) => Err(e),
    }
}

pub open spec fn spec_comparison_rest(toks: Seq<TokenView>, left: ExprView, j: int) -> Result<
    (ExprView, int),
    Option<TokenView>,
>
    decreases toks.len() - j, 5int,
{
    if 0 <= j && j < toks.len() && spec_comparison_op(toks[j].kind) is Some {
        let op = spec_comparison_op(toks[j].kind)->0;
        match spec_term(toks, j + 1) {
            Ok((right, k)) => if j < k && k <= toks.len() {
                spec_comparison_rest(toks, ExprView::Binary(op, Box::new(left), Box::new(right)), k)
            } else {
                Ok((ExprView::Binary(op, Box::new(left), Box::new(right)), k))
            },
            Err(e) => Err(e),
        }
    } else {
        Ok((left, j))
    }
}

pub open spec fn spec_term(toks: Seq<TokenView>, i: int) -> Result<
    (ExprView, int),
    Option<TokenView>,
>
    decreases toks.len() - i, 4int,
{
    match spec_factor(toks, i) {
        Ok((left, j)) => if i < j && j <= toks.len() {
            spec_term_rest(toks, left, j)
        } else {
            Ok((left, j))
        },
        Err(e) => Err(e),
    }
}

pub open spec fn spec_term_rest(toks: Seq<TokenView>, left: ExprView, j: int) -> Result<
    (ExprView, int),
    Option<TokenView>,
>
    decreases toks.len() - j, 4int,
{
    if 0 <= j && j < toks.len() && spec_term_op(toks[j].kind) is Some {
        let op = spec_term_op(toks[j].kind)->0;
        match spec_factor(toks, j + 1) {
            Ok((right, k)) => if j < k && k <= toks.len() {
                spec_term_rest(toks, ExprView::Binary(op, Box::new(left), Box::new(right)), k)
            } else {
                Ok((ExprView::Binary(op, Box::new(left), Box::new(right)), k))
            },
            Err(e) => Err(e),
        }
    } else {
        Ok((left, j))
    }
}

pub open spec fn spec_factor(toks: Seq<TokenView>, i: int) -> Result<
    (ExprView, int),
    Option<TokenView>,
>
    decreases toks.len() - i, 3int,
{
    match spec_unary(toks, i) {
        Ok((left, j)) => if i < j && j <= toks.len() {
            spec_factor_rest(toks, left, j)
        } else {
            Ok((left, j))
        },
        Err(e) => Err(e),
    }
}

pub open spec fn spec_factor_rest(toks: Seq<TokenView>, left: ExprView, j: int) -> Result<
    (ExprView, int),
    Option<TokenView>,
>
    decreases toks.len() - j, 3int,
{
    if 0 <= j && j < toks.len() && spec_factor_op(toks[j].kind) is Some {
        let op = spec_factor_op(toks[j].kind)->0;
        match spec_unary(toks, j + 1) {
            Ok((right, k)) => if j < k && k <= toks.len() {
                spec_factor_rest(toks, ExprView::Binary(op, Box::new(left), Box::new(right)), k)
            } else {
                Ok((ExprView::Binary(op, Box::new(left), Box::new(right)), k))
            },
            Err(e) => Err(e),
        }
    } else {
        Ok((left, j))
    }
}

pub open spec fn spec_unary(toks: Seq<TokenView>, i: int) -> Result<
    (ExprView, int),
    Option<TokenView>,
>
    decreases toks.len() - i, 2int,
{
    if 0 <= i && i < toks.len() && spec_unary_op(toks[i].kind) is Some {
        let op = spec_unary_op(toks[i].kind)->0;
        match spec_unary(toks, i + 1) {
            Ok((operand, j)) => Ok((ExprView::Unary(op, Box::new(operand)), j)),
            Err(e) => Err(e),
        }
    } else {
        spec_primary(toks, i)
    }
}

pub open spec fn spec_primary(toks: Seq<TokenView>, i: int) -> Result<
    (ExprView, int),
    Option<TokenView>,
>
    decreases toks.len() - i, 1int,
{
    if !(0 <= i && i < toks.len()) {
        Err(None)
    } else {
        match toks[i].kind {
            TokenVariantView::False => Ok(
                (ExprView::Literal(LiteralView::BoolLiteral(false)), i + 1),
            ),
            TokenVariantView::True => Ok((ExprView::Literal(LiteralView::BoolLiteral(true)), i + 1)),
            TokenVariantView::Nil => Ok((ExprView::Literal(LiteralView::NilLiteral), i + 1)),
            TokenVariantView::Number(text) => Ok(
                (ExprView::Literal(LiteralView::NumberLiteral(text)), i + 1),
            ),
            TokenVariantView::StringLit(value) => Ok(
                (ExprView::Literal(LiteralView::StringLiteral(value)), i + 1),
            ),
            TokenVariantView::LeftParen => match spec_expression(toks, i + 1) {
                Ok((inner, j)) => if 0 <= j && j < toks.len() && toks[j].kind
                    == TokenVariantView::RightParen {
                    Ok((ExprView::Grouping(Box::new(inner)), j + 1))
                } else if 0 <= j && j < toks.len() {
                    Err(Some(toks[j]))
                } else {
                    Err(None)
                },
                Err(e) => Err(e),
            },
            _ => Err(Some(toks[i])),
        }
    }
}

/// A whole parse: one expression, which must reach the end-of-input marker.
/// On success the cursor stands on that marker; a token left over after the
/// expression is the offending token of a parse error (`None` where the
/// sequence simply ran out without a marker).
pub open spec fn spec_parse(toks: Seq<TokenView>, i: int) -> Result<
    (ExprView, int),
    Option<TokenView>,
> {
    match spec_expression(toks, i) {
        Ok((e, j)) => if 0 <= j && j < toks.len() && toks[j].kind == TokenVariantView::Eof {
            Ok((e, j))
        } else if 0 <= j && j < toks.len() {
            Err(Some(toks[j]))
        } else {
            Err(None)
        },
        Err(oe) => Err(oe),
    }
}

// ---------------------------------------------------------------------------
// What the parser consumes: on success, the tokens it moved past spell the
// returned tree, node for node.
// ---------------------------------------------------------------------------
/// The token kind an infix operator was parsed from.
pub open spec fn binary_op_token(op: BinaryOp) -> TokenVariantView {
    match op {
        BinaryOp::Add => TokenVariantView::Plus,
        BinaryOp::Subtract => TokenVariantView::Minus,
        BinaryOp::Multiply => TokenVariantView::Star,
        BinaryOp::Divide => TokenVariantView::Slash,
        BinaryOp::Equal => TokenVariantView::EqualEqual,
        BinaryOp::NotEqual => TokenVariantView::BangEqual,
        BinaryOp::Less => TokenVariantView::Less,
        BinaryOp::LessEqual => TokenVariantView::LessEqual,
        BinaryOp::Greater => TokenVariantView::Greater,
        BinaryOp::GreaterEqual => TokenVariantView::GreaterEqual,
    }
}

/// The token kind a prefix operator was parsed from.
pub open spec fn unary_op_token(op: UnaryOp) -> TokenVariantView {
    match op {
        UnaryOp::Negate => TokenVariantView::Minus,
        UnaryOp::Not => TokenVariantView::Bang,
    }
}

/// The token kind a logical operator is spelled with.
pub open spec fn logical_op_token(op: LogicalOp) -> TokenVariantView {
    match op {
        LogicalOp::And => TokenVariantView::And,
        LogicalOp::Or => TokenVariantView::Or,
    }
}

/// The token kinds that spell a tree, in source order: literals as their
/// tokens, a grouping as its parentheses around its child, operators between
/// or before their operands.
pub open spec fn expr_token_kinds(e: ExprView) -> Seq<TokenVariantView>
    decreases e,
{
    match e {
        ExprView::Literal(l) => match l {
            LiteralView::NilLiteral => seq![TokenVariantView::Nil],
            LiteralView::BoolLiteral(b) => if b {
                seq![TokenVariantView::True]
            } else {
                seq![TokenVariantView::False]
            },
            LiteralView::StringLiteral(s) => seq![TokenVariantView::StringLit(s)],
            LiteralView::NumberLiteral(s) => seq![TokenVariantView::Number(s)],
        },
        ExprView::Binary(op, l, r) => expr_token_kinds(*l) + seq![binary_op_token(op)]
            + expr_token_kinds(*r),
        ExprView::Grouping(inner) => seq![TokenVariantView::LeftParen] + expr_token_kinds(*inner)
            + seq![TokenVariantView::RightParen],
        ExprView::Unary(op, r) => seq![unary_op_token(op)] + expr_token_kinds(*r),
        ExprView::Logical(op, l, r) => expr_token_kinds(*l) + seq![logical_op_token(op)]
            + expr_token_kinds(*r),
    }
}

/// The kinds of a token sequence.
pub open spec fn kinds_of(toks: Seq<TokenView>) -> Seq<TokenVariantView> {
    toks.map_values(|t: TokenView| t.kind)
}

/// How an executable parse result relates to its model: on success the tree's
/// model and the final cursor are the model's, on failure the error carries
/// the model's offending token.
pub open spec fn parse_outcome(
    spec_r: Result<(ExprView, int), Option<TokenView>>,
    r: Result<Expr, ParserError>,
    endpos: int,
) -> bool {
    match spec_r {
        Ok((ev, j)) => r matches Ok(e) && e@ == ev && endpos == j,
        Err(oe) => r matches Err(pe) && pe@ == oe,
    }
}

// ---------------------------------------------------------------------------
// The executable parser.
// ---------------------------------------------------------------------------
/// The parser: the token sequence and one read cursor. Tokens are never
/// mutated; the cursor only moves forward.
#[derive(Debug)]
pub struct Parser {
    tokens: Vec<Token>,
    current: usize,
}

impl Parser {
    /// The models of the held tokens.
    pub closed spec fn toks(&self) -> Seq<TokenView> {
        self.tokens.deep_view()
    }

    /// The read cursor.
    pub closed spec fn pos(&self) -> int {
        self.current as int
    }

    /// The parser's internal invariant: the cursor stays within the sequence.
    pub closed spec fn wf(&self) -> bool {
        self.current <= self.tokens.len()
    }

    pub fn new(tokens: Vec<Token>) -> (p: Parser)
        ensures
            p.wf(),
            p.toks() == tokens.deep_view(),
            p.pos() == 0,
    {
        Parser { tokens, current: 0 }
    }

    /// An owned copy of the token under the cursor, or `None` where the cursor
    /// has passed the last token.
    fn current(&self) -> (r: Option<Token>)
        requires
            self.wf(),
        ensures
            match r {
                Some(t) => self.pos() < self.toks().len() && t@ == self.toks()[self.pos()],
                None => self.pos() >= self.toks().len(),
            },
    {
        if self.current < self.tokens.len() {
            Some(self.tokens[self.current].duplicate())
        } else {
            None
        }
    }

    /// The token under the cursor, by reference.
    fn peek(&self) -> (r: Option<&Token>)
        requires
            self.wf(),
        ensures
            match r {
                Some(t) => self.pos() < self.toks().len() && t@ == self.toks()[self.pos()],
                None => self.pos() >= self.toks().len(),
            },
    {
        if self.current < self.tokens.len() {
            Some(&self.tokens[self.current])
        } else {
            None
        }
    }

    /// An owned copy of the token just before the cursor, or `None` at the
    /// sequence's start.
    fn previous(&self) -> (r: Option<Token>)
        requires
            self.wf(),
        ensures
            match r {
                Some(t) => 1 <= self.pos() && t@ == self.toks()[self.pos() - 1],
                None => self.pos() == 0,
            },
    {
        if self.current == 0 {
            None
        } else {
            Some(self.tokens[self.current - 1].duplicate())
        }
    }

    /// Whether the cursor stands on the end-of-input marker.
    fn is_at_end(&self) -> (r: bool)
        requires
            self.wf(),
        ensures
            r == (self.pos() < self.toks().len() && self.toks()[self.pos()].kind
                == TokenVariantView::Eof),
    {
        match self.peek() {
            Some(t) => matches!(t.variant, TokenVariant::Eof),
            None => false,
        }
    }

    /// Moves the cursor past the current token, except at the end-of-input
    /// marker or past the sequence's end, and returns the token just before
    /// the new cursor (`None` only when the cursor stands, and stays, at the
    /// sequence's start).
    fn advance(&mut self) -> (r: Option<Token>)
        requires
            old(self).wf(),
        ensures
            final(self).wf(),
            final(self).toks() == old(self).toks(),
            final(self).pos() == (if old(self).pos() < old(self).toks().len() && old(
                self,
            ).toks()[old(self).pos()].kind != TokenVariantView::Eof {
                old(self).pos() + 1
            } else {
                old(self).pos()
            }),
            match r {
                Some(t) => 1 <= final(self).pos() && t@ == old(self).toks()[final(self).pos() - 1],
                None => final(self).pos() == 0,
            },
    {
        let not_eof = !self.is_at_end();
        if self.current < self.tokens.len() && not_eof {
            self.current = self.current + 1;
        }
        self.previous()
    }

    /// Parses one expression starting at the cursor and requires it to reach
    /// the end-of-input marker: exactly the value of `spec_parse` there. On
    /// success the cursor stands on the marker, which is not consumed; a
    /// leftover token is a parse error. The cursor never moves backwards, and
    /// after a failed parse it stands at the sequence's end, so equal inputs
    /// always end at equal cursors.
    pub fn parse(&mut self) -> (r: Result<Expr, ParserError>)
        requires
            old(self).wf(),
        ensures
            final(self).wf(),
            final(self).toks() == old(self).toks(),
            final(self).pos() >= old(self).pos(),
            r is Ok ==> final(self).pos() < old(self).toks().len() && old(self).toks()[final(self).pos()].kind
                == TokenVariantView::Eof,
            r is Err ==> final(self).pos() == old(self).toks().len(),
            parse_outcome(spec_parse(old(self).toks(), old(self).pos()), r, final(self).pos()),
    {
        let expr = match self.expression() {
            Ok(e) => e,
            Err(er) => {
                self.current = self.tokens.len();
                return Err(er);
            },
        };
        if self.is_at_end() {
            Ok(expr)
        } else {
            let unexpected = self.current();
            self.current = self.tokens.len();
            Err(ParserError::new(unexpected))
        }
    }

    fn expression(&mut self) -> (r: Result<Expr, ParserError>)
        requires
            old(self).wf(),
        ensures
            final(self).wf(),
            final(self).toks() == old(self).toks(),
            final(self).pos() >= old(self).pos(),
            r is Ok ==> final(self).pos() > old(self).pos(),
            parse_outcome(
                spec_expression(old(self).toks(), old(self).pos()),
                r,
                final(self).pos(),
            ),
        decreases self.toks().len() - self.pos(), 7int,
    {
        self.equality()
    }

    fn equality(&mut self) -> (r: Result<Expr, ParserError>)
        requires
            old(self).wf(),
        ensures
            final(self).wf(),
            final(self).toks() == old(self).toks(),
            final(self).pos() >= old(self).pos(),
            r is Ok ==> final(self).pos() > old(self).pos(),
            parse_outcome(spec_equality(old(self).toks(), old(self).pos()), r, final(self).pos()),
        decreases self.toks().len() - self.pos(), 6int,
    {
        let ghost toks = self.toks();
        let ghost i0 = self.pos();
        let mut expr = match self.comparison() {
            Ok(e) => e,
            Err(er) => {
                return Err(er);
            },
        };
        loop
            invariant
                self.wf(),
                toks == old(self).toks(),
                i0 == old(self).pos(),
                self.toks() == toks,
                i0 < self.pos() <= toks.len(),
                spec_equality(toks, i0) == spec_equality_rest(toks, expr@, self.pos()),
            ensures
                self.wf(),
                self.toks() == toks,
                i0 < self.pos() <= toks.len(),
                spec_equality(toks, i0) == Ok::<_, Option<TokenView>>((expr@, self.pos())),
            decreases toks.len() - self.pos(),
        {
            let op_opt = match self.peek() {
                Some(t) => equality_op(&t.variant),
                None => None,
            };
            match op_opt {
                None => {
                    break ;
                },
                Some(op) => {
                    let _ = self.advance();
                    let right = match self.comparison() {
                        Ok(e) => e,
                        Err(er) => {
                            return Err(er);
                        },
                    };
                    expr = Expr::binary(op, expr, right);
                },
            }
        }
        Ok(expr)
    }

    fn comparison(&mut self) -> (r: Result<Expr, ParserError>)
        requires
            old(self).wf(),
        ensures
            final(self).wf(),
            final(self).toks() == old(self).toks(),
            final(self).pos() >= old(self).pos(),
            r is Ok ==> final(self).pos() > old(self).pos(),
            parse_outcome(
                spec_comparison(old(self).toks(), old(self).pos()),
                r,
                final(self).pos(),
            ),
        decreases self.toks().len() - self.pos(), 5int,
    {
        let ghost toks = self.toks();
        let ghost i0 = self.pos();
        let mut expr = match self.term() {
            Ok(e) => e,
            Err(er) => {
                return Err(er);
            },
        };
        loop
            invariant
                self.wf(),
                toks == old(self).toks(),
                i0 == old(self).pos(),
                self.toks() == toks,
                i0 < self.pos() <= toks.len(),
                spec_comparison(toks, i0) == spec_comparison_rest(toks, expr@, self.pos()),
            ensures
                self.wf(),
                self.toks() == toks,
                i0 < self.pos() <= toks.len(),
                spec_comparison(toks, i0) == Ok::<_, Option<TokenView>>((expr@, self.pos())),
            decreases toks.len() - self.pos(),
        {
            let op_opt = match self.peek() {
                Some(t) => comparison_op(&t.variant),
                None => None,
            };
            match op_opt {
                None => {
                    break ;
                },
                Some(op) => {
                    let _ = self.advance();
                    let right = match self.term() {
                        Ok(e) => e,
                        Err(er) => {
                            return Err(er);
                        },
                    };
                    expr = Expr::binary(op, expr, right);
                },
            }
        }
        Ok(expr)
    }

    fn term(&mut self) -> (r: Result<Expr, ParserError>)
        requires
            old(self).wf(),
        ensures
            final(self).wf(),
            final(self).toks() == old(self).toks(),
            final(self).pos() >= old(self).pos(),
            r is Ok ==> final(self).pos() > old(self).pos(),
            parse_outcome(spec_term(old(self).toks(), old(self).pos()), r, final(self).pos()),
        decreases self.toks().len() - self.pos(), 4int,
    {
        let ghost toks = self.toks();
        let ghost i0 = self.pos();
        let mut expr = match self.factor() {
            Ok(e) => e,
            Err(er) => {
                return Err(er);
            },
        };
        loop
            invariant
                self.wf(),
                toks == old(self).toks(),
                i0 == old(self).pos(),
                self.toks() == toks,
                i0 < self.pos() <= toks.len(),
                spec_term(toks, i0) == spec_term_rest(toks, expr@, self.pos()),
            ensures
                self.wf(),
                self.toks() == toks,
                i0 < self.pos() <= toks.len(),
                spec_term(toks, i0) == Ok::<_, Option<TokenView>>((expr@, self.pos())),
            decreases toks.len() - self.pos(),
        {
            let op_opt = match self.peek() {
                Some(t) => term_op(&t.variant),
                None => None,
            };
            match op_opt {
                None => {
                    break ;
                },
                Some(op) => {
                    let _ = self.advance();
                    let right = match self.factor() {
                        Ok(e) => e,
                        Err(er) => {
                            return Err(er);
                        },
                    };
                    expr = Expr::binary(op, expr, right);
                },
            }
        }
        Ok(expr)
    }

    fn factor(&mut self) -> (r: Result<Expr, ParserError>)
        requires
            old(self).wf(),
        ensures
            final(self).wf(),
            final(self).toks() == old(self).toks(),
            final(self).pos() >= old(self).pos(),
            r is Ok ==> final(self).pos() > old(self).pos(),
            parse_outcome(spec_factor(old(self).toks(), old(self).pos()), r, final(self).pos()),
        decreases self.toks().len() - self.pos(), 3int,
    {
        let ghost toks = self.toks();
        let ghost i0 = self.pos();
        let mut expr = match self.unary() {
            Ok(e) => e,
            Err(er) => {
                return Err(er);
            },
        };
        loop
            invariant
                self.wf(),
                toks == old(self).toks(),
                i0 == old(self).pos(),
                self.toks() == toks,
                i0 < self.pos() <= toks.len(),
                spec_factor(toks, i0) == spec_factor_rest(toks, expr@, self.pos()),
            ensures
                self.wf(),
                self.toks() == toks,
                i0 < self.pos() <= toks.len(),
                spec_factor(toks, i0) == Ok::<_, Option<TokenView>>((expr@, self.pos())),
            decreases toks.len() - self.pos(),
        {
            let op_opt = match self.peek() {
                Some(t) => factor_op(&t.variant),
                None => None,
            };
            match op_opt {
                None => {
                    break ;
                },
                Some(op) => {
                    let _ = self.advance();
                    let right = match self.unary() {
                        Ok(e) => e,
                        Err(er) => {
                            return Err(er);
                        },
                    };
                    expr = Expr::binary(op, expr, right);
                },
            }
        }
        Ok(expr)
    }

    fn unary(&mut self) -> (r: Result<Expr, ParserError>)
        requires
            old(self).wf(),
        ensures
            final(self).wf(),
            final(self).toks() == old(self).toks(),
            final(self).pos() >= old(self).pos(),
            r is Ok ==> final(self).pos() > old(self).pos(),
            parse_outcome(spec_unary(old(self).toks(), old(self).pos()), r, final(self).pos()),
        decreases self.toks().len() - self.pos(), 2int,
    {
        let op_opt = match self.peek() {
            Some(t) => unary_op_of(&t.variant),
            None => None,
        };
        match op_opt {
            Some(op) => {
                let _ = self.advance();
                match self.unary() {
                    Ok(right) => Ok(Expr::unary(op, right)),
                    Err(er) => Err(er),
                }
            },
            None => self.primary(),
        }
    }

    fn primary(&mut self) -> (r: Result<Expr, ParserError>)
        requires
            old(self).wf(),
        ensures
            final(self).wf(),
            final(self).toks() == old(self).toks(),
            final(self).pos() >= old(self).pos(),
            r is Ok ==> final(self).pos() > old(self).pos(),
            r is Err && !(old(self).pos() < old(self).toks().len() && old(self).toks()[old(
                self,
            ).pos()].kind == TokenVariantView::LeftParen) ==> final(self).pos() == old(self).pos(),
            parse_outcome(spec_primary(old(self).toks(), old(self).pos()), r, final(self).pos()),
        decreases self.toks().len() - self.pos(), 1int,
    {
        if self.current >= self.tokens.len() {
            return Err(ParserError::new(None));
        }
        let t = self.tokens[self.current].duplicate();
        let Token { variant, lexeme, line } = t;
        match variant {
            TokenVariant::False => {
                let _ = self.advance();
                Ok(Expr::Literal(Literal::BoolLiteral(false)))
            },
            TokenVariant::True => {
                let _ = self.advance();
                Ok(Expr::Literal(Literal::BoolLiteral(true)))
            },
            TokenVariant::Nil => {
                let _ = self.advance();
                Ok(Expr::Literal(Literal::NilLiteral))
            },
            TokenVariant::Number(text) => {
                let _ = self.advance();
                Ok(Expr::Literal(Literal::NumberLiteral(text)))
            },
            TokenVariant::StringLit(value) => {
                let _ = self.advance();
                Ok(Expr::Literal(Literal::StringLiteral(value)))
            },
            TokenVariant::LeftParen => {
                let _ = self.advance();
                let inner = match self.expression() {
                    Ok(e) => e,
                    Err(er) => {
                        return Err(er);
                    },
                };
                let closes = match self.peek() {
                    Some(t2) => matches!(t2.variant, TokenVariant::RightParen),
                    None => false,
                };
                if closes {
                    let _ = self.advance();
                    Ok(Expr::grouping(inner))
                } else {
                    let unexpected = self.current();
                    Err(ParserError::new(unexpected))
                }
            },
            other => Err(ParserError::new(Some(Token::new(other, lexeme, line)))),
        }
    }
}

// ---------------------------------------------------------------------------
// For all token sequences: a successful parse makes progress, consumes exactly
// the tokens that spell the returned tree, and never consumes the end-of-input
// marker. (The parse functions verify, so a parse also never panics and always
// terminates.)
// ---------------------------------------------------------------------------
/// What a successful parse from `i` guarantees: a cursor strictly behind `i`
/// and within the sequence, consumed tokens spelling the tree, and no
/// end-of-input marker among them.
pub open spec fn consumes_exact(
    toks: Seq<TokenView>,
    i: int,
    r: Result<(ExprView, int), Option<TokenView>>,
) -> bool {
    r matches Ok((e, j)) ==> i < j <= toks.len() && expr_token_kinds(e) == kinds_of(
        toks.subrange(i, j),
    ) && (forall|k: int| i <= k < j ==> (#[trigger] toks[k]).kind != TokenVariantView::Eof)
}

/// What a successful fold over trailing operator-operand pairs guarantees,
/// relative to the already-parsed left operand.
pub open spec fn rest_consumes(
    toks: Seq<TokenView>,
    left: ExprView,
    j: int,
    r: Result<(ExprView, int), Option<TokenView>>,
) -> bool {
    r matches Ok((e, k)) ==> j <= k <= toks.len() && expr_token_kinds(e) == expr_token_kinds(left)
        + kinds_of(toks.subrange(j, k)) && (forall|m: int|
        j <= m < k ==> (#[trigger] toks[m]).kind != TokenVariantView::Eof)
}

/// For all token sequences and positions: a successful `spec_expression` (the
/// whole grammar, and so `Parser::parse`) moves the cursor strictly forward
/// and no further than the sequence's end, the consumed tokens are exactly the
/// kinds that spell the returned tree, and none of them is the end-of-input
/// marker.
pub proof fn lemma_parse_consumes(toks: Seq<TokenView>, i: int)
    ensures
        consumes_exact(toks, i, spec_expression(toks, i)),
    decreases toks.len() - i, 7int,
{
    lemma_equality_consumes(toks, i);
}

/// On a token stream whose one end-of-input marker stands last, a successful
/// whole parse (`spec_parse`, and so `Parser::parse`) consumes every token up
/// to and not including the marker, and the consumed tokens are exactly the
/// kinds that spell the returned tree.
pub proof fn lemma_parse_consumes_all(toks: Seq<TokenView>, i: int)
    requires
        toks.len() >= 1,
        toks[toks.len() - 1].kind == TokenVariantView::Eof,
        forall|k: int|
            0 <= k < toks.len() - 1 ==> (#[trigger] toks[k]).kind != TokenVariantView::Eof,
    ensures
        spec_parse(toks, i) matches Ok((e, j)) ==> j == toks.len() - 1 && expr_token_kinds(e)
            == kinds_of(toks.subrange(i, j)),
{
    lemma_parse_consumes(toks, i);
}

#[verifier::rlimit(50)]
proof fn lemma_equality_consumes(toks: Seq<TokenView>, i: int)
    ensures
        consumes_exact(toks, i, spec_equality(toks, i)),
    decreases toks.len() - i, 6int,
{
    lemma_comparison_consumes(toks, i);
    match spec_comparison(toks, i) {
        Ok((left, j)) => {
            if i < j && j <= toks.len() {
                lemma_equality_rest_consumes(toks, left, j);
                if spec_equality_rest(toks, left, j) is Ok {
                    let fin = spec_equality_rest(toks, left, j)->Ok_0;
                    assert(toks.subrange(i, fin.1) =~= toks.subrange(i, j) + toks.subrange(
                        j,
                        fin.1,
                    ));
                    assert(expr_token_kinds(fin.0) =~= kinds_of(toks.subrange(i, fin.1)));
                }
            }
        },
        Err(_) => {},
    }
}

#[verifier::rlimit(50)]
proof fn lemma_equality_rest_consumes(toks: Seq<TokenView>, left: ExprView, j: int)
    requires
        0 <= j <= toks.len(),
    ensures
        rest_consumes(toks, left, j, spec_equality_rest(toks, left, j)),
    decreases toks.len() - j, 6int,
{
    if 0 <= j && j < toks.len() && spec_equality_op(toks[j].kind) is Some {
        let op = spec_equality_op(toks[j].kind)->0;
        lemma_comparison_consumes(toks, j + 1);
        match spec_comparison(toks, j + 1) {
            Ok((right, k)) => {
                let folded = ExprView::Binary(op, Box::new(left), Box::new(right));
                assert(binary_op_token(op) == toks[j].kind);
                assert(expr_token_kinds(folded) =~= expr_token_kinds(left) + kinds_of(
                    toks.subrange(j, k),
                ));
                lemma_equality_rest_consumes(toks, folded, k);
                if spec_equality_rest(toks, folded, k) is Ok {
                    let fin = spec_equality_rest(toks, folded, k)->Ok_0;
                    assert(expr_token_kinds(fin.0) =~= expr_token_kinds(left) + kinds_of(
                        toks.subrange(j, fin.1),
                    ));
                }
            },
            Err(_) => {},
        }
    } else {
        assert(toks.subrange(j, j) =~= Seq::empty());
        assert(expr_token_kinds(left) =~= expr_token_kinds(left) + kinds_of(toks.subrange(j, j)));
    }
}

#[verifier::rlimit(50)]
proof fn lemma_comparison_consumes(toks: Seq<TokenView>, i: int)
    ensures
        consumes_exact(toks, i, spec_comparison(toks, i)),
    decreases toks.len() - i, 5int,
{
    lemma_term_consumes(toks, i);
    match spec_term(toks, i) {
        Ok((left, j)) => {
            if i < j && j <= toks.len() {
                lemma_comparison_rest_consumes(toks, left, j);
                if spec_comparison_rest(toks, left, j) is Ok {
                    let fin = spec_comparison_rest(toks, left, j)->Ok_0;
                    assert(toks.subrange(i, fin.1) =~= toks.subrange(i, j) + toks.subrange(
                        j,
                        fin.1,
                    ));
                    assert(expr_token_kinds(fin.0) =~= kinds_of(toks.subrange(i, fin.1)));
                }
            }
        },
        Err(_) => {},
    }
}

#[verifier::rlimit(50)]
proof fn lemma_comparison_rest_consumes(toks: Seq<TokenView>, left: ExprView, j: int)
    requires
        0 <= j <= toks.len(),
    ensures
        rest_consumes(toks, left, j, spec_comparison_rest(toks, left, j)),
    decreases toks.len() - j, 5int,
{
    if 0 <= j && j < toks.len() && spec_comparison_op(toks[j].kind) is Some {
        let op = spec_comparison_op(toks[j].kind)->0;
        lemma_term_consumes(toks, j + 1);
        match spec_term(toks, j + 1) {
            Ok((right, k)) => {
                let folded = ExprView::Binary(op, Box::new(left), Box::new(right));
                assert(binary_op_token(op) == toks[j].kind);
                assert(expr_token_kinds(folded) =~= expr_token_kinds(left) + kinds_of(
                    toks.subrange(j, k),
                ));
                lemma_comparison_rest_consumes(toks, folded, k);
                if spec_comparison_rest(toks, folded, k) is Ok {
                    let fin = spec_comparison_rest(toks, folded, k)->Ok_0;
                    assert(expr_token_kinds(fin.0) =~= expr_token_kinds(left) + kinds_of(
                        toks.subrange(j, fin.1),
                    ));
                }
            },
            Err(_) => {},
        }
    } else {
        assert(expr_token_kinds(left) =~= expr_token_kinds(left) + kinds_of(toks.subrange(j, j)));
    }
}

#[verifier::rlimit(50)]
proof fn lemma_term_consumes(toks: Seq<TokenView>, i: int)
    ensures
        consumes_exact(toks, i, spec_term(toks, i)),
    decreases toks.len() - i, 4int,
{
    lemma_factor_consumes(toks, i);
    match spec_factor(toks, i) {
        Ok((left, j)) => {
            if i < j && j <= toks.len() {
                lemma_term_rest_consumes(toks, left, j);
                if spec_term_rest(toks, left, j) is Ok {
                    let fin = spec_term_rest(toks, left, j)->Ok_0;
                    assert(toks.subrange(i, fin.1) =~= toks.subrange(i, j) + toks.subrange(
                        j,
                        fin.1,
                    ));
                    assert(expr_token_kinds(fin.0) =~= kinds_of(toks.subrange(i, fin.1)));
                }
            }
        },
        Err(_) => {},
    }
}

#[verifier::rlimit(50)]
proof fn lemma_term_rest_consumes(toks: Seq<TokenView>, left: ExprView, j: int)
    requires
        0 <= j <= toks.len(),
    ensures
        rest_consumes(toks, left, j, spec_term_rest(toks, left, j)),
    decreases toks.len() - j, 4int,
{
    if 0 <= j && j < toks.len() && spec_term_op(toks[j].kind) is Some {
        let op = spec_term_op(toks[j].kind)->0;
        lemma_factor_consumes(toks, j + 1);
        match spec_factor(toks, j + 1) {
            Ok((right, k)) => {
                let folded = ExprView::Binary(op, Box::new(left), Box::new(right));
                assert(binary_op_token(op) == toks[j].kind);
                assert(expr_token_kinds(folded) =~= expr_token_kinds(left) + kinds_of(
                    toks.subrange(j, k),
                ));
                lemma_term_rest_consumes(toks, folded, k);
                if spec_term_rest(toks, folded, k) is Ok {
                    let fin = spec_term_rest(toks, folded, k)->Ok_0;
                    assert(expr_token_kinds(fin.0) =~= expr_token_kinds(left) + kinds_of(
                        toks.subrange(j, fin.1),
                    ));
                }
            },
            Err(_) => {},
        }
    } else {
        assert(expr_token_kinds(left) =~= expr_token_kinds(left) + kinds_of(toks.subrange(j, j)));
    }
}

#[verifier::rlimit(50)]
proof fn lemma_factor_consumes(toks: Seq<TokenView>, i: int)
    ensures
        consumes_exact(toks, i, spec_factor(toks, i)),
    decreases toks.len() - i, 3int,
{
    lemma_unary_consumes(toks, i);
    match spec_unary(toks, i) {
        Ok((left, j)) => {
            if i < j && j <= toks.len() {
                lemma_factor_rest_consumes(toks, left, j);
                if spec_factor_rest(toks, left, j) is Ok {
                    let fin = spec_factor_rest(toks, left, j)->Ok_0;
                    assert(toks.subrange(i, fin.1) =~= toks.subrange(i, j) + toks.subrange(
                        j,
                        fin.1,
                    ));
                    assert(expr_token_kinds(fin.0) =~= kinds_of(toks.subrange(i, fin.1)));
                }
            }
        },
        Err(_) => {},
    }
}

#[verifier::rlimit(50)]
proof fn lemma_factor_rest_consumes(toks: Seq<TokenView>, left: ExprView, j: int)
    requires
        0 <= j <= toks.len(),
    ensures
        rest_consumes(toks, left, j, spec_factor_rest(toks, left, j)),
    decreases toks.len() - j, 3int,
{
    if 0 <= j && j < toks.len() && spec_factor_op(toks[j].kind) is Some {
        let op = spec_factor_op(toks[j].kind)->0;
        lemma_unary_consumes(toks, j + 1);
        match spec_unary(toks, j + 1) {
            Ok((right, k)) => {
                let folded = ExprView::Binary(op, Box::new(left), Box::new(right));
                assert(binary_op_token(op) == toks[j].kind);
                assert(expr_token_kinds(folded) =~= expr_token_kinds(left) + kinds_of(
                    toks.subrange(j, k),
                ));
                lemma_factor_rest_consumes(toks, folded, k);
                if spec_factor_rest(toks, folded, k) is Ok {
                    let fin = spec_factor_rest(toks, folded, k)->Ok_0;
                    assert(expr_token_kinds(fin.0) =~= expr_token_kinds(left) + kinds_of(
                        toks.subrange(j, fin.1),
                    ));
                }
            },
            Err(_) => {},
        }
    } else {
        assert(expr_token_kinds(left) =~= expr_token_kinds(left) + kinds_of(toks.subrange(j, j)));
    }
}

proof fn lemma_unary_consumes(toks: Seq<TokenView>, i: int)
    ensures
        consumes_exact(toks, i, spec_unary(toks, i)),
    decreases toks.len() - i, 2int,
{
    if 0 <= i && i < toks.len() && spec_unary_op(toks[i].kind) is Some {
        let op = spec_unary_op(toks[i].kind)->0;
        lemma_unary_consumes(toks, i + 1);
        match spec_unary(toks, i + 1) {
            Ok((operand, j)) => {
                assert(unary_op_token(op) == toks[i].kind);
                assert(expr_token_kinds(ExprView::Unary(op, Box::new(operand))) =~= kinds_of(
                    toks.subrange(i, j),
                ));
            },
            Err(_) => {},
        }
    } else {
        lemma_primary_consumes(toks, i);
    }
}

proof fn lemma_primary_consumes(toks: Seq<TokenView>, i: int)
    ensures
        consumes_exact(toks, i, spec_primary(toks, i)),
    decreases toks.len() - i, 1int,
{
    if 0 <= i && i < toks.len() {
        if toks[i].kind is LeftParen {
            lemma_parse_consumes(toks, i + 1);
            match spec_expression(toks, i + 1) {
                Ok((inner, j)) => {
                    if 0 <= j && j < toks.len() && toks[j].kind == TokenVariantView::RightParen {
                        assert(expr_token_kinds(ExprView::Grouping(Box::new(inner))) =~= kinds_of(
                            toks.subrange(i, j + 1),
                        ));
                    }
                },
                Err(_) => {},
            }
        } else {
            if spec_primary(toks, i) is Ok {
                let fin = spec_primary(toks, i)->Ok_0;
                assert(toks.subrange(i, i + 1) =~= seq![toks[i]]);
                assert(expr_token_kinds(fin.0) =~= kinds_of(toks.subrange(i, i + 1)));
            }
        }
    }
}

} // verus!
