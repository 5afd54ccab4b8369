//! The token vocabulary: the closed set of token kinds, and the token record
//! carrying its kind, the exact source substring it was matched from, and the
//! 1-based source line of its first character.

use vstd::prelude::*;

verus! {

/// The closed set of token kinds. Literal-bearing kinds carry their decoded
/// payload: an identifier its name, a string literal its contents (the text
/// strictly between the quotes), and a number literal its exact digit text
/// (digits, optionally one `.` followed by more digits); decoding the digit
/// text into a machine number is left to consumers of the tree.
#[derive(Debug, PartialEq)]
pub enum TokenVariant {
    LeftParen,
    RightParen,
    LeftBrace,
    RightBrace,
    Comma,
    Dot,
    Minus,
    Plus,
    Semicolon,
    Slash,
    Star,
    Bang,
    BangEqual,
    Equal,
    EqualEqual,
    Greater,
    GreaterEqual,
    Less,
    LessEqual,
    Identifier(String),
    StringLit(String),
    Number(String),
    And,
    Class,
    Else,
    False,
    Fun,
    For,
    If,
    Nil,
    Or,
    Print,
    Return,
    Super,
    This,
    True,
    Var,
    While,
    Eof,
}

/// The mathematical model of a token kind: payloads are character sequences.
#[verifier::ext_equal]
pub enum TokenVariantView {
    LeftParen,
    RightParen,
    LeftBrace,
    RightBrace,
    Comma,
    Dot,
    Minus,
    Plus,
    Semicolon,
    Slash,
    Star,
    Bang,
    BangEqual,
    Equal,
    EqualEqual,
    Greater,
    GreaterEqual,
    Less,
    LessEqual,
    Identifier(Seq<char>),
    StringLit(Seq<char>),
    Number(Seq<char>),
    And,
    Class,
    Else,
    False,
    Fun,
    For,
    If,
    Nil,
    Or,
    Print,
    Return,
    Super,
    This,
    True,
    Var,
    While,
    Eof,
}

impl View for TokenVariant {
    type V = TokenVariantView;

    open spec fn view(&self) -> TokenVariantView {
        match self {
            TokenVariant::LeftParen => TokenVariantView::LeftParen,
            TokenVariant::RightParen => TokenVariantView::RightParen,
            TokenVariant::LeftBrace => TokenVariantView::LeftBrace,
            TokenVariant::RightBrace => TokenVariantView::RightBrace,
            TokenVariant::Comma => TokenVariantView::Comma,
            TokenVariant::Dot => TokenVariantView::Dot,
            TokenVariant::Minus => TokenVariantView::Minus,
            TokenVariant::Plus => TokenVariantView::Plus,
            TokenVariant::Semicolon => TokenVariantView::Semicolon,
            TokenVariant::Slash => TokenVariantView::Slash,
            TokenVariant::Star => TokenVariantView::Star,
            TokenVariant::Bang => TokenVariantView::Bang,
            TokenVariant::BangEqual => TokenVariantView::BangEqual,
            TokenVariant::Equal => TokenVariantView::Equal,
            TokenVariant::EqualEqual => TokenVariantView::EqualEqual,
            TokenVariant::Greater => TokenVariantView::Greater,
            TokenVariant::GreaterEqual => TokenVariantView::GreaterEqual,
            TokenVariant::Less => TokenVariantView::Less,
            TokenVariant::LessEqual => TokenVariantView::LessEqual,
            TokenVariant::Identifier(name) => TokenVariantView::Identifier(name@),
            TokenVariant::StringLit(value) => TokenVariantView::StringLit(value@),
            TokenVariant::Number(text) => TokenVariantView::Number(text@),
            TokenVariant::And => TokenVariantView::And,
            TokenVariant::Class => TokenVariantView::Class,
            TokenVariant::Else => TokenVariantView::Else,
            TokenVariant::False => TokenVariantView::False,
            TokenVariant::Fun => TokenVariantView::Fun,
            TokenVariant::For => TokenVariantView::For,
            TokenVariant::If => TokenVariantView::If,
            TokenVariant::Nil => TokenVariantView::Nil,
            TokenVariant::Or => TokenVariantView::Or,
            TokenVariant::Print => TokenVariantView::Print,
            TokenVariant::Return => TokenVariantView::Return,
            TokenVariant::Super => TokenVariantView::Super,
            TokenVariant::This => TokenVariantView::This,
            TokenVariant::True => TokenVariantView::True,
            TokenVariant::Var => TokenVariantView::Var,
            TokenVariant::While => TokenVariantView::While,
            TokenVariant::Eof => TokenVariantView::Eof,
        }
    }
}

impl DeepView for TokenVariant {
    type V = TokenVariantView;

    open spec fn deep_view(&self) -> TokenVariantView {
        self.view()
    }
}

impl TokenVariant {
    /// An owned copy with the same model, written by hand so that verified
    /// code knows the copy equals the original.
    pub fn duplicate(&self) -> (r: TokenVariant)
        ensures
            r@ == self@,
    {
        match self {
            TokenVariant::LeftParen => TokenVariant::LeftParen,
            TokenVariant::RightParen => TokenVariant::RightParen,
            TokenVariant::LeftBrace => TokenVariant::LeftBrace,
            TokenVariant::RightBrace => TokenVariant::RightBrace,
            TokenVariant::Comma => TokenVariant::Comma,
            TokenVariant::Dot => TokenVariant::Dot,
            TokenVariant::Minus => TokenVariant::Minus,
            TokenVariant::Plus => TokenVariant::Plus,
            TokenVariant::Semicolon => TokenVariant::Semicolon,
            TokenVariant::Slash => TokenVariant::Slash,
            TokenVariant::Star => TokenVariant::Star,
            TokenVariant::Bang => TokenVariant::Bang,
            TokenVariant::BangEqual => TokenVariant::BangEqual,
            TokenVariant::Equal => TokenVariant::Equal,
            TokenVariant::EqualEqual => TokenVariant::EqualEqual,
            TokenVariant::Greater => TokenVariant::Greater,
            TokenVariant::GreaterEqual => TokenVariant::GreaterEqual,
            TokenVariant::Less => TokenVariant::Less,
            TokenVariant::LessEqual => TokenVariant::LessEqual,
            TokenVariant::Identifier(name) => TokenVariant::Identifier(name.clone()),
            TokenVariant::StringLit(value) => TokenVariant::StringLit(value.clone()),
            TokenVariant::Number(text) => TokenVariant::Number(text.clone()),
            TokenVariant::And => TokenVariant::And,
            TokenVariant::Class => TokenVariant::Class,
            TokenVariant::Else => TokenVariant::Else,
            TokenVariant::False => TokenVariant::False,
            TokenVariant::Fun => TokenVariant::Fun,
            TokenVariant::For => TokenVariant::For,
            TokenVariant::If => TokenVariant::If,
            TokenVariant::Nil => TokenVariant::Nil,
            TokenVariant::Or => TokenVariant::Or,
            TokenVariant::Print => TokenVariant::Print,
            TokenVariant::Return => TokenVariant::Return,
            TokenVariant::Super => TokenVariant::Super,
            TokenVariant::This => TokenVariant::This,
            TokenVariant::True => TokenVariant::True,
            TokenVariant::Var => TokenVariant::Var,
            TokenVariant::While => TokenVariant::While,
            TokenVariant::Eof => TokenVariant::Eof,
        }
    }
}

/// A token: its kind, the exact source substring matched to produce it, and
/// the 1-based source line of the substring's first character.
#[derive(Debug, PartialEq)]
pub struct Token {
    pub variant: TokenVariant,
    pub lexeme: String,
    pub line: usize,
}

/// The mathematical model of a token.
#[verifier::ext_equal]
pub struct TokenView {
    pub kind: TokenVariantView,
    pub lexeme: Seq<char>,
    pub line: nat,
}

impl View for Token {
    type V = TokenView;

    open spec fn view(&self) -> TokenView {
        TokenView { kind: self.variant@, lexeme: self.lexeme@, line: self.line as nat }
    }
}

impl DeepView for Token {
    type V = TokenView;

    open spec fn deep_view(&self) -> TokenView {
        self.view()
    }
}

impl Token {
    pub fn new(variant: TokenVariant, lexeme: String, line: usize) -> (t: Token)
        ensures
            t@ == (TokenView { kind: variant@, lexeme: lexeme@, line: line as nat }),
    {
        Token { variant, lexeme, line }
    }

    /// An owned copy with the same model.
    pub fn duplicate(&self) -> (t: Token)
        ensures
            t@ == self@,
    {
        Token { variant: self.variant.duplicate(), lexeme: self.lexeme.clone(), line: self.line }
    }
}

} // verus!
