//! The two error kinds of the library: lexical errors from the scanner and
//! parse errors from the parser, both plain values that the caller inspects.

use vstd::prelude::*;
use vstd::string::StringExecFns;

use crate::tokens::{Token, TokenView};

verus! {

// ---------------------------------------------------------------------------
// Decimal rendering of line numbers, so that error text is fully specified.
// ---------------------------------------------------------------------------
/// The character of one decimal digit.
pub open spec fn digit_char(d: nat) -> char {
    if d == 0 {
        '0'
    } else if d == 1 {
        '1'
    } else if d == 2 {
        '2'
    } else if d == 3 {
        '3'
    } else if d == 4 {
        '4'
    } else if d == 5 {
        '5'
    } else if d == 6 {
        '6'
    } else if d == 7 {
        '7'
    } else if d == 8 {
        '8'
    } else {
        '9'
    }
}

/// The decimal spelling of a number, most significant digit first, with no
/// leading zeroes (zero itself spells `0`).
pub open spec fn decimal_digits(n: nat) -> Seq<char>
    decreases n,
{
    if n < 10 {
        seq![digit_char(n)]
    } else {
        decimal_digits(n / 10) + seq![digit_char(n % 10)]
    }
}

fn digit_str(d: usize) -> (r: &'static str)
    requires
        d < 10,
    ensures
        r@ == seq![digit_char(d as nat)],
{
    let r: &'static str = if d == 0 {
        "0"
    } else if d == 1 {
        "1"
    } else if d == 2 {
        "2"
    } else if d == 3 {
        "3"
    } else if d == 4 {
        "4"
    } else if d == 5 {
        "5"
    } else if d == 6 {
        "6"
    } else if d == 7 {
        "7"
    } else if d == 8 {
        "8"
    } else {
        "9"
    };
    proof {
        reveal_strlit("0");
        reveal_strlit("1");
        reveal_strlit("2");
        reveal_strlit("3");
        reveal_strlit("4");
        reveal_strlit("5");
        reveal_strlit("6");
        reveal_strlit("7");
        reveal_strlit("8");
        reveal_strlit("9");
        assert(r@ =~= seq![digit_char(d as nat)]);
    }
    r
}

fn usize_to_decimal(n: usize) -> (s: String)
    ensures
        s@ == decimal_digits(n as nat),
    decreases n,
{
    if n < 10 {
        digit_str(n).to_owned()
    } else {
        let mut s = usize_to_decimal(n / 10);
        s.append(digit_str(n % 10));
        s
    }
}

/// A general error carrying only a message, for drivers that wrap the library.
#[derive(Debug)]
pub struct LoxError {
    message: String,
}

impl View for LoxError {
    type V = Seq<char>;

    closed spec fn view(&self) -> Seq<char> {
        self.message@
    }
}

impl LoxError {
    pub fn new(msg: &str) -> (e: LoxError)
        ensures
            e@ == msg@,
    {
        LoxError { message: msg.to_owned() }
    }

    /// The stored message.
    pub fn message(&self) -> (m: &str)
        ensures
            m@ == self@,
    {
        self.message.as_str()
    }
}

/// A lexical error: an unterminated string literal, or a character that starts
/// no lexeme. Each carries the 1-based source line on which it was found; an
/// unexpected character is carried along.
#[derive(Debug, PartialEq)]
pub enum LexError {
    UnterminatedString { line: usize },
    UnexpectedCharacter { ch: char, line: usize },
}

/// The mathematical model of a lexical error.
#[verifier::ext_equal]
pub enum LexErrorView {
    UnterminatedString { line: nat },
    UnexpectedCharacter { ch: char, line: nat },
}

impl View for LexError {
    type V = LexErrorView;

    open spec fn view(&self) -> LexErrorView {
        match self {
            LexError::UnterminatedString { line } => LexErrorView::UnterminatedString {
                line: *line as nat,
            },
            LexError::UnexpectedCharacter { ch, line } => LexErrorView::UnexpectedCharacter {
                ch: *ch,
                line: *line as nat,
            },
        }
    }
}

impl DeepView for LexError {
    type V = LexErrorView;

    open spec fn deep_view(&self) -> LexErrorView {
        self.view()
    }
}

/// Relies on String::push: appends the given character to the end of the
/// string.
#[verifier::external_body]
fn push_char(s: &mut String, c: char)
    ensures
        final(s)@ == old(s)@.push(c),
{
    s.push(c);
}

/// The message a lexical error reads as.
pub open spec fn spec_lex_error_text(e: LexErrorView) -> Seq<char> {
    match e {
        LexErrorView::UnterminatedString { line } => "Lexical error: Unterminated string at line "@
            + decimal_digits(line),
        LexErrorView::UnexpectedCharacter { ch, line } => "Lexical error: Unexpected character '"@
            + seq![ch] + "' at line "@ + decimal_digits(line),
    }
}

impl LexError {
    /// The error as readable text, with the offending line number.
    pub fn describe(&self) -> (s: String)
        ensures
            s@ == spec_lex_error_text(self@),
    {
        match self {
            LexError::UnterminatedString { line } => {
                let mut s = "Lexical error: Unterminated string at line ".to_owned();
                let line_text = usize_to_decimal(*line);
                s.append(line_text.as_str());
                s
            },
            LexError::UnexpectedCharacter { ch, line } => {
                let mut s = "Lexical error: Unexpected character '".to_owned();
                push_char(&mut s, *ch);
                s.append("' at line ");
                let line_text = usize_to_decimal(*line);
                s.append(line_text.as_str());
                proof {
                    assert(s@ =~= spec_lex_error_text(self@));
                }
                s
            },
        }
    }
}

/// A parse error: the unexpected token that stopped the parser, or `None`
/// where the parser unexpectedly reached the end of the token sequence.
#[derive(Debug, PartialEq)]
pub struct ParserError {
    token: Option<Token>,
}

impl View for ParserError {
    type V = Option<TokenView>;

    closed spec fn view(&self) -> Option<TokenView> {
        match self.token {
            Some(t) => Some(t@),
            None => None,
        }
    }
}

impl ParserError {
    pub fn new(token: Option<Token>) -> (e: ParserError)
        ensures
            e@ == (match token {
                Some(t) => Some(t@),
                None => None::<TokenView>,
            }),
    {
        ParserError { token }
    }

    /// The offending token, or `None` for an unexpected end of input.
    pub fn offending_token(&self) -> (t: &Option<Token>)
        ensures
            self@ == (match t {
                Some(tok) => Some(tok@),
                None => None::<TokenView>,
            }),
    {
        &self.token
    }

    /// The error as readable text: the unexpected token's lexeme and line, or
    /// that the end of the input was reached.
    pub fn describe(&self) -> (s: String)
        ensures
            s@ == spec_parse_error_text(self@),
    {
        match &self.token {
            Some(t) => {
                let mut s = "Parsing error: Unexpected token '".to_owned();
                s.append(t.lexeme.as_str());
                s.append("' at line ");
                let line_text = usize_to_decimal(t.line);
                s.append(line_text.as_str());
                s
            },
            None => "Parsing error: Unexpectedly reached end of file".to_owned(),
        }
    }
}

/// The message a parse error reads as.
pub open spec fn spec_parse_error_text(e: Option<TokenView>) -> Seq<char> {
    match e {
        Some(t) => "Parsing error: Unexpected token '"@ + t.lexeme + "' at line "@ + decimal_digits(
            t.line,
        ),
        None => "Parsing error: Unexpectedly reached end of file"@,
    }
}

} // verus!
