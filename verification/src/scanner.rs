//! The scanner: turns source text into an ordered sequence of tokens ending in
//! an end-of-input marker, tracking 1-based line numbers, or stops at the
//! first lexical error.
//!
//! The mathematical model is `spec_scan_from`: a recursive function over the
//! source character sequence that classifies the character at the cursor,
//! extracts one lexeme (or skips whitespace and comments), and recurses behind
//! it. `Scanner::scan` is proved to return exactly that function's value.

use vstd::prelude::*;
use vstd::string::StrSliceExecFns;

use crate::errors::{LexError, LexErrorView};
use crate::tokens::{Token, TokenVariant, TokenVariantView, TokenView};

verus! {

// ---------------------------------------------------------------------------
// Character classes (ASCII, as the grammar prescribes).
// ---------------------------------------------------------------------------
pub open spec fn spec_is_digit(c: char) -> bool {
    48 <= c as u32 <= 57
}

pub open spec fn spec_is_alpha(c: char) -> bool {
    (65 <= c as u32 <= 90) || (97 <= c as u32 <= 122)
}

pub open spec fn spec_is_alnum(c: char) -> bool {
    spec_is_digit(c) || spec_is_alpha(c)
}

fn is_digit_char(c: char) -> (r: bool)
    ensures
        r == spec_is_digit(c),
{
    let u = c as u32;
    48 <= u && u <= 57
}

fn is_alpha_char(c: char) -> (r: bool)
    ensures
        r == spec_is_alpha(c),
{
    let u = c as u32;
    (65 <= u && u <= 90) || (97 <= u && u <= 122)
}

fn is_alnum_char(c: char) -> (r: bool)
    ensures
        r == spec_is_alnum(c),
{
    is_digit_char(c) || is_alpha_char(c)
}

// ---------------------------------------------------------------------------
// Lexeme-end positions: each returns the first index at or behind `i` where
// the run it describes stops, and `i` itself where `i` is out of range.
// ---------------------------------------------------------------------------
/// End of a maximal digit run starting at `i`.
pub open spec fn digit_run_end(s: Seq<char>, i: int) -> int
    decreases s.len() - i,
{
    if 0 <= i && i < s.len() && spec_is_digit(s[i]) {
        digit_run_end(s, i + 1)
    } else {
        i
    }
}

/// End of a maximal alphanumeric run starting at `i`.
pub open spec fn ident_run_end(s: Seq<char>, i: int) -> int
    decreases s.len() - i,
{
    if 0 <= i && i < s.len() && spec_is_alnum(s[i]) {
        ident_run_end(s, i + 1)
    } else {
        i
    }
}

/// First index at or behind `i` holding a closing quote, or the length of `s`
/// where none remains.
pub open spec fn string_body_end(s: Seq<char>, i: int) -> int
    decreases s.len() - i,
{
    if 0 <= i && i < s.len() && s[i] != '"' {
        string_body_end(s, i + 1)
    } else {
        i
    }
}

/// First index at or behind `i` holding a newline, or the length of `s`:
/// where a line comment ends (the newline itself is not part of the comment).
pub open spec fn comment_end(s: Seq<char>, i: int) -> int
    decreases s.len() - i,
{
    if 0 <= i && i < s.len() && s[i] != '\n' {
        comment_end(s, i + 1)
    } else {
        i
    }
}

/// How many newline characters `s` holds in the index range `[i, j)`.
pub open spec fn newlines_between(s: Seq<char>, i: int, j: int) -> nat
    decreases j - i,
{
    if 0 <= i && i < j && j <= s.len() {
        (if s[i] == '\n' {
            1nat
        } else {
            0nat
        }) + newlines_between(s, i + 1, j)
    } else {
        0nat
    }
}

proof fn lemma_digit_run_end_bounds(s: Seq<char>, i: int)
    requires
        0 <= i <= s.len(),
    ensures
        i <= digit_run_end(s, i) <= s.len(),
    decreases s.len() - i,
{
    if i < s.len() && spec_is_digit(s[i]) {
        lemma_digit_run_end_bounds(s, i + 1);
    }
}

proof fn lemma_ident_run_end_bounds(s: Seq<char>, i: int)
    requires
        0 <= i <= s.len(),
    ensures
        i <= ident_run_end(s, i) <= s.len(),
    decreases s.len() - i,
{
    if i < s.len() && spec_is_alnum(s[i]) {
        lemma_ident_run_end_bounds(s, i + 1);
    }
}

proof fn lemma_string_body_end_bounds(s: Seq<char>, i: int)
    requires
        0 <= i <= s.len(),
    ensures
        i <= string_body_end(s, i) <= s.len(),
    decreases s.len() - i,
{
    if i < s.len() && s[i] != '"' {
        lemma_string_body_end_bounds(s, i + 1);
    }
}

proof fn lemma_comment_end_bounds(s: Seq<char>, i: int)
    requires
        0 <= i <= s.len(),
    ensures
        i <= comment_end(s, i) <= s.len(),
    decreases s.len() - i,
{
    if i < s.len() && s[i] != '\n' {
        lemma_comment_end_bounds(s, i + 1);
    }
}

// ---------------------------------------------------------------------------
// Keywords.
// ---------------------------------------------------------------------------
/// The fixed keyword table: each of the sixteen reserved spellings maps to its
/// own kind; any other text is an identifier.
pub open spec fn spec_keyword(s: Seq<char>) -> Option<TokenVariantView> {
    if s == "and"@ {
        Some(TokenVariantView::And)
    } else if s == "class"@ {
        Some(TokenVariantView::Class)
    } else if s == "else"@ {
        Some(TokenVariantView::Else)
    } else if s == "false"@ {
        Some(TokenVariantView::False)
    } else if s == "for"@ {
        Some(TokenVariantView::For)
    } else if s == "fun"@ {
        Some(TokenVariantView::Fun)
    } else if s == "if"@ {
        Some(TokenVariantView::If)
    } else if s == "nil"@ {
        Some(TokenVariantView::Nil)
    } else if s == "or"@ {
        Some(TokenVariantView::Or)
    } else if s == "print"@ {
        Some(TokenVariantView::Print)
    } else if s == "return"@ {
        Some(TokenVariantView::Return)
    } else if s == "super"@ {
        Some(TokenVariantView::Super)
    } else if s == "this"@ {
        Some(TokenVariantView::This)
    } else if s == "true"@ {
        Some(TokenVariantView::True)
    } else if s == "var"@ {
        Some(TokenVariantView::Var)
    } else if s == "while"@ {
        Some(TokenVariantView::While)
    } else {
        None
    }
}

/// Character-for-character comparison of two string slices.
fn str_eq(a: &str, b: &str) -> (r: bool)
    ensures
        r == (a@ == b@),
{
    let alen = a.unicode_len();
    let blen = b.unicode_len();
    if alen != blen {
        proof {
            assert(a@ != b@);
        }
        return false;
    }
    let mut i: usize = 0;
    while i < alen
        invariant
            alen == a@.len(),
            alen == b@.len(),
            0 <= i <= alen,
            forall|k: int| 0 <= k < i ==> a@[k] == b@[k],
        decreases alen - i,
    {
        if a.get_char(i) != b.get_char(i) {
            proof {
                assert(a@[i as int] != b@[i as int]);
            }
            return false;
        }
        i = i + 1;
    }
    proof {
        assert(a@ =~= b@);
    }
    true
}

/// Looks the text up in the keyword table.
fn keyword_variant(value: &str) -> (r: Option<TokenVariant>)
    ensures
        match r {
            Some(v) => spec_keyword(value@) == Some(v@),
            None => spec_keyword(value@) is None,
        },
{
    if str_eq(value, "and") {
        Some(TokenVariant::And)
    } else if str_eq(value, "class") {
        Some(TokenVariant::Class)
    } else if str_eq(value, "else") {
        Some(TokenVariant::Else)
    } else if str_eq(value, "false") {
        Some(TokenVariant::False)
    } else if str_eq(value, "for") {
        Some(TokenVariant::For)
    } else if str_eq(value, "fun") {
        Some(TokenVariant::Fun)
    } else if str_eq(value, "if") {
        Some(TokenVariant::If)
    } else if str_eq(value, "nil") {
        Some(TokenVariant::Nil)
    } else if str_eq(value, "or") {
        Some(TokenVariant::Or)
    } else if str_eq(value, "print") {
        Some(TokenVariant::Print)
    } else if str_eq(value, "return") {
        Some(TokenVariant::Return)
    } else if str_eq(value, "super") {
        Some(TokenVariant::Super)
    } else if str_eq(value, "this") {
        Some(TokenVariant::This)
    } else if str_eq(value, "true") {
        Some(TokenVariant::True)
    } else if str_eq(value, "var") {
        Some(TokenVariant::Var)
    } else if str_eq(value, "while") {
        Some(TokenVariant::While)
    } else {
        None
    }
}

// ---------------------------------------------------------------------------
// The scanning function itself, one classification step per recursive call.
// ---------------------------------------------------------------------------
/// The kind of a lexeme of exactly one character, where one exists.
pub open spec fn single_char_kind(c: char) -> Option<TokenVariantView> {
    if c == '(' {
        Some(TokenVariantView::LeftParen)
    } else if c == ')' {
        Some(TokenVariantView::RightParen)
    } else if c == '{' {
        Some(TokenVariantView::LeftBrace)
    } else if c == '}' {
        Some(TokenVariantView::RightBrace)
    } else if c == ',' {
        Some(TokenVariantView::Comma)
    } else if c == '.' {
        Some(TokenVariantView::Dot)
    } else if c == '-' {
        Some(TokenVariantView::Minus)
    } else if c == '+' {
        Some(TokenVariantView::Plus)
    } else if c == ';' {
        Some(TokenVariantView::Semicolon)
    } else if c == '*' {
        Some(TokenVariantView::Star)
    } else {
        None
    }
}

/// The kind of `!`, `=`, `<` or `>` when a `=` follows it.
pub open spec fn with_equal_kind(c: char) -> TokenVariantView {
    if c == '!' {
        TokenVariantView::BangEqual
    } else if c == '=' {
        TokenVariantView::EqualEqual
    } else if c == '<' {
        TokenVariantView::LessEqual
    } else {
        TokenVariantView::GreaterEqual
    }
}

/// The kind of `!`, `=`, `<` or `>` standing alone.
pub open spec fn alone_kind(c: char) -> TokenVariantView {
    if c == '!' {
        TokenVariantView::Bang
    } else if c == '=' {
        TokenVariantView::Equal
    } else if c == '<' {
        TokenVariantView::Less
    } else {
        TokenVariantView::Greater
    }
}

/// End of a number lexeme starting at `i`: a maximal digit run, then one `.`
/// and a further maximal digit run, but only where at least one digit follows
/// the `.`.
pub open spec fn spec_number_end(s: Seq<char>, i: int) -> int {
    let d = digit_run_end(s, i);
    if d + 1 < s.len() && s[d] == '.' && spec_is_digit(s[d + 1]) {
        digit_run_end(s, d + 1)
    } else {
        d
    }
}

/// The token an identifier-or-keyword lexeme with text `text` produces.
pub open spec fn word_kind(text: Seq<char>) -> TokenVariantView {
    match spec_keyword(text) {
        Some(k) => k,
        None => TokenVariantView::Identifier(text),
    }
}

/// Text that exactly matches a reserved word always becomes that keyword's
/// kind, never an identifier; all other word text becomes an identifier
/// carrying the text.
pub proof fn lemma_keyword_recognition(text: Seq<char>)
    ensures
        spec_keyword(text) is Some ==> word_kind(text) == spec_keyword(text)->0 && !(word_kind(
            text,
        ) is Identifier),
        spec_keyword(text) is None ==> word_kind(text) == TokenVariantView::Identifier(text),
{
}

/// Prepends already-scanned tokens to what the rest of the scan produced.
pub open spec fn with_tokens(
    pre: Seq<TokenView>,
    rest: Result<Seq<TokenView>, LexErrorView>,
) -> Result<Seq<TokenView>, LexErrorView> {
    match rest {
        Ok(ts) => Ok(pre + ts),
        Err(e) => Err(e),
    }
}

/// Prepends one token to what the rest of the scan produced.
pub open spec fn with_token(
    t: TokenView,
    rest: Result<Seq<TokenView>, LexErrorView>,
) -> Result<Seq<TokenView>, LexErrorView> {
    with_tokens(seq![t], rest)
}

/// Scans `s` from index `i` with current line number `line`: the sequence of
/// tokens up to and including the end-of-input marker, or the first lexical
/// error. This is the model the executable scanner is proved against.
pub open spec fn spec_scan_from(s: Seq<char>, i: int, line: nat) -> Result<
    Seq<TokenView>,
    LexErrorView,
>
    decreases s.len() - i,
    via spec_scan_from_decreases
{
    if !(0 <= i && i < s.len()) {
        Ok(seq![TokenView { kind: TokenVariantView::Eof, lexeme: Seq::empty(), line }])
    } else {
        let c = s[i];
        if single_char_kind(c) is Some {
            with_token(
                TokenView { kind: single_char_kind(c)->0, lexeme: s.subrange(i, i + 1), line },
                spec_scan_from(s, i + 1, line),
            )
        } else if c == '!' || c == '=' || c == '<' || c == '>' {
            if i + 1 < s.len() && s[i + 1] == '=' {
                with_token(
                    TokenView { kind: with_equal_kind(c), lexeme: s.subrange(i, i + 2), line },
                    spec_scan_from(s, i + 2, line),
                )
            } else {
                with_token(
                    TokenView { kind: alone_kind(c), lexeme: s.subrange(i, i + 1), line },
                    spec_scan_from(s, i + 1, line),
                )
            }
        } else if c == '/' {
            if i + 1 < s.len() && s[i + 1] == '/' {
                spec_scan_from(s, comment_end(s, i + 2), line)
            } else {
                with_token(
                    TokenView {
                        kind: TokenVariantView::Slash,
                        lexeme: s.subrange(i, i + 1),
                        line,
                    },
                    spec_scan_from(s, i + 1, line),
                )
            }
        } else if c == '"' {
            let b = string_body_end(s, i + 1);
            if b >= s.len() {
                Err(
                    LexErrorView::UnterminatedString {
                        line: line + newlines_between(s, i + 1, b),
                    },
                )
            } else {
                with_token(
                    TokenView {
                        kind: TokenVariantView::StringLit(s.subrange(i + 1, b)),
                        lexeme: s.subrange(i, b + 1),
                        line,
                    },
                    spec_scan_from(s, b + 1, line + newlines_between(s, i + 1, b)),
                )
            }
        } else if spec_is_digit(c) {
            let e = spec_number_end(s, i);
            with_token(
                TokenView {
                    kind: TokenVariantView::Number(s.subrange(i, e)),
                    lexeme: s.subrange(i, e),
                    line,
                },
                spec_scan_from(s, e, line),
            )
        } else if spec_is_alpha(c) {
            let e = ident_run_end(s, i);
            with_token(
                TokenView { kind: word_kind(s.subrange(i, e)), lexeme: s.subrange(i, e), line },
                spec_scan_from(s, e, line),
            )
        } else if c == ' ' || c == '\r' || c == '\t' {
            spec_scan_from(s, i + 1, line)
        } else if c == '\n' {
            spec_scan_from(s, i + 1, line + 1)
        } else {
            Err(LexErrorView::UnexpectedCharacter { ch: c, line })
        }
    }
}

#[via_fn]
proof fn spec_scan_from_decreases(s: Seq<char>, i: int, line: nat) {
    if 0 <= i && i < s.len() {
        if i + 2 <= s.len() {
            lemma_comment_end_bounds(s, i + 2);
        }
        lemma_string_body_end_bounds(s, i + 1);
        lemma_digit_run_end_bounds(s, i);
        if spec_is_digit(s[i]) {
            assert(digit_run_end(s, i) == digit_run_end(s, i + 1));
            lemma_digit_run_end_bounds(s, i + 1);
        }
        let d = digit_run_end(s, i);
        if d + 1 <= s.len() {
            lemma_digit_run_end_bounds(s, d + 1);
        }
        lemma_ident_run_end_bounds(s, i);
        if spec_is_alpha(s[i]) {
            assert(ident_run_end(s, i) == ident_run_end(s, i + 1));
            lemma_ident_run_end_bounds(s, i + 1);
        }
    }
}

/// Scans a whole source text: tokens from its start, with line numbers
/// starting at 1.
pub open spec fn spec_scan(s: Seq<char>) -> Result<Seq<TokenView>, LexErrorView> {
    spec_scan_from(s, 0, 1)
}

/// Every successful scan ends in exactly one end-of-input marker: the last
/// token is `Eof` and no earlier token is.
pub proof fn lemma_scan_terminator(s: Seq<char>, i: int, line: nat)
    requires
        0 <= i <= s.len(),
    ensures
        spec_scan_from(s, i, line) matches Ok(ts) ==> ts.len() >= 1 && ts[ts.len() - 1].kind
            == TokenVariantView::Eof && (forall|k: int|
            0 <= k < ts.len() - 1 ==> #[trigger] ts[k].kind != TokenVariantView::Eof),
    decreases s.len() - i,
{
    if 0 <= i && i < s.len() {
        let c = s[i];
        if single_char_kind(c) is Some {
            lemma_scan_terminator(s, i + 1, line);
        } else if c == '!' || c == '=' || c == '<' || c == '>' {
            if i + 1 < s.len() && s[i + 1] == '=' {
                lemma_scan_terminator(s, i + 2, line);
            } else {
                lemma_scan_terminator(s, i + 1, line);
            }
        } else if c == '/' {
            if i + 1 < s.len() && s[i + 1] == '/' {
                lemma_comment_end_bounds(s, i + 2);
                lemma_scan_terminator(s, comment_end(s, i + 2), line);
            } else {
                lemma_scan_terminator(s, i + 1, line);
            }
        } else if c == '"' {
            let b = string_body_end(s, i + 1);
            lemma_string_body_end_bounds(s, i + 1);
            if b < s.len() {
                lemma_scan_terminator(s, b + 1, line + newlines_between(s, i + 1, b));
            }
        } else if spec_is_digit(c) {
            assert(digit_run_end(s, i) == digit_run_end(s, i + 1));
            lemma_digit_run_end_bounds(s, i + 1);
            let d = digit_run_end(s, i);
            if d + 1 < s.len() && s[d] == '.' && spec_is_digit(s[d + 1]) {
                lemma_digit_run_end_bounds(s, d + 1);
            }
            lemma_scan_terminator(s, spec_number_end(s, i), line);
        } else if spec_is_alpha(c) {
            assert(ident_run_end(s, i) == ident_run_end(s, i + 1));
            lemma_ident_run_end_bounds(s, i + 1);
            lemma_scan_terminator(s, ident_run_end(s, i), line);
        } else if c == ' ' || c == '\r' || c == '\t' {
            lemma_scan_terminator(s, i + 1, line);
        } else if c == '\n' {
            lemma_scan_terminator(s, i + 1, line + 1);
        }
    }
}

// ---------------------------------------------------------------------------
// The executable scanner.
// ---------------------------------------------------------------------------
/// The scanner: the source text, the start of the lexeme under construction,
/// the next unread position (in characters, not bytes), and the current line.
pub struct Scanner {
    source: String,
    len: usize,
    start: usize,
    current: usize,
    line: usize,
}

impl Scanner {
    /// The source text being scanned.
    pub closed spec fn src(&self) -> Seq<char> {
        self.source@
    }

    /// The next unread position.
    pub closed spec fn pos(&self) -> int {
        self.current as int
    }

    /// The start of the lexeme under construction.
    pub closed spec fn lexeme_start(&self) -> int {
        self.start as int
    }

    /// The current 1-based line number.
    pub closed spec fn line_no(&self) -> nat {
        self.line as nat
    }

    /// The scanner's internal invariant: cursors stay within the source, and
    /// the line number never exceeds one more than the characters consumed.
    pub closed spec fn wf(&self) -> bool {
        &&& self.len == self.source@.len()
        &&& self.source@.len() < usize::MAX
        &&& self.current <= self.len
        &&& self.start <= self.len
        &&& 1 <= self.line
        &&& self.line <= self.current + 1
    }

    pub fn new(source: String) -> (s: Scanner)
        requires
            source@.len() < usize::MAX,
        ensures
            s.wf(),
            s.src() == source@,
            s.pos() == 0,
            s.lexeme_start() == 0,
            s.line_no() == 1,
    {
        let len = source.as_str().unicode_len();
        Scanner { source, len, start: 0, current: 0, line: 1 }
    }

    /// Whether every character has been read.
    pub fn is_at_end(&self) -> (r: bool)
        requires
            self.wf(),
        ensures
            r == (self.pos() >= self.src().len()),
    {
        self.current >= self.len
    }

    /// Consumes and returns the next character.
    pub fn advance(&mut self) -> (c: char)
        requires
            old(self).wf(),
            old(self).pos() < old(self).src().len(),
        ensures
            final(self).wf(),
            final(self).src() == old(self).src(),
            final(self).pos() == old(self).pos() + 1,
            final(self).lexeme_start() == old(self).lexeme_start(),
            final(self).line_no() == old(self).line_no(),
            c == old(self).src()[old(self).pos()],
    {
        let c = self.source.as_str().get_char(self.current);
        self.current = self.current + 1;
        c
    }

    /// Consumes the next character exactly where it equals `c`.
    pub fn match_char(&mut self, c: char) -> (r: bool)
        requires
            old(self).wf(),
        ensures
            final(self).wf(),
            final(self).src() == old(self).src(),
            final(self).lexeme_start() == old(self).lexeme_start(),
            final(self).line_no() == old(self).line_no(),
            if old(self).pos() < old(self).src().len() && old(self).src()[old(self).pos()] == c {
                r && final(self).pos() == old(self).pos() + 1
            } else {
                !r && final(self).pos() == old(self).pos()
            },
    {
        if self.current < self.len && self.source.as_str().get_char(self.current) == c {
            self.current = self.current + 1;
            true
        } else {
            false
        }
    }

    /// The next unread character, or `'\0'` where none remains.
    pub fn peek(&self) -> (c: char)
        requires
            self.wf(),
        ensures
            c == (if self.pos() < self.src().len() {
                self.src()[self.pos()]
            } else {
                '\0'
            }),
    {
        if self.is_at_end() {
            '\0'
        } else {
            self.source.as_str().get_char(self.current)
        }
    }

    /// The character after the next unread one, or `'\0'` where none remains.
    pub fn peek_next(&self) -> (c: char)
        requires
            self.wf(),
        ensures
            c == (if self.pos() + 1 < self.src().len() {
                self.src()[self.pos() + 1]
            } else {
                '\0'
            }),
    {
        if self.current + 1 >= self.len {
            '\0'
        } else {
            self.source.as_str().get_char(self.current + 1)
        }
    }

    /// A token of the given kind whose lexeme is the text between the lexeme
    /// start and the current position, tagged with the current line.
    pub fn make_token(&self, variant: TokenVariant) -> (r: Option<Token>)
        requires
            self.wf(),
            self.lexeme_start() <= self.pos(),
        ensures
            r matches Some(t) && t@ == (TokenView {
                kind: variant@,
                lexeme: self.src().subrange(self.lexeme_start(), self.pos()),
                line: self.line_no(),
            }),
    {
        let lexeme = self.source.as_str().substring_char(self.start, self.current).to_owned();
        Some(Token::new(variant, lexeme, self.line))
    }

    /// Scans the rest of a string literal, the opening quote already consumed:
    /// the string token, or an unterminated-string error where the input ends
    /// before a closing quote. Embedded newlines advance the line count; the
    /// token carries the line of the opening quote.
    pub fn string(&mut self) -> (r: Result<Token, LexError>)
        requires
            old(self).wf(),
            old(self).pos() == old(self).lexeme_start() + 1,
            old(self).lexeme_start() < old(self).src().len(),
            old(self).src()[old(self).lexeme_start()] == '"',
        ensures
            final(self).wf(),
            final(self).src() == old(self).src(),
            final(self).lexeme_start() == old(self).lexeme_start(),
            ({
                let s = old(self).src();
                let b = string_body_end(s, old(self).pos());
                if b >= s.len() {
                    r matches Err(e) && e@ == (LexErrorView::UnterminatedString {
                        line: old(self).line_no() + newlines_between(s, old(self).pos(), b),
                    })
                } else {
                    r matches Ok(t) && t@ == (TokenView {
                        kind: TokenVariantView::StringLit(s.subrange(old(self).pos(), b)),
                        lexeme: s.subrange(old(self).lexeme_start(), b + 1),
                        line: old(self).line_no(),
                    }) && final(self).pos() == b + 1 && final(self).line_no() == old(
                        self,
                    ).line_no() + newlines_between(s, old(self).pos(), b)
                }
            }),
    {
        let ghost s = self.source@;
        let ghost i1 = self.current as int;
        let ghost b = string_body_end(s, i1);
        let ghost line0 = self.line as nat;
        proof {
            lemma_string_body_end_bounds(s, i1);
        }
        let token_line = self.line;
        loop
            invariant
                self.wf(),
                self.src() == s,
                self.lexeme_start() == i1 - 1,
                i1 <= self.pos() <= b <= s.len(),
                b == string_body_end(s, self.pos()),
                self.line_no() + newlines_between(s, self.pos(), b) == line0 + newlines_between(
                    s,
                    i1,
                    b,
                ),
            ensures
                self.pos() == b,
                self.line_no() == line0 + newlines_between(s, i1, b),
            decreases s.len() - self.pos(),
        {
            if self.is_at_end() {
                break ;
            }
            let c = self.peek();
            if c == '"' {
                break ;
            }
            proof {
                lemma_string_body_end_bounds(s, self.pos() + 1);
            }
            let _ = self.advance();
            if c == '\n' {
                self.line = self.line + 1;
            }
        }
        if self.is_at_end() {
            return Err(LexError::UnterminatedString { line: self.line });
        }
        let _ = self.advance();
        let value = self.source.as_str().substring_char(self.start + 1, self.current - 1).to_owned();
        let lexeme = self.source.as_str().substring_char(self.start, self.current).to_owned();
        Ok(Token::new(TokenVariant::StringLit(value), lexeme, token_line))
    }

    /// Scans the rest of a number literal, its first digit already consumed: a
    /// maximal digit run, and a fractional part only where a `.` is followed
    /// by at least one digit (a bare trailing `.` is left unconsumed).
    pub fn number(&mut self) -> (r: Option<Token>)
        requires
            old(self).wf(),
            old(self).pos() == old(self).lexeme_start() + 1,
            old(self).lexeme_start() < old(self).src().len(),
            spec_is_digit(old(self).src()[old(self).lexeme_start()]),
        ensures
            final(self).wf(),
            final(self).src() == old(self).src(),
            final(self).lexeme_start() == old(self).lexeme_start(),
            final(self).line_no() == old(self).line_no(),
            ({
                let s = old(self).src();
                let i = old(self).lexeme_start();
                let e = spec_number_end(s, i);
                r matches Some(t) && t@ == (TokenView {
                    kind: TokenVariantView::Number(s.subrange(i, e)),
                    lexeme: s.subrange(i, e),
                    line: old(self).line_no(),
                }) && final(self).pos() == e
            }),
    {
        let ghost s = self.source@;
        let ghost i0 = self.start as int;
        proof {
            assert(digit_run_end(s, i0) == digit_run_end(s, i0 + 1));
        }
        loop
            invariant
                self.wf(),
                self.src() == s,
                self.lexeme_start() == i0,
                self.line_no() == old(self).line_no(),
                i0 < self.pos() <= s.len(),
                digit_run_end(s, i0) == digit_run_end(s, self.pos()),
            ensures
                self.pos() == digit_run_end(s, i0),
            decreases s.len() - self.pos(),
        {
            if self.is_at_end() {
                break ;
            }
            if !is_digit_char(self.peek()) {
                break ;
            }
            let _ = self.advance();
        }
        proof {
            assert(self.pos() == digit_run_end(s, i0));
        }
        let ghost d = digit_run_end(s, i0);
        if self.peek() == '.' && is_digit_char(self.peek_next()) {
            let _ = self.advance();
            proof {
                assert(digit_run_end(s, d + 1) == digit_run_end(s, d + 2));
            }
            loop
                invariant
                    self.wf(),
                    self.src() == s,
                    self.lexeme_start() == i0,
                    self.line_no() == old(self).line_no(),
                    d + 1 <= self.pos() <= s.len(),
                    digit_run_end(s, d + 1) == digit_run_end(s, self.pos()),
                ensures
                    self.pos() == digit_run_end(s, d + 1),
                decreases s.len() - self.pos(),
            {
                if self.is_at_end() {
                    break ;
                }
                if !is_digit_char(self.peek()) {
                    break ;
                }
                let _ = self.advance();
            }
            proof {
                assert(self.pos() == digit_run_end(s, d + 1));
            }
        }
        let text = self.source.as_str().substring_char(self.start, self.current).to_owned();
        self.make_token(TokenVariant::Number(text))
    }

    /// Scans the rest of an identifier or keyword, its first letter already
    /// consumed: a maximal alphanumeric run, then a keyword-table lookup.
    pub fn identifier(&mut self) -> (r: Option<Token>)
        requires
            old(self).wf(),
            old(self).pos() == old(self).lexeme_start() + 1,
            old(self).lexeme_start() < old(self).src().len(),
            spec_is_alpha(old(self).src()[old(self).lexeme_start()]),
        ensures
            final(self).wf(),
            final(self).src() == old(self).src(),
            final(self).lexeme_start() == old(self).lexeme_start(),
            final(self).line_no() == old(self).line_no(),
            ({
                let s = old(self).src();
                let i = old(self).lexeme_start();
                let e = ident_run_end(s, i);
                r matches Some(t) && t@ == (TokenView {
                    kind: word_kind(s.subrange(i, e)),
                    lexeme: s.subrange(i, e),
                    line: old(self).line_no(),
                }) && final(self).pos() == e
            }),
    {
        let ghost s = self.source@;
        let ghost i0 = self.start as int;
        proof {
            assert(ident_run_end(s, i0) == ident_run_end(s, i0 + 1));
        }
        loop
            invariant
                self.wf(),
                self.src() == s,
                self.lexeme_start() == i0,
                self.line_no() == old(self).line_no(),
                i0 < self.pos() <= s.len(),
                ident_run_end(s, i0) == ident_run_end(s, self.pos()),
            ensures
                self.pos() == ident_run_end(s, i0),
            decreases s.len() - self.pos(),
        {
            if self.is_at_end() {
                break ;
            }
            if !is_alnum_char(self.peek()) {
                break ;
            }
            let _ = self.advance();
        }
        proof {
            assert(self.pos() == ident_run_end(s, i0));
        }
        let text = self.source.as_str().substring_char(self.start, self.current).to_owned();
        match keyword_variant(text.as_str()) {
            Some(k) => self.make_token(k),
            None => self.make_token(TokenVariant::Identifier(text)),
        }
    }

    /// Classifies the character at the cursor and scans one lexeme: a token,
    /// nothing (whitespace or a comment), or a lexical error. Mirrors one
    /// recursive step of `spec_scan_from`.
    pub fn scan_tokens(&mut self) -> (r: Result<Option<Token>, LexError>)
        requires
            old(self).wf(),
            old(self).lexeme_start() == old(self).pos(),
            old(self).pos() < old(self).src().len(),
        ensures
            final(self).wf(),
            final(self).src() == old(self).src(),
            !(r is Err) ==> final(self).pos() > old(self).pos(),
            ({
                let s = old(self).src();
                let i = old(self).pos();
                let l = old(self).line_no();
                match r {
                    Ok(opt) => match opt {
                        Some(t) => spec_scan_from(s, i, l) == with_token(
                            t@,
                            spec_scan_from(s, final(self).pos(), final(self).line_no()),
                        ),
                        None => spec_scan_from(s, i, l) == spec_scan_from(
                            s,
                            final(self).pos(),
                            final(self).line_no(),
                        ),
                    },
                    Err(e) => spec_scan_from(s, i, l) == Err::<Seq<TokenView>, LexErrorView>(e@),
                }
            }),
    {
        let ghost s = self.source@;
        let ghost i = self.current as int;
        proof {
            if s[i] == '"' {
                lemma_string_body_end_bounds(s, i + 1);
            }
            if spec_is_digit(s[i]) {
                assert(digit_run_end(s, i) == digit_run_end(s, i + 1));
                lemma_digit_run_end_bounds(s, i + 1);
                let d = digit_run_end(s, i);
                if d + 1 <= s.len() {
                    lemma_digit_run_end_bounds(s, d + 1);
                }
            }
            if spec_is_alpha(s[i]) {
                assert(ident_run_end(s, i) == ident_run_end(s, i + 1));
                lemma_ident_run_end_bounds(s, i + 1);
            }
        }
        let c = self.advance();
        match c {
            '(' => Ok(self.make_token(TokenVariant::LeftParen)),
            ')' => Ok(self.make_token(TokenVariant::RightParen)),
            '{' => Ok(self.make_token(TokenVariant::LeftBrace)),
            '}' => Ok(self.make_token(TokenVariant::RightBrace)),
            ',' => Ok(self.make_token(TokenVariant::Comma)),
            '.' => Ok(self.make_token(TokenVariant::Dot)),
            '-' => Ok(self.make_token(TokenVariant::Minus)),
            '+' => Ok(self.make_token(TokenVariant::Plus)),
            ';' => Ok(self.make_token(TokenVariant::Semicolon)),
            '*' => Ok(self.make_token(TokenVariant::Star)),
            '!' => {
                if self.match_char('=') {
                    Ok(self.make_token(TokenVariant::BangEqual))
                } else {
                    Ok(self.make_token(TokenVariant::Bang))
                }
            },
            '=' => {
                if self.match_char('=') {
                    Ok(self.make_token(TokenVariant::EqualEqual))
                } else {
                    Ok(self.make_token(TokenVariant::Equal))
                }
            },
            '<' => {
                if self.match_char('=') {
                    Ok(self.make_token(TokenVariant::LessEqual))
                } else {
                    Ok(self.make_token(TokenVariant::Less))
                }
            },
            '>' => {
                if self.match_char('=') {
                    Ok(self.make_token(TokenVariant::GreaterEqual))
                } else {
                    Ok(self.make_token(TokenVariant::Greater))
                }
            },
            '/' => {
                if self.match_char('/') {
                    let ghost j0 = self.current as int;
                    loop
                        invariant
                            self.wf(),
                            self.src() == s,
                            self.lexeme_start() == i,
                            self.line_no() == old(self).line_no(),
                            j0 <= self.pos() <= s.len(),
                            comment_end(s, j0) == comment_end(s, self.pos()),
                        ensures
                            self.pos() == comment_end(s, j0),
                        decreases s.len() - self.pos(),
                    {
                        if self.is_at_end() {
                            break ;
                        }
                        if self.peek() == '\n' {
                            break ;
                        }
                        let _ = self.advance();
                    }
                    proof {
                        assert(self.pos() == comment_end(s, j0));
                    }
                    Ok(None)
                } else {
                    Ok(self.make_token(TokenVariant::Slash))
                }
            },
            '"' => {
                match self.string() {
                    Ok(t) => Ok(Some(t)),
                    Err(e) => Err(e),
                }
            },
            ' ' | '\r' | '\t' => Ok(None),
            '\n' => {
                self.line = self.line + 1;
                Ok(None)
            },
            _ => {
                if is_digit_char(c) {
                    Ok(self.number())
                } else if is_alpha_char(c) {
                    Ok(self.identifier())
                } else {
                    Err(LexError::UnexpectedCharacter { ch: c, line: self.line })
                }
            },
        }
    }

    /// Scans the whole remaining source: the token sequence ending in the
    /// end-of-input marker, or the first lexical error — exactly the value of
    /// `spec_scan_from` at the scanner's position (of `spec_scan` on a fresh
    /// scanner).
    pub fn scan(&mut self) -> (r: Result<Vec<Token>, LexError>)
        requires
            old(self).wf(),
        ensures
            final(self).wf(),
            final(self).src() == old(self).src(),
            ({
                match spec_scan_from(old(self).src(), old(self).pos(), old(self).line_no()) {
                    Ok(ts) => r matches Ok(v) && v.deep_view() == ts,
                    Err(e) => r matches Err(le) && le@ == e,
                }
            }),
    {
        let ghost s = self.source@;
        let ghost i0 = self.current as int;
        let ghost l0 = self.line as nat;
        let mut tokens: Vec<Token> = Vec::new();
        proof {
            assert(tokens.deep_view() =~= Seq::<TokenView>::empty());
            if spec_scan_from(s, i0, l0) is Ok {
                let ts = spec_scan_from(s, i0, l0)->Ok_0;
                assert(Seq::<TokenView>::empty() + ts =~= ts);
            }
        }
        loop
            invariant
                self.wf(),
                s == old(self).src(),
                i0 == old(self).pos(),
                l0 == old(self).line_no(),
                self.src() == s,
                with_tokens(tokens.deep_view(), spec_scan_from(s, self.pos(), self.line_no()))
                    == spec_scan_from(s, i0, l0),
            ensures
                self.pos() == s.len(),
            decreases s.len() - self.pos(),
        {
            if self.is_at_end() {
                break ;
            }
            self.start = self.current;
            let ghost pre = tokens.deep_view();
            let ghost rest = spec_scan_from(s, self.pos(), self.line_no());
            match self.scan_tokens() {
                Ok(opt) => {
                    let ghost rest2 = spec_scan_from(s, self.pos(), self.line_no());
                    match opt {
                        Some(t) => {
                            tokens.push(t);
                            proof {
                                assert(tokens.deep_view() =~= pre.push(t@));
                                if rest2 is Ok {
                                    let ts = rest2->Ok_0;
                                    assert(pre.push(t@) + ts =~= pre + (seq![t@] + ts));
                                }
                            }
                        },
                        None => {},
                    }
                },
                Err(e) => {
                    return Err(e);
                },
            }
        }
        let eof = Token::new(TokenVariant::Eof, String::new(), self.line);
        let ghost pre = tokens.deep_view();
        tokens.push(eof);
        proof {
            assert(tokens.deep_view() =~= pre.push(eof@));
            assert(eof@ =~= (TokenView {
                kind: TokenVariantView::Eof,
                lexeme: Seq::empty(),
                line: self.line_no(),
            }));
            assert(pre.push(eof@) =~= pre + seq![eof@]);
        }
        Ok(tokens)
    }
}

} // verus!
