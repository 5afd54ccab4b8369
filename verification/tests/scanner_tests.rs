use salal::errors::LexError;
use salal::errors::LoxError;
use salal::scanner::Scanner;
use salal::tokens::Token;
use salal::tokens::TokenVariant;

fn scan_source(src: &str) -> Result<Vec<Token>, LexError> {
    let mut scanner = Scanner::new(src.to_string());
    scanner.scan()
}

fn tok(variant: TokenVariant, lexeme: &str, line: usize) -> Token {
    Token::new(variant, lexeme.to_string(), line)
}

fn eof(line: usize) -> Token {
    Token::new(TokenVariant::Eof, String::new(), line)
}

#[test]
fn empty_source_scans_to_end_of_input_only() {
    let tokens = scan_source("").unwrap();
    assert_eq!(tokens, vec![eof(1)]);
}

#[test]
fn unterminated_string_is_a_lex_error() {
    let result = scan_source("\"abc");
    assert_eq!(result, Err(LexError::UnterminatedString { line: 1 }));
}

#[test]
fn terminated_string_scans_to_one_string_token() {
    let tokens = scan_source("\"abc\"").unwrap();
    assert_eq!(
        tokens,
        vec![
            tok(TokenVariant::StringLit("abc".to_string()), "\"abc\"", 1),
            eof(1),
        ]
    );
}

#[test]
fn string_may_span_lines_and_keeps_its_opening_line() {
    let tokens = scan_source("\"a\nb\"").unwrap();
    assert_eq!(
        tokens,
        vec![
            tok(TokenVariant::StringLit("a\nb".to_string()), "\"a\nb\"", 1),
            eof(2),
        ]
    );
}

#[test]
fn number_with_fraction_scans_to_one_number_token() {
    let tokens = scan_source("123.45").unwrap();
    assert_eq!(
        tokens,
        vec![tok(TokenVariant::Number("123.45".to_string()), "123.45", 1), eof(1)]
    );
}

#[test]
fn bare_trailing_dot_is_not_part_of_the_number() {
    let tokens = scan_source("123.").unwrap();
    assert_eq!(
        tokens,
        vec![
            tok(TokenVariant::Number("123".to_string()), "123", 1),
            tok(TokenVariant::Dot, ".", 1),
            eof(1),
        ]
    );
}

#[test]
fn reserved_words_scan_to_their_own_keyword_tokens() {
    let sources = [
        ("and", TokenVariant::And),
        ("class", TokenVariant::Class),
        ("else", TokenVariant::Else),
        ("false", TokenVariant::False),
        ("for", TokenVariant::For),
        ("fun", TokenVariant::Fun),
        ("if", TokenVariant::If),
        ("nil", TokenVariant::Nil),
        ("or", TokenVariant::Or),
        ("print", TokenVariant::Print),
        ("return", TokenVariant::Return),
        ("super", TokenVariant::Super),
        ("this", TokenVariant::This),
        ("true", TokenVariant::True),
        ("var", TokenVariant::Var),
        ("while", TokenVariant::While),
    ];
    for (text, variant) in sources {
        let tokens = scan_source(text).unwrap();
        assert_eq!(tokens, vec![tok(variant, text, 1), eof(1)], "keyword {}", text);
    }
}

#[test]
fn text_longer_than_a_keyword_is_an_identifier() {
    let tokens = scan_source("forest").unwrap();
    assert_eq!(
        tokens,
        vec![tok(TokenVariant::Identifier("forest".to_string()), "forest", 1), eof(1)]
    );
}

#[test]
fn identifiers_may_contain_but_not_start_with_digits() {
    let tokens = scan_source("a1 1a").unwrap();
    assert_eq!(
        tokens,
        vec![
            tok(TokenVariant::Identifier("a1".to_string()), "a1", 1),
            tok(TokenVariant::Number("1".to_string()), "1", 1),
            tok(TokenVariant::Identifier("a".to_string()), "a", 1),
            eof(1),
        ]
    );
}

#[test]
fn unexpected_character_is_a_lex_error_with_its_line() {
    let result = scan_source("\n#");
    assert_eq!(result, Err(LexError::UnexpectedCharacter { ch: '#', line: 2 }));
}

#[test]
fn single_character_tokens_scan_in_order() {
    let tokens = scan_source("(){},.-+;*/").unwrap();
    let kinds: Vec<TokenVariant> = tokens.into_iter().map(|t| t.variant).collect();
    assert_eq!(
        kinds,
        vec![
            TokenVariant::LeftParen,
            TokenVariant::RightParen,
            TokenVariant::LeftBrace,
            TokenVariant::RightBrace,
            TokenVariant::Comma,
            TokenVariant::Dot,
            TokenVariant::Minus,
            TokenVariant::Plus,
            TokenVariant::Semicolon,
            TokenVariant::Star,
            TokenVariant::Slash,
            TokenVariant::Eof,
        ]
    );
}

#[test]
fn one_and_two_character_operators_are_told_apart() {
    let tokens = scan_source("! != = == < <= > >=").unwrap();
    let kinds: Vec<TokenVariant> = tokens.into_iter().map(|t| t.variant).collect();
    assert_eq!(
        kinds,
        vec![
            TokenVariant::Bang,
            TokenVariant::BangEqual,
            TokenVariant::Equal,
            TokenVariant::EqualEqual,
            TokenVariant::Less,
            TokenVariant::LessEqual,
            TokenVariant::Greater,
            TokenVariant::GreaterEqual,
            TokenVariant::Eof,
        ]
    );
}

#[test]
fn line_comment_runs_to_end_of_line_and_newline_counts() {
    let tokens = scan_source("1 // two three\n2").unwrap();
    assert_eq!(
        tokens,
        vec![
            tok(TokenVariant::Number("1".to_string()), "1", 1),
            tok(TokenVariant::Number("2".to_string()), "2", 2),
            eof(2),
        ]
    );
}

#[test]
fn comment_reaching_end_of_input_scans_to_end_of_input_only() {
    let tokens = scan_source("// just a comment").unwrap();
    assert_eq!(tokens, vec![eof(1)]);
}

#[test]
fn comment_directly_after_a_token_is_skipped() {
    let tokens = scan_source("1//c").unwrap();
    assert_eq!(tokens, vec![tok(TokenVariant::Number("1".to_string()), "1", 1), eof(1)]);
}

#[test]
fn whitespace_is_discarded() {
    let tokens = scan_source(" \r\t").unwrap();
    assert_eq!(tokens, vec![eof(1)]);
}

#[test]
fn scanner_cursor_helpers_read_the_source() {
    let mut scanner = Scanner::new("ab".to_string());
    assert!(!scanner.is_at_end());
    assert_eq!(scanner.peek(), 'a');
    assert_eq!(scanner.peek_next(), 'b');
    assert!(!scanner.match_char('b'));
    assert!(scanner.match_char('a'));
    assert_eq!(scanner.peek(), 'b');
    assert_eq!(scanner.peek_next(), '\0');
    assert_eq!(scanner.advance(), 'b');
    assert!(scanner.is_at_end());
    assert_eq!(scanner.peek(), '\0');
}

#[test]
fn string_scanner_resumes_after_the_opening_quote() {
    let mut scanner = Scanner::new("\"hi\"".to_string());
    let _ = scanner.advance();
    let token = scanner.string().unwrap();
    assert_eq!(token, tok(TokenVariant::StringLit("hi".to_string()), "\"hi\"", 1));
}

#[test]
fn number_scanner_resumes_after_the_first_digit() {
    let mut scanner = Scanner::new("42".to_string());
    let _ = scanner.advance();
    let token = scanner.number().unwrap();
    assert_eq!(token, tok(TokenVariant::Number("42".to_string()), "42", 1));
}

#[test]
fn identifier_scanner_resumes_after_the_first_letter() {
    let mut scanner = Scanner::new("fun".to_string());
    let _ = scanner.advance();
    let token = scanner.identifier().unwrap();
    assert_eq!(token, tok(TokenVariant::Fun, "fun", 1));
}

#[test]
fn lexeme_scanned_in_one_step() {
    let mut scanner = Scanner::new("+".to_string());
    let stepped = scanner.scan_tokens().unwrap();
    assert_eq!(stepped, Some(tok(TokenVariant::Plus, "+", 1)));
}

#[test]
fn unterminated_string_error_text_names_its_line() {
    let error = scan_source("\n\n\"abc").unwrap_err();
    assert_eq!(error.describe(), "Lexical error: Unterminated string at line 3");
}

#[test]
fn unexpected_character_error_text_carries_the_character() {
    let error = scan_source("#").unwrap_err();
    assert_eq!(error.describe(), "Lexical error: Unexpected character '#' at line 1");
}

#[test]
fn error_lines_render_with_several_digits() {
    let source = "\n".repeat(12) + "#";
    let error = scan_source(&source).unwrap_err();
    assert_eq!(error.describe(), "Lexical error: Unexpected character '#' at line 13");
}

#[test]
fn lox_error_keeps_its_message() {
    let error = LoxError::new("boom");
    assert_eq!(error.message(), "boom");
}

#[test]
fn token_duplicate_is_equal_to_the_original() {
    let token = tok(TokenVariant::Identifier("abc".to_string()), "abc", 3);
    assert_eq!(token.duplicate(), token);
}
