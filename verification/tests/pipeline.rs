use lox::error::Error;
use lox::iter::{locate, PeekableLineColIterator};
use lox::run;
use lox::scanner::{filter_comments, Scanner};
use lox::token::{Keyword, LexView, Token, TokenKind};

#[test]
fn run_renders_parsed_expression() {
    let actual = run("(1 + 2.0)").unwrap();
    assert_eq!(actual, "(group (+ 1 2.0))");
}

#[test]
fn run_skips_comments_before_parsing() {
    let actual = run("/* lead */ 1 + /* mid */ 2 // trail").unwrap();
    assert_eq!(actual, "(+ 1 2)");
}

#[test]
fn run_fails_on_unbalanced_parens() {
    let err = run("(1 + 2").unwrap_err();
    assert!(matches!(err, Error::ParseError { .. }));
    assert_eq!(err.render(), "parse error, line 1\n(1 + 2\n------^");
}

#[test]
fn run_locates_parse_errors() {
    let err = run("1 +\n  @").unwrap_err();
    assert!(matches!(
        err,
        Error::ParseError { ref source_line, line_number: 2, column_number: 3 }
            if source_line.as_str() == "  @"
    ));
    assert_eq!(err.render(), "parse error, line 2\n  @\n--^");
}

#[test]
fn run_locates_unterminated_string() {
    let err = run("1 + \"abc").unwrap_err();
    assert!(matches!(
        err,
        Error::UnterminatedString { ref source_line, line_number: 1, column_number: 5 }
            if source_line.as_str() == "1 + \"abc"
    ));
    assert_eq!(err.render(), "unterminated string, line 1\n1 + \"abc\n----^");
}

#[test]
fn whitespace_and_comments_scan_to_comments_only() {
    let source = "  // first\n\t/* a /* nested */ block */ \r\n// last";
    let tokens = Scanner::new(source).tokens();
    assert!(tokens
        .iter()
        .all(|t| matches!(t.kind(), TokenKind::LineComment | TokenKind::BlockComment)));
    let kept = filter_comments(&tokens);
    assert!(kept.is_empty());
}

#[test]
fn bang_equal_scans_as_one_token() {
    let tokens = Scanner::new("!=").tokens();
    assert_eq!(tokens.len(), 1);
    assert_eq!(tokens[0], Token::new_bang_equal(0));
}

#[test]
fn escaped_quote_does_not_split_string() {
    let source = "\"a\\\"b\"";
    let tokens = Scanner::new(source).tokens();
    assert_eq!(tokens.len(), 1);
    assert_eq!(tokens[0], Token::new_string(0, source));
}

#[test]
fn invalid_character_located_at_line_and_column() {
    let source = "ok\nbad@";
    let tokens = Scanner::new(source).tokens();
    let bad = tokens
        .iter()
        .find(|t| matches!(t.kind(), TokenKind::InvalidCharacter))
        .unwrap();
    let (line_number, column_number, source_line) = locate(source, bad.span().start as usize);
    assert_eq!(line_number, 2);
    assert_eq!(column_number, 4);
    assert_eq!(source_line, "bad@");
    let e = Error::InvalidCharacter { source_line, line_number, column_number };
    assert_eq!(e.render(), "invalid character, line 2\nbad@\n---^");
}

#[test]
fn invalid_character_skips_rest_of_line() {
    let tokens = Scanner::new("@ these words are skipped\nok").tokens();
    let kinds: Vec<_> = tokens.iter().map(|t| t.kind()).collect();
    assert_eq!(kinds, vec![TokenKind::InvalidCharacter, TokenKind::Identifier]);
}

#[test]
fn error_cap_stops_scanning() {
    let mut source = String::new();
    for _ in 0..150 {
        source.push_str("@\n");
    }
    let tokens = Scanner::new(&source).tokens();
    assert_eq!(tokens.len(), 100);
    assert!(tokens
        .iter()
        .all(|t| matches!(t.kind(), TokenKind::InvalidCharacter)));
}

#[test]
fn position_tracker_coordinates() {
    let mut it = PeekableLineColIterator::new("ab\ncd");
    assert_eq!(it.line(), 1);
    assert_eq!(it.column(), 0);
    assert_eq!(it.offset(), 0);
    assert_eq!(it.peek(), Some('a'));
    assert_eq!(it.next(), Some('a'));
    assert_eq!((it.line(), it.column(), it.offset()), (1, 1, 1));
    assert_eq!(it.next(), Some('b'));
    assert_eq!(it.next(), Some('\n'));
    assert_eq!((it.line(), it.column(), it.offset()), (2, 0, 3));
    assert_eq!(it.next(), Some('c'));
    assert_eq!((it.line(), it.column(), it.offset()), (2, 1, 4));
    assert_eq!(it.offset(), it.column() + 3);
    assert_eq!(it.next(), Some('d'));
    assert_eq!(it.next(), None);
    assert_eq!(it.peek(), None);
}

#[test]
fn long_lexeme_preview_truncates() {
    let source = "abcdefghij";
    let tokens = Scanner::new(source).tokens();
    assert_eq!(tokens.len(), 1);
    let tok = &tokens[0];
    assert_eq!(tok.lexeme(source), "abcdefghij");
    assert!(matches!(tok.preview(), LexView::Partial("abcdefg")));
    assert_eq!(tok.text(), "abcdefg...");
}

#[test]
fn short_lexeme_preview_is_complete() {
    let source = "abc";
    let tokens = Scanner::new(source).tokens();
    let tok = &tokens[0];
    assert!(matches!(tok.preview(), LexView::Complete("abc")));
    assert_eq!(tok.text(), "abc");
}

#[test]
fn keyword_lookup_is_exact() {
    assert_eq!(Keyword::lookup("and"), Some(Keyword::And));
    assert_eq!(Keyword::lookup("while"), Some(Keyword::While));
    assert_eq!(Keyword::lookup("andor"), None);
    assert_eq!(Keyword::lookup(""), None);
    assert_eq!(Keyword::lookup("And"), None);
}

#[test]
fn filter_comments_keeps_order() {
    let source = "1 /* a */ + // b\n2";
    let tokens = Scanner::new(source).tokens();
    assert_eq!(tokens.len(), 5);
    let kept = filter_comments(&tokens);
    let kinds: Vec<_> = kept.iter().map(|t| t.kind()).collect();
    assert_eq!(kinds, vec![TokenKind::Number, TokenKind::Plus, TokenKind::Number]);
}

#[test]
fn empty_source_scans_to_nothing() {
    assert!(Scanner::new("").tokens().is_empty());
    assert!(Scanner::new(" \t\r\n").tokens().is_empty());
}

#[test]
fn token_equality_is_kind_and_span() {
    let a = Token::new_number(0, "123");
    let b = Token::new(TokenKind::Number, 0, "123");
    assert_eq!(a, b);
    assert_ne!(a, Token::new_number(1, "123"));
    assert_ne!(a, Token::new_identifier(0, "abc"));
    assert_eq!(a.span().start, 0);
    assert_eq!(a.span().end, 3);
    assert!(!a.is_invalid());
    assert!(Token::new_invalid_character(0, "@").is_invalid());
}
