use lox::scanner::Scanner;
use lox::token::{Token, TokenKind};

#[test]
fn single_and_double_lexemes() {
    let source = "!=<=>===({,.-=;*})";
    let scanner = Scanner::new(source);
    let actual: Vec<_> = scanner.tokens().iter().map(|tok| tok.kind()).collect();
    let expected = vec![
        TokenKind::BangEqual,
        TokenKind::LessEqual,
        TokenKind::GreaterEqual,
        TokenKind::EqualEqual,
        TokenKind::LeftParen,
        TokenKind::LeftBrace,
        TokenKind::Comma,
        TokenKind::Dot,
        TokenKind::Minus,
        TokenKind::Equal,
        TokenKind::Semicolon,
        TokenKind::Star,
        TokenKind::RightBrace,
        TokenKind::RightParen,
    ];
    assert_eq!(actual, expected);
}

#[test]
fn line_comment_eof() {
    let source = "// this is a comment line";
    let mut scanner = Scanner::new(source);
    let actual = scanner.next().expect("comment should be a token");
    let expected = Token::new_line_comment(0, source);
    assert_eq!(actual, expected);
}

#[test]
fn line_comment_eol() {
    let source = "var a = 1; // eol comment";
    let scanner = Scanner::new(source);
    let tokens = scanner.tokens();
    let actual = tokens.last().unwrap();
    let expected = Token::new_line_comment(11, &source[11..]);
    assert_eq!(*actual, expected);
}

#[test]
fn line_comment_ends_at_eol() {
    let source = "// eol comment\n";
    let scanner = Scanner::new(source);
    let actual = scanner.tokens();
    let expected = vec![Token::new_line_comment(0, "// eol comment")];
    assert_eq!(actual, expected);
}

#[test]
fn block_comment() {
    let source = "(/* a *block* comment */)";
    let scanner = Scanner::new(source);
    let actual = scanner.tokens();
    let expected = vec![
        Token::new_left_paren(0),
        Token::new_block_comment(1, "/* a *block* comment */"),
        Token::new_right_paren(24),
    ];
    assert_eq!(actual, expected);
}

#[test]
fn unterminated_block_comment() {
    let source = "/* comment *";
    let mut scanner = Scanner::new(source);
    let actual = scanner.next().unwrap();
    let expected = Token::new_unterminated_block_comment(0, source);
    assert_eq!(actual, expected);
}

#[test]
fn nested_block_comment() {
    let source = "/* a /* nested /**block**/*/ /**/** comment */";
    let mut scanner = Scanner::new(source);
    let actual = scanner.next().unwrap();
    let expected = Token::new_block_comment(0, source);
    assert_eq!(actual, expected);
}

#[test]
fn multiline_block_comment() {
    let source = "var t1; /* multiline\nblock\ncomment */ var t2;";
    let scanner = Scanner::new(source);
    let tokens = scanner.tokens();
    assert_eq!(tokens.len(), 7);
    let actual = &tokens[3];
    let expected = &Token::new_block_comment(8, "/* multiline\nblock\ncomment */");
    assert_eq!(actual, expected);
}

#[test]
fn string_literals() {
    let source = r#""string (123) // check""#;
    let mut scanner = Scanner::new(source);
    let actual = scanner.next().unwrap();
    let expected = Token::new_string(0, source);
    assert_eq!(actual, expected);
}

#[test]
fn string_literals_escaped() {
    let source = r#""string \"123\" // check""#;
    let mut scanner = Scanner::new(source);
    let actual = scanner.next().unwrap();
    let expected = Token::new_string(0, source);
    assert_eq!(actual, expected);
}

#[test]
fn multiline_string_literals() {
    let source = "\"this is a\nmulti line\nstring.\"";
    let mut scanner = Scanner::new(source);
    let actual = scanner.next().unwrap();
    let expected = Token::new_string(0, source);
    assert_eq!(actual, expected);
}

#[test]
fn number_literals_valid() {
    let source = "1 2.0 0.3 000.3 0.0003 123 123.123";
    let scanner = Scanner::new(source);
    let tokens = scanner.tokens();
    let actual: Vec<_> = tokens.iter().map(|tok| tok.lexeme(source)).collect();
    let expected = vec!["1", "2.0", "0.3", "000.3", "0.0003", "123", "123.123"];
    assert_eq!(actual, expected);
}

#[test]
fn number_literals_invalid() {
    let scanner = Scanner::new(".123 456. -789");
    let actual = scanner.tokens();
    let expected = vec![
        Token::new_dot(0),
        Token::new_number(1, "123"),
        Token::new_number(5, "456"),
        Token::new_dot(8),
        Token::new_minus(10),
        Token::new_number(11, "789"),
    ];
    assert_eq!(actual, expected);
}

#[test]
fn reserved_keywords() {
    let source = "and class else false fun for if nil or print return super this true var while";
    let words = source.split_whitespace();
    let scanner = Scanner::new(source);
    for (token, word) in scanner.tokens().iter().zip(words) {
        assert!(matches!(token.kind(), TokenKind::Keyword(..)));
        let actual = token.lexeme(&source);
        let expected = word;
        assert_eq!(actual, expected);
    }
}

#[test]
fn identifiers() {
    let source = "_ _test test_T1 test test_TEST a1 _42";
    let scanner = Scanner::new(source);
    let words = source.split_whitespace();
    for (token, word) in scanner.tokens().iter().zip(words) {
        assert!(matches!(token.kind(), TokenKind::Identifier));
        let actual = token.lexeme(source);
        let expected = word;
        assert_eq!(actual, expected);
    }
}

#[test]
fn maximal_munch() {
    let source = "andor _and or_ Or";
    let scanner = Scanner::new(source);
    let words = source.split_whitespace();
    for (token, word) in scanner.tokens().iter().zip(words) {
        assert!(matches!(token.kind(), TokenKind::Identifier));
        let actual = token.lexeme(source);
        let expected = word;
        assert_eq!(actual, expected);
    }
}
