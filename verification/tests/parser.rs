use lox::error::Error;
use lox::expr::Expr;
use lox::parser::{ParseFailKind, Parser};
use lox::scanner::Scanner;
use lox::token::{Token, TokenKind};

#[test]
fn primaries() {
    let literals = vec!["true", "false", "nil", "123", "\"hello\"", "(1 + 2.0)"];
    let tokens = vec![
        vec![Token::new_keyword(0, "true")],
        vec![Token::new_keyword(0, "false")],
        vec![Token::new_keyword(0, "nil")],
        vec![Token::new_number(0, "123")],
        vec![Token::new_string(0, "\"hello\"")],
        vec![
            Token::new_number(1, "1"),
            Token::new_plus(3),
            Token::new_number(5, "2.0"),
        ],
    ];
    let primaries = vec![
        Expr::Literal { value: tokens[0][0].clone() },
        Expr::Literal { value: tokens[1][0].clone() },
        Expr::Literal { value: tokens[2][0].clone() },
        Expr::Literal { value: tokens[3][0].clone() },
        Expr::Literal { value: tokens[4][0].clone() },
        Expr::Grouping {
            expression: Box::new(Expr::Binary {
                left: Box::new(Expr::Literal { value: tokens[5][0].clone() }),
                operator: tokens[5][1].clone(),
                right: Box::new(Expr::Literal { value: tokens[5][2].clone() }),
            }),
        },
    ];
    for (source, expected) in literals.iter().zip(primaries) {
        let scanner = Scanner::new(source);
        let tokens = scanner.tokens();
        let mut parser = Parser::new(&tokens);
        let actual = parser.parse().unwrap();
        assert_eq!(*actual, expected);
    }
}

#[test]
fn primary_unbalanced_parens() {
    let source = "(1 + 2";
    let scanner = Scanner::new(source);
    let tokens = scanner.tokens();
    let mut parser = Parser::new(&tokens);
    parser.parse().unwrap_err();
}

#[test]
fn unclosed_paren_failure_points_past_input() {
    let source = "(1 + 2";
    let tokens = Scanner::new(source).tokens();
    let mut parser = Parser::new(&tokens);
    let failure = parser.parse().unwrap_err();
    assert_eq!(failure.kind, ParseFailKind::Syntax);
    assert_eq!(failure.position, 6);
    let e = failure.to_error(source);
    assert_eq!(e.render(), "parse error, line 1\n(1 + 2\n------^");
}

#[test]
fn failure_at_invalid_character_locates_it() {
    let source = "ok\nbad@";
    let tokens = Scanner::new(source).tokens();
    let bad = tokens
        .iter()
        .position(|t| matches!(t.kind(), TokenKind::InvalidCharacter))
        .unwrap();
    let mut parser = Parser::new(&tokens[bad..]);
    let failure = parser.parse().unwrap_err();
    assert_eq!(failure.kind, ParseFailKind::Syntax);
    assert_eq!(failure.position, 6);
    let e = failure.to_error(source);
    assert!(matches!(
        e,
        Error::ParseError { ref source_line, line_number: 2, column_number: 4 }
            if source_line.as_str() == "bad@"
    ));
    assert_eq!(e.render(), "parse error, line 2\nbad@\n---^");
}

#[test]
fn precedence_multiplication_binds_tighter() {
    let source = "1 + 2 * 3";
    let scanner = Scanner::new(source);
    let tokens = scanner.tokens();
    let mut parser = Parser::new(&tokens);
    let actual = parser.parse().unwrap();
    let expected = Expr::Binary {
        left: Box::new(Expr::Literal { value: Token::new_number(0, "1") }),
        operator: Token::new_plus(2),
        right: Box::new(Expr::Binary {
            left: Box::new(Expr::Literal { value: Token::new_number(4, "2") }),
            operator: Token::new_star(6),
            right: Box::new(Expr::Literal { value: Token::new_number(8, "3") }),
        }),
    };
    assert_eq!(*actual, expected);
    let never = Expr::Binary {
        left: Box::new(Expr::Binary {
            left: Box::new(Expr::Literal { value: Token::new_number(0, "1") }),
            operator: Token::new_plus(2),
            right: Box::new(Expr::Literal { value: Token::new_number(4, "2") }),
        }),
        operator: Token::new_star(6),
        right: Box::new(Expr::Literal { value: Token::new_number(8, "3") }),
    };
    assert_ne!(*actual, never);
}

#[test]
fn display_round_trip() {
    let source = "(1 + 2.0)";
    let scanner = Scanner::new(source);
    let tokens = scanner.tokens();
    let mut parser = Parser::new(&tokens);
    let tree = parser.parse().unwrap();
    assert_eq!(tree.to_text(), "(group (+ 1 2.0))");
}

#[test]
fn unary_display() {
    let source = "!!true";
    let scanner = Scanner::new(source);
    let tokens = scanner.tokens();
    let mut parser = Parser::new(&tokens);
    let tree = parser.parse().unwrap();
    assert_eq!(tree.to_text(), "(! (! true))");
}

#[test]
fn equality_is_left_associative() {
    let source = "1 == 2 != 3";
    let scanner = Scanner::new(source);
    let tokens = scanner.tokens();
    let mut parser = Parser::new(&tokens);
    let tree = parser.parse().unwrap();
    assert_eq!(tree.to_text(), "(!= (== 1 2) 3)");
}

#[test]
fn parse_error_on_bad_primary() {
    let scanner = Scanner::new("+");
    let tokens = scanner.tokens();
    let mut parser = Parser::new(&tokens);
    let failure = parser.parse().unwrap_err();
    assert_eq!(failure.kind, ParseFailKind::Syntax);
    assert_eq!(failure.position, 0);
}

#[test]
fn parse_error_on_empty_input() {
    let tokens: Vec<Token> = Vec::new();
    let mut parser = Parser::new(&tokens);
    let failure = parser.parse().unwrap_err();
    assert_eq!(failure.kind, ParseFailKind::Syntax);
    assert_eq!(failure.position, 0);
}

#[test]
fn unterminated_string_token_fails_parse() {
    let scanner = Scanner::new("\"abc");
    let tokens = scanner.tokens();
    let mut parser = Parser::new(&tokens);
    let failure = parser.parse().unwrap_err();
    assert_eq!(failure.kind, ParseFailKind::UnterminatedString);
    assert_eq!(failure.position, 0);
}

#[test]
fn unterminated_comment_token_fails_parse() {
    let scanner = Scanner::new("/* abc");
    let tokens = scanner.tokens();
    let mut parser = Parser::new(&tokens);
    let failure = parser.parse().unwrap_err();
    assert_eq!(failure.kind, ParseFailKind::UnterminatedComment);
    assert_eq!(failure.position, 0);
}

#[test]
fn comment_token_fails_parse() {
    let scanner = Scanner::new("// just a comment");
    let tokens = scanner.tokens();
    let mut parser = Parser::new(&tokens);
    let failure = parser.parse().unwrap_err();
    assert_eq!(failure.kind, ParseFailKind::Syntax);
    assert_eq!(failure.position, 0);
}
