use lox::error::Error;
use lox::errors::LoxError;

#[test]
fn invalid_character() {
    let source_line = String::from("class @bad");
    let e = Error::InvalidCharacter {
        source_line,
        line_number: 1,
        column_number: 7,
    };
    let actual = e.render();
    let expected = "invalid character, line 1\nclass @bad\n------^";
    assert_eq!(actual, expected);
}

#[test]
fn invalid_syntax() {
    let source_line = String::from("class @bad");
    let e = LoxError::InvalidSyntax {
        source_line,
        line_number: 1,
        column_number: 7,
    };
    let actual = e.render();
    let expected = "invalid syntax, line 1\nclass @bad\n------^";
    assert_eq!(actual, expected);
}

#[test]
fn unterminated_string_render() {
    let e = Error::UnterminatedString {
        source_line: String::from("var s = \"oops"),
        line_number: 3,
        column_number: 9,
    };
    assert_eq!(e.render(), "unterminated string, line 3\nvar s = \"oops\n--------^");
}

#[test]
fn unterminated_comment_render() {
    let e = Error::UnterminatedComment {
        source_line: String::from("/* open"),
        line_number: 12,
        column_number: 1,
    };
    assert_eq!(e.render(), "unterminated comment, line 12\n/* open\n^");
}

#[test]
fn parse_error_render() {
    let e = Error::ParseError {
        source_line: String::from("1 +"),
        line_number: 10,
        column_number: 3,
    };
    assert_eq!(e.render(), "parse error, line 10\n1 +\n--^");
}

#[test]
fn lox_error_unterminated_string_render() {
    let e = LoxError::UnterminatedString {
        source_line: String::from("\"abc"),
        line_number: 2,
        column_number: 1,
    };
    assert_eq!(e.render(), "unterminated string, line 2\n\"abc\n^");
}

#[test]
fn errors_compare_by_fields() {
    let a = Error::ParseError { source_line: String::new(), line_number: 1, column_number: 1 };
    let b = Error::ParseError { source_line: String::new(), line_number: 1, column_number: 1 };
    let c = Error::ParseError { source_line: String::new(), line_number: 2, column_number: 1 };
    assert_eq!(a, b);
    assert_ne!(a, c);
}
