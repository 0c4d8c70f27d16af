//! The error model: a closed set of diagnostic kinds carrying line, column
//! and source-line context, every one rendered in the same structured
//! format — the error name and 1-based line number, the offending source
//! line, and a marker line of dashes with a caret under the 1-based column.

use vstd::prelude::*;

verus! {

/// Decimal digit character for a value below ten.
pub open spec fn digit_char(d: int) -> char {
    if d == 0 {
        '0'
    } else if d == 1 {
        '1'
    } else if d == 2 {
        '2'
    } else if d == 3 {
        '3'
    } else if d == 4 {
        '4'
    } else if d == 5 {
        '5'
    } else if d == 6 {
        '6'
    } else if d == 7 {
        '7'
    } else if d == 8 {
        '8'
    } else {
        '9'
    }
}

/// The decimal representation of a non-negative number, most significant
/// digit first.
pub open spec fn dec_rep(n: int) -> Seq<char>
    decreases n,
{
    if n < 10 {
        seq![digit_char(n)]
    } else {
        dec_rep(n / 10).push(digit_char(n % 10))
    }
}

/// A run of `count` dashes.
pub open spec fn dashes(count: int) -> Seq<char>
    decreases count,
{
    if count <= 0 {
        Seq::empty()
    } else {
        dashes(count - 1).push('-')
    }
}

/// The rendered diagnostic: error name, 1-based line number, the offending
/// source line, and a line of dashes with a caret marking the 1-based
/// column.
pub open spec fn render_diagnostic(
    name: Seq<char>,
    line_number: int,
    source_line: Seq<char>,
    column_number: int,
) -> Seq<char> {
    name + seq![',', ' ', 'l', 'i', 'n', 'e', ' '] + dec_rep(line_number) + seq!['\n']
        + source_line + seq!['\n'] + dashes(column_number - 1) + seq!['^']
}

fn digit_str(d: usize) -> (r: &'static str)
    requires
        d < 10,
    ensures
        r@ == seq![digit_char(d as int)],
{
    let r: &'static str = if d == 0 {
        "0"
    } else if d == 1 {
        "1"
    } else if d == 2 {
        "2"
    } else if d == 3 {
        "3"
    } else if d == 4 {
        "4"
    } else if d == 5 {
        "5"
    } else if d == 6 {
        "6"
    } else if d == 7 {
        "7"
    } else if d == 8 {
        "8"
    } else {
        "9"
    };
    proof {
        reveal_strlit("0");
        reveal_strlit("1");
        reveal_strlit("2");
        reveal_strlit("3");
        reveal_strlit("4");
        reveal_strlit("5");
        reveal_strlit("6");
        reveal_strlit("7");
        reveal_strlit("8");
        reveal_strlit("9");
        assert(r@ =~= seq![digit_char(d as int)]);
    }
    r
}

/// Appends the decimal rendering of `n` to `out`.
fn append_decimal(out: &mut String, n: usize)
    ensures
        final(out)@ == old(out)@ + dec_rep(n as int),
    decreases n,
{
    if n >= 10 {
        append_decimal(out, n / 10);
        out.append(digit_str(n % 10));
        proof {
            assert(final(out)@ =~= old(out)@ + dec_rep(n as int));
        }
    } else {
        out.append(digit_str(n));
        proof {
            assert(final(out)@ =~= old(out)@ + dec_rep(n as int));
        }
    }
}

/// Renders one diagnostic in the common format shared by every error kind.
pub(crate) fn render_parts(
    name: &str,
    line_number: usize,
    source_line: &str,
    column_number: usize,
) -> (r: String)
    ensures
        r@ == render_diagnostic(
            name@,
            line_number as int,
            source_line@,
            column_number as int,
        ),
{
    let mut r = String::from_str(name);
    r.append(", line ");
    append_decimal(&mut r, line_number);
    r.append("\n");
    r.append(source_line);
    r.append("\n");
    let dash_count: usize = if column_number > 0 {
        column_number - 1
    } else {
        0
    };
    let ghost before_dashes = r@;
    let mut i: usize = 0;
    while i < dash_count
        invariant
            i <= dash_count,
            r@ == before_dashes + dashes(i as int),
        decreases dash_count - i,
    {
        r.append("-");
        proof {
            reveal_strlit("-");
            assert(r@ =~= before_dashes + dashes(i + 1));
        }
        i = i + 1;
    }
    r.append("^");
    proof {
        reveal_strlit(", line ");
        reveal_strlit("\n");
        reveal_strlit("^");
        assert(dashes(dash_count as int) == dashes(column_number - 1));
        assert(r@ =~= render_diagnostic(
            name@,
            line_number as int,
            source_line@,
            column_number as int,
        ));
    }
    r
}

/// A parse-time diagnostic with its user-facing context.
#[derive(Debug, Clone)]
pub enum Error {
    InvalidCharacter { source_line: String, line_number: usize, column_number: usize },
    UnterminatedString { source_line: String, line_number: usize, column_number: usize },
    UnterminatedComment { source_line: String, line_number: usize, column_number: usize },
    ParseError { source_line: String, line_number: usize, column_number: usize },
}

impl Error {
    /// The error's display name.
    pub open spec fn spec_name(self) -> Seq<char> {
        match self {
            Error::InvalidCharacter { .. } => "invalid character"@,
            Error::UnterminatedString { .. } => "unterminated string"@,
            Error::UnterminatedComment { .. } => "unterminated comment"@,
            Error::ParseError { .. } => "parse error"@,
        }
    }

    pub open spec fn spec_source_line(self) -> Seq<char> {
        match self {
            Error::InvalidCharacter { source_line, .. } => source_line@,
            Error::UnterminatedString { source_line, .. } => source_line@,
            Error::UnterminatedComment { source_line, .. } => source_line@,
            Error::ParseError { source_line, .. } => source_line@,
        }
    }

    pub open spec fn spec_line_number(self) -> int {
        match self {
            Error::InvalidCharacter { line_number, .. } => line_number as int,
            Error::UnterminatedString { line_number, .. } => line_number as int,
            Error::UnterminatedComment { line_number, .. } => line_number as int,
            Error::ParseError { line_number, .. } => line_number as int,
        }
    }

    pub open spec fn spec_column_number(self) -> int {
        match self {
            Error::InvalidCharacter { column_number, .. } => column_number as int,
            Error::UnterminatedString { column_number, .. } => column_number as int,
            Error::UnterminatedComment { column_number, .. } => column_number as int,
            Error::ParseError { column_number, .. } => column_number as int,
        }
    }

    /// Renders the diagnostic: name and line number, the source line, and a
    /// caret marking the column.
    pub fn render(&self) -> (r: String)
        ensures
            r@ == render_diagnostic(
                self.spec_name(),
                self.spec_line_number(),
                self.spec_source_line(),
                self.spec_column_number(),
            ),
    {
        match self {
            Error::InvalidCharacter { source_line, line_number, column_number } => render_parts(
                "invalid character",
                *line_number,
                source_line.as_str(),
                *column_number,
            ),
            Error::UnterminatedString { source_line, line_number, column_number } => render_parts(
                "unterminated string",
                *line_number,
                source_line.as_str(),
                *column_number,
            ),
            Error::UnterminatedComment { source_line, line_number, column_number } => render_parts(
                "unterminated comment",
                *line_number,
                source_line.as_str(),
                *column_number,
            ),
            Error::ParseError { source_line, line_number, column_number } => render_parts(
                "parse error",
                *line_number,
                source_line.as_str(),
                *column_number,
            ),
        }
    }
}

impl PartialEq for Error {
    fn eq(&self, other: &Self) -> bool {
        match (self, other) {
            (
                Error::InvalidCharacter { source_line: s1, line_number: l1, column_number: c1 },
                Error::InvalidCharacter { source_line: s2, line_number: l2, column_number: c2 },
            ) => s1.eq(s2) && l1 == l2 && c1 == c2,
            (
                Error::UnterminatedString { source_line: s1, line_number: l1, column_number: c1 },
                Error::UnterminatedString { source_line: s2, line_number: l2, column_number: c2 },
            ) => s1.eq(s2) && l1 == l2 && c1 == c2,
            (
                Error::UnterminatedComment { source_line: s1, line_number: l1, column_number: c1 },
                Error::UnterminatedComment { source_line: s2, line_number: l2, column_number: c2 },
            ) => s1.eq(s2) && l1 == l2 && c1 == c2,
            (
                Error::ParseError { source_line: s1, line_number: l1, column_number: c1 },
                Error::ParseError { source_line: s2, line_number: l2, column_number: c2 },
            ) => s1.eq(s2) && l1 == l2 && c1 == c2,
            _ => false,
        }
    }
}

impl vstd::std_specs::cmp::PartialEqSpecImpl for Error {
    open spec fn obeys_eq_spec() -> bool {
        true
    }

    open spec fn eq_spec(&self, other: &Self) -> bool {
        match (*self, *other) {
            (Error::InvalidCharacter { .. }, Error::InvalidCharacter { .. })
            | (Error::UnterminatedString { .. }, Error::UnterminatedString { .. })
            | (Error::UnterminatedComment { .. }, Error::UnterminatedComment { .. })
            | (Error::ParseError { .. }, Error::ParseError { .. }) => {
                &&& self.spec_source_line() == other.spec_source_line()
                &&& self.spec_line_number() == other.spec_line_number()
                &&& self.spec_column_number() == other.spec_column_number()
            },
            _ => false,
        }
    }
}

} // verus!
