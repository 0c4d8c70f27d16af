//! An alternative diagnostic set kept for callers that fold every syntactic
//! problem into one "invalid syntax" report. It renders in the same
//! structured format as [`crate::error::Error`].

use vstd::prelude::*;

use crate::error::{render_diagnostic, render_parts};

verus! {

/// A coarse diagnostic with its user-facing context.
#[derive(Debug, Clone)]
pub enum LoxError {
    InvalidSyntax { source_line: String, line_number: usize, column_number: usize },
    UnterminatedString { source_line: String, line_number: usize, column_number: usize },
}

impl LoxError {
    /// The error's display name.
    pub open spec fn spec_name(self) -> Seq<char> {
        match self {
            LoxError::InvalidSyntax { .. } => "invalid syntax"@,
            LoxError::UnterminatedString { .. } => "unterminated string"@,
        }
    }

    pub open spec fn spec_source_line(self) -> Seq<char> {
        match self {
            LoxError::InvalidSyntax { source_line, .. } => source_line@,
            LoxError::UnterminatedString { source_line, .. } => source_line@,
        }
    }

    pub open spec fn spec_line_number(self) -> int {
        match self {
            LoxError::InvalidSyntax { line_number, .. } => line_number as int,
            LoxError::UnterminatedString { line_number, .. } => line_number as int,
        }
    }

    pub open spec fn spec_column_number(self) -> int {
        match self {
            LoxError::InvalidSyntax { column_number, .. } => column_number as int,
            LoxError::UnterminatedString { column_number, .. } => column_number as int,
        }
    }

    /// Renders the diagnostic: name and line number, the source line, and a
    /// caret marking the column.
    pub fn render(&self) -> (r: String)
        ensures
            r@ == render_diagnostic(
                self.spec_name(),
                self.spec_line_number(),
                self.spec_source_line(),
                self.spec_column_number(),
            ),
    {
        match self {
            LoxError::InvalidSyntax { source_line, line_number, column_number } => render_parts(
                "invalid syntax",
                *line_number,
                source_line.as_str(),
                *column_number,
            ),
            LoxError::UnterminatedString { source_line, line_number, column_number } => render_parts(
                "unterminated string",
                *line_number,
                source_line.as_str(),
                *column_number,
            ),
        }
    }
}

} // verus!
