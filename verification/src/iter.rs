//! Peekable line and column number tracking over the source text.
//!
//! Positions are character indices into the source. The tracker keeps the
//! invariant that the consumed-character count equals the start of the
//! current line plus the current column.

use vstd::prelude::*;

verus! {

/// 1 + the number of newline characters among the first `pos` characters of
/// `s`: the 1-based line number of the character at position `pos`.
pub open spec fn line_num(s: Seq<char>, pos: int) -> int
    decreases pos,
{
    if pos <= 0 {
        1
    } else if s[pos - 1] == '\n' {
        line_num(s, pos - 1) + 1
    } else {
        line_num(s, pos - 1)
    }
}

/// Character index of the start of the line containing position `pos`: the
/// position just after the last newline among the first `pos` characters.
pub open spec fn line_start(s: Seq<char>, pos: int) -> int
    decreases pos,
{
    if pos <= 0 {
        0
    } else if s[pos - 1] == '\n' {
        pos
    } else {
        line_start(s, pos - 1)
    }
}

/// Index of the first newline of `s` at or after position `i`, or the length
/// of `s` when no newline follows.
pub open spec fn line_end(s: Seq<char>, i: int) -> int
    decreases s.len() - i,
{
    if i < 0 || i >= s.len() {
        s.len() as int
    } else if s[i] == '\n' {
        i
    } else {
        line_end(s, i + 1)
    }
}

pub proof fn lemma_position_bounds(s: Seq<char>, pos: int)
    requires
        0 <= pos,
    ensures
        0 <= line_start(s, pos) <= pos,
        1 <= line_num(s, pos) <= pos + 1,
    decreases pos,
{
    if pos > 0 {
        lemma_position_bounds(s, pos - 1);
    }
}

pub proof fn lemma_line_end_bounds(s: Seq<char>, i: int)
    requires
        0 <= i <= s.len(),
    ensures
        i <= line_end(s, i) <= s.len(),
        forall|k: int| i <= k < line_end(s, i) ==> s[k] != '\n',
        line_end(s, i) < s.len() ==> s[line_end(s, i)] == '\n',
    decreases s.len() - i,
{
    if i < s.len() && s[i] != '\n' {
        lemma_line_end_bounds(s, i + 1);
    }
}

/// A character cursor over a source string that tracks the current line,
/// column, and offset while it advances.
#[derive(Debug, Clone, Copy)]
pub struct PeekableLineColIterator<'a> {
    src: &'a str,
    /// Number of characters consumed so far.
    pos: usize,
    /// Index of the current line. Characters in the first line of the input
    /// (before the first newline character) are in line 1.
    line: usize,
    /// Index of the current column. The first character in the input and any
    /// characters immediately following a newline character are in column 1.
    /// The column is 0 immediately after a newline character has been read.
    column: usize,
    /// Character offset of the start of the current line.
    start_of_line: usize,
}

impl<'a> PeekableLineColIterator<'a> {
    pub closed spec fn spec_src(&self) -> Seq<char> {
        self.src@
    }

    pub closed spec fn spec_pos(&self) -> int {
        self.pos as int
    }

    pub closed spec fn spec_line(&self) -> int {
        self.line as int
    }

    pub closed spec fn spec_column(&self) -> int {
        self.column as int
    }

    pub closed spec fn spec_start_of_line(&self) -> int {
        self.start_of_line as int
    }

    /// The tracker's coordinates agree with the source prefix consumed so
    /// far: `line` counts the newlines consumed, `start_of_line` is the
    /// position after the last consumed newline, and the consumed count is
    /// `start_of_line + column`.
    pub open spec fn wf(&self) -> bool {
        &&& 0 <= self.spec_pos() <= self.spec_src().len()
        &&& self.spec_src().len() < usize::MAX
        &&& self.spec_line() == line_num(self.spec_src(), self.spec_pos())
        &&& self.spec_start_of_line() == line_start(self.spec_src(), self.spec_pos())
        &&& self.spec_column() == self.spec_pos() - self.spec_start_of_line()
    }

    pub fn new(source: &'a str) -> (it: Self)
        requires
            source@.len() < usize::MAX,
        ensures
            it.wf(),
            it.spec_src() == source@,
            it.spec_pos() == 0,
    {
        PeekableLineColIterator { src: source, pos: 0, line: 1, column: 0, start_of_line: 0 }
    }

    /// The next character, if any, without advancing.
    pub fn peek(&self) -> (r: Option<char>)
        requires
            self.wf(),
        ensures
            r == (if self.spec_pos() < self.spec_src().len() {
                Some(self.spec_src()[self.spec_pos()])
            } else {
                None::<char>
            }),
    {
        if self.pos < self.src.unicode_len() {
            Some(self.src.get_char(self.pos))
        } else {
            None
        }
    }

    /// Consumes and returns the next character, advancing the line, column
    /// and offset coordinates.
    pub fn next(&mut self) -> (r: Option<char>)
        requires
            old(self).wf(),
        ensures
            final(self).wf(),
            final(self).spec_src() == old(self).spec_src(),
            old(self).spec_pos() < old(self).spec_src().len() ==> {
                &&& r == Some(old(self).spec_src()[old(self).spec_pos()])
                &&& final(self).spec_pos() == old(self).spec_pos() + 1
            },
            old(self).spec_pos() >= old(self).spec_src().len() ==> {
                &&& r is None
                &&& final(self).spec_pos() == old(self).spec_pos()
            },
    {
        if self.pos < self.src.unicode_len() {
            let c = self.src.get_char(self.pos);
            proof {
                lemma_position_bounds(self.src@, self.pos as int);
            }
            self.pos = self.pos + 1;
            if c == '\n' {
                self.start_of_line = self.pos;
                self.line = self.line + 1;
                self.column = 0;
            } else {
                self.column = self.column + 1;
            }
            Some(c)
        } else {
            None
        }
    }

    pub fn line(&self) -> (r: usize)
        ensures
            r == self.spec_line(),
    {
        self.line
    }

    pub fn column(&self) -> (r: usize)
        ensures
            r == self.spec_column(),
    {
        self.column
    }

    /// Offset is the number of characters consumed so far, which equals the
    /// start of the current line plus the current column.
    pub fn offset(&self) -> (r: usize)
        requires
            self.wf(),
        ensures
            r == self.spec_start_of_line() + self.spec_column(),
            r == self.spec_pos(),
    {
        self.start_of_line + self.column
    }

    /// Consumes characters until exactly `target` characters have been
    /// consumed in total.
    pub fn advance_to(&mut self, target: usize)
        requires
            old(self).wf(),
            old(self).spec_pos() <= target <= old(self).spec_src().len(),
        ensures
            final(self).wf(),
            final(self).spec_src() == old(self).spec_src(),
            final(self).spec_pos() == target,
    {
        while self.pos < target
            invariant
                self.wf(),
                self.spec_src() == old(self).spec_src(),
                self.spec_pos() <= target <= self.spec_src().len(),
            decreases target - self.pos,
        {
            self.next();
        }
    }
}

/// Line number (1-based), column number (1-based), and full source line for
/// the character at position `pos` of `source`. At `pos` equal to the length
/// of `source`, the column points just past the last character of the final
/// line.
pub fn locate(source: &str, pos: usize) -> (r: (usize, usize, String))
    requires
        pos <= source@.len(),
        source@.len() < usize::MAX,
    ensures
        r.0 == line_num(source@, pos as int),
        r.1 == pos - line_start(source@, pos as int) + 1,
        r.2@ == source@.subrange(line_start(source@, pos as int), line_end(source@, pos as int)),
{
    let ghost s = source@;
    let mut i: usize = 0;
    let mut line: usize = 1;
    let mut sol: usize = 0;
    while i < pos
        invariant
            0 <= i <= pos,
            pos <= s.len(),
            s.len() < usize::MAX,
            s == source@,
            line == line_num(s, i as int),
            sol == line_start(s, i as int),
        decreases pos - i,
    {
        proof {
            lemma_position_bounds(s, i as int);
        }
        if source.get_char(i) == '\n' {
            line = line + 1;
            sol = i + 1;
        }
        i = i + 1;
    }
    let n = source.unicode_len();
    let mut e: usize = pos;
    while e < n && source.get_char(e) != '\n'
        invariant
            pos <= e <= n,
            n == s.len() < usize::MAX,
            s == source@,
            line_end(s, pos as int) == line_end(s, e as int),
        decreases n - e,
    {
        e = e + 1;
    }
    proof {
        assert(line_end(s, e as int) == e);
        lemma_position_bounds(s, pos as int);
    }
    let text = source.substring_char(sol, e).to_owned();
    (line, pos - sol + 1, text)
}

} // verus!
