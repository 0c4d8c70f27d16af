//! The scanner: converts a source string into a sequence of tokens in one
//! error-tolerant pass. It never aborts on bad input — lexical errors are
//! emitted as ordinary tokens of error kinds and scanning continues.
//!
//! The spec model: `scan_at` gives the kind, span end and resume position of
//! the token starting at a position, and `scan_seq` gives the whole token
//! sequence from a position, whitespace skipped.

use vstd::prelude::*;

use crate::iter::{line_end, lemma_line_end_bounds, PeekableLineColIterator};
use crate::token::{keyword_of, Keyword, Token, TokenKind, TokenModel};

verus! {

/// The maximum number of scan errors to allow before giving up.
pub const MAX_SCAN_ERRORS: u32 = 100;

pub open spec fn is_ws_char(c: char) -> bool {
    c == ' ' || c == '\t' || c == '\r' || c == '\n'
}

pub open spec fn is_digit_char(c: char) -> bool {
    '0' <= c && c <= '9'
}

pub open spec fn is_alpha_char(c: char) -> bool {
    ('a' <= c && c <= 'z') || ('A' <= c && c <= 'Z')
}

pub open spec fn is_ident_start_char(c: char) -> bool {
    c == '_' || is_alpha_char(c)
}

pub open spec fn is_ident_char(c: char) -> bool {
    c == '_' || is_alpha_char(c) || is_digit_char(c)
}

/// First position at or after `i` holding a non-whitespace character, or the
/// length of `s`.
pub open spec fn ws_end(s: Seq<char>, i: int) -> int
    decreases s.len() - i,
{
    if i < 0 || i >= s.len() {
        s.len() as int
    } else if is_ws_char(s[i]) {
        ws_end(s, i + 1)
    } else {
        i
    }
}

/// First position at or after `i` holding a non-digit character, or the
/// length of `s`.
pub open spec fn digits_end(s: Seq<char>, i: int) -> int
    decreases s.len() - i,
{
    if i < 0 || i >= s.len() {
        s.len() as int
    } else if is_digit_char(s[i]) {
        digits_end(s, i + 1)
    } else {
        i
    }
}

/// First position at or after `i` holding a character that cannot continue
/// an identifier, or the length of `s`.
pub open spec fn ident_end(s: Seq<char>, i: int) -> int
    decreases s.len() - i,
{
    if i < 0 || i >= s.len() {
        s.len() as int
    } else if is_ident_char(s[i]) {
        ident_end(s, i + 1)
    } else {
        i
    }
}

pub proof fn lemma_ws_end(s: Seq<char>, i: int)
    requires
        0 <= i <= s.len(),
    ensures
        i <= ws_end(s, i) <= s.len(),
        forall|k: int| i <= k < ws_end(s, i) ==> is_ws_char(s[k]),
        ws_end(s, i) < s.len() ==> !is_ws_char(s[ws_end(s, i)]),
    decreases s.len() - i,
{
    if i < s.len() && is_ws_char(s[i]) {
        lemma_ws_end(s, i + 1);
    }
}

pub proof fn lemma_digits_end(s: Seq<char>, i: int)
    requires
        0 <= i <= s.len(),
    ensures
        i <= digits_end(s, i) <= s.len(),
        forall|k: int| i <= k < digits_end(s, i) ==> is_digit_char(s[k]),
        digits_end(s, i) < s.len() ==> !is_digit_char(s[digits_end(s, i)]),
    decreases s.len() - i,
{
    if i < s.len() && is_digit_char(s[i]) {
        lemma_digits_end(s, i + 1);
    }
}

pub proof fn lemma_ident_end(s: Seq<char>, i: int)
    requires
        0 <= i <= s.len(),
    ensures
        i <= ident_end(s, i) <= s.len(),
        forall|k: int| i <= k < ident_end(s, i) ==> is_ident_char(s[k]),
        ident_end(s, i) < s.len() ==> !is_ident_char(s[ident_end(s, i)]),
    decreases s.len() - i,
{
    if i < s.len() && is_ident_char(s[i]) {
        lemma_ident_end(s, i + 1);
    }
}

/// Position just past the closing quote of a string literal whose body is
/// searched from `i` (the opening quote stands before `i`), or `None` when
/// the literal is unterminated. A quote is escaped — and does not terminate
/// — exactly when the character immediately before it is a backslash.
pub open spec fn string_end(s: Seq<char>, i: int) -> Option<int>
    decreases s.len() - i,
{
    if i < 0 || i >= s.len() {
        None
    } else if s[i] == '"' && s[i - 1] != '\\' {
        Some(i + 1)
    } else {
        string_end(s, i + 1)
    }
}

pub proof fn lemma_string_end(s: Seq<char>, i: int)
    requires
        0 <= i <= s.len(),
    ensures
        string_end(s, i) matches Some(e) ==> i < e <= s.len(),
    decreases s.len() - i,
{
    if i < s.len() && !(s[i] == '"' && s[i - 1] != '\\') {
        lemma_string_end(s, i + 1);
    }
}

/// Position just past the terminator of a block comment scanned from `i` at
/// nesting depth `depth`: each `/*` increments the depth, each `*/`
/// decrements it, and the comment ends when the depth reaches zero. `None`
/// when the input ends first.
pub open spec fn block_end(s: Seq<char>, i: int, depth: nat) -> Option<int>
    decreases s.len() - i,
{
    if depth == 0 {
        Some(i)
    } else if i < 0 || i >= s.len() {
        None
    } else if i + 2 <= s.len() && s[i] == '/' && s[i + 1] == '*' {
        block_end(s, i + 2, depth + 1)
    } else if i + 2 <= s.len() && s[i] == '*' && s[i + 1] == '/' {
        block_end(s, i + 2, (depth - 1) as nat)
    } else {
        block_end(s, i + 1, depth)
    }
}

pub proof fn lemma_block_end(s: Seq<char>, i: int, depth: nat)
    requires
        0 <= i <= s.len(),
        depth > 0,
    ensures
        block_end(s, i, depth) matches Some(e) ==> i < e <= s.len(),
    decreases s.len() - i,
{
    if i < s.len() {
        if i + 2 <= s.len() && s[i] == '/' && s[i + 1] == '*' {
            lemma_block_end(s, i + 2, depth + 1);
        } else if i + 2 <= s.len() && s[i] == '*' && s[i + 1] == '/' {
            if depth > 1 {
                lemma_block_end(s, i + 2, (depth - 1) as nat);
            }
        } else {
            lemma_block_end(s, i + 1, depth);
        }
    }
}

/// What one scan step produces: the kind of the token starting at the given
/// position, the end of its span, and the position where scanning resumes.
pub struct ScanStep {
    pub kind: TokenKind,
    pub end: int,
    pub resume: int,
}

/// The token scanned at position `j` of `s`, by character class: fixed
/// punctuation, greedy one-or-two-character operators, comments (line, and
/// nestable block), string literals with escaped quotes, maximal runs of
/// digits with an optional fraction, maximal identifier/keyword runs, and a
/// one-character invalid token whose recovery skips the rest of the line.
pub open spec fn scan_at(s: Seq<char>, j: int) -> ScanStep
    recommends
        0 <= j < s.len(),
        !is_ws_char(s[j]),
{
    let c = s[j];
    let n = s.len() as int;
    if c == '(' {
        ScanStep { kind: TokenKind::LeftParen, end: j + 1, resume: j + 1 }
    } else if c == ')' {
        ScanStep { kind: TokenKind::RightParen, end: j + 1, resume: j + 1 }
    } else if c == '{' {
        ScanStep { kind: TokenKind::LeftBrace, end: j + 1, resume: j + 1 }
    } else if c == '}' {
        ScanStep { kind: TokenKind::RightBrace, end: j + 1, resume: j + 1 }
    } else if c == ',' {
        ScanStep { kind: TokenKind::Comma, end: j + 1, resume: j + 1 }
    } else if c == '.' {
        ScanStep { kind: TokenKind::Dot, end: j + 1, resume: j + 1 }
    } else if c == '-' {
        ScanStep { kind: TokenKind::Minus, end: j + 1, resume: j + 1 }
    } else if c == '+' {
        ScanStep { kind: TokenKind::Plus, end: j + 1, resume: j + 1 }
    } else if c == ';' {
        ScanStep { kind: TokenKind::Semicolon, end: j + 1, resume: j + 1 }
    } else if c == '*' {
        ScanStep { kind: TokenKind::Star, end: j + 1, resume: j + 1 }
    } else if c == '!' {
        if j + 1 < n && s[j + 1] == '=' {
            ScanStep { kind: TokenKind::BangEqual, end: j + 2, resume: j + 2 }
        } else {
            ScanStep { kind: TokenKind::Bang, end: j + 1, resume: j + 1 }
        }
    } else if c == '=' {
        if j + 1 < n && s[j + 1] == '=' {
            ScanStep { kind: TokenKind::EqualEqual, end: j + 2, resume: j + 2 }
        } else {
            ScanStep { kind: TokenKind::Equal, end: j + 1, resume: j + 1 }
        }
    } else if c == '<' {
        if j + 1 < n && s[j + 1] == '=' {
            ScanStep { kind: TokenKind::LessEqual, end: j + 2, resume: j + 2 }
        } else {
            ScanStep { kind: TokenKind::Less, end: j + 1, resume: j + 1 }
        }
    } else if c == '>' {
        if j + 1 < n && s[j + 1] == '=' {
            ScanStep { kind: TokenKind::GreaterEqual, end: j + 2, resume: j + 2 }
        } else {
            ScanStep { kind: TokenKind::Greater, end: j + 1, resume: j + 1 }
        }
    } else if c == '/' {
        if j + 1 < n && s[j + 1] == '/' {
            let e = line_end(s, j);
            ScanStep { kind: TokenKind::LineComment, end: e, resume: e }
        } else if j + 1 < n && s[j + 1] == '*' {
            match block_end(s, j + 2, 1) {
                Some(e) => ScanStep { kind: TokenKind::BlockComment, end: e, resume: e },
                None => ScanStep { kind: TokenKind::UnterminatedBlockComment, end: n, resume: n },
            }
        } else {
            ScanStep { kind: TokenKind::Slash, end: j + 1, resume: j + 1 }
        }
    } else if c == '"' {
        match string_end(s, j + 1) {
            Some(e) => ScanStep { kind: TokenKind::String, end: e, resume: e },
            None => ScanStep { kind: TokenKind::UnterminatedString, end: n, resume: n },
        }
    } else if is_digit_char(c) {
        let e1 = digits_end(s, j + 1);
        let e = if e1 + 1 < n && s[e1] == '.' && is_digit_char(s[e1 + 1]) {
            digits_end(s, e1 + 1)
        } else {
            e1
        };
        ScanStep { kind: TokenKind::Number, end: e, resume: e }
    } else if is_ident_start_char(c) {
        let e = ident_end(s, j + 1);
        let kind = match keyword_of(s.subrange(j, e)) {
            Some(k) => TokenKind::Keyword(k),
            None => TokenKind::Identifier,
        };
        ScanStep { kind: kind, end: e, resume: e }
    } else {
        ScanStep { kind: TokenKind::InvalidCharacter, end: j + 1, resume: line_end(s, j + 1) }
    }
}

/// A scan step always makes progress: the token is non-empty and scanning
/// resumes at or after its end, within the source.
pub proof fn lemma_scan_at(s: Seq<char>, j: int)
    requires
        0 <= j < s.len(),
    ensures
        j < scan_at(s, j).end <= scan_at(s, j).resume <= s.len(),
{
    let c = s[j];
    let n = s.len() as int;
    if c == '/' {
        if j + 1 < n && s[j + 1] == '/' {
            lemma_line_end_bounds(s, j);
        } else if j + 1 < n && s[j + 1] == '*' {
            lemma_block_end(s, j + 2, 1);
        }
    } else if c == '"' {
        lemma_string_end(s, j + 1);
    } else if is_digit_char(c) {
        lemma_digits_end(s, j + 1);
        let e1 = digits_end(s, j + 1);
        if e1 + 1 < n && s[e1] == '.' && is_digit_char(s[e1 + 1]) {
            lemma_digits_end(s, e1 + 1);
        }
    } else if is_ident_start_char(c) {
        lemma_ident_end(s, j + 1);
    } else {
        lemma_line_end_bounds(s, j + 1);
    }
}

/// The full token sequence scanned from position `i`: the kind and span of
/// each token in source order, whitespace skipped.
pub open spec fn scan_seq(s: Seq<char>, i: int) -> Seq<TokenModel>
    decreases s.len() - i,
    when 0 <= i <= s.len()
    via scan_seq_decreases
{
    let j = ws_end(s, i);
    if j >= s.len() {
        Seq::empty()
    } else {
        let st = scan_at(s, j);
        seq![TokenModel { kind: st.kind, start: j, end: st.end }] + scan_seq(s, st.resume)
    }
}

#[via_fn]
proof fn scan_seq_decreases(s: Seq<char>, i: int) {
    lemma_ws_end(s, i);
    let j = ws_end(s, i);
    if j < s.len() {
        lemma_scan_at(s, j);
    }
}

/// First position at or after `i` holding a non-whitespace character.
fn skip_ws_exec(s: &str, i: usize) -> (r: usize)
    requires
        i <= s@.len(),
    ensures
        r as int == ws_end(s@, i as int),
        i <= r <= s@.len(),
{
    let n = s.unicode_len();
    let mut k: usize = i;
    loop
        invariant
            i <= k <= n,
            n == s@.len(),
            ws_end(s@, i as int) == ws_end(s@, k as int),
        ensures
            i <= k <= n,
            k as int == ws_end(s@, i as int),
        decreases n - k,
    {
        if k >= n {
            break;
        }
        let c = s.get_char(k);
        if !(c == ' ' || c == '\t' || c == '\r' || c == '\n') {
            break;
        }
        k = k + 1;
    }
    k
}

/// First position at or after `i` holding a non-digit character.
fn find_digits_end(s: &str, i: usize) -> (r: usize)
    requires
        i <= s@.len(),
    ensures
        r as int == digits_end(s@, i as int),
        i <= r <= s@.len(),
{
    let n = s.unicode_len();
    let mut k: usize = i;
    loop
        invariant
            i <= k <= n,
            n == s@.len(),
            digits_end(s@, i as int) == digits_end(s@, k as int),
        ensures
            i <= k <= n,
            k as int == digits_end(s@, i as int),
        decreases n - k,
    {
        if k >= n {
            break;
        }
        let c = s.get_char(k);
        if !('0' <= c && c <= '9') {
            break;
        }
        k = k + 1;
    }
    k
}

/// First position at or after `i` holding a character that cannot continue
/// an identifier.
fn find_ident_end(s: &str, i: usize) -> (r: usize)
    requires
        i <= s@.len(),
    ensures
        r as int == ident_end(s@, i as int),
        i <= r <= s@.len(),
{
    let n = s.unicode_len();
    let mut k: usize = i;
    loop
        invariant
            i <= k <= n,
            n == s@.len(),
            ident_end(s@, i as int) == ident_end(s@, k as int),
        ensures
            i <= k <= n,
            k as int == ident_end(s@, i as int),
        decreases n - k,
    {
        if k >= n {
            break;
        }
        let c = s.get_char(k);
        if !(c == '_' || ('a' <= c && c <= 'z') || ('A' <= c && c <= 'Z') || ('0' <= c && c
            <= '9')) {
            break;
        }
        k = k + 1;
    }
    k
}

/// First newline at or after `i`, or the length of `s`.
fn find_line_end(s: &str, i: usize) -> (r: usize)
    requires
        i <= s@.len(),
    ensures
        r as int == line_end(s@, i as int),
        i <= r <= s@.len(),
{
    let n = s.unicode_len();
    let mut k: usize = i;
    loop
        invariant
            i <= k <= n,
            n == s@.len(),
            line_end(s@, i as int) == line_end(s@, k as int),
        ensures
            i <= k <= n,
            k as int == line_end(s@, i as int),
        decreases n - k,
    {
        if k >= n {
            break;
        }
        if s.get_char(k) == '\n' {
            break;
        }
        k = k + 1;
    }
    k
}

/// Position just past the first unescaped quote at or after `i`, or `None`.
fn find_string_end(s: &str, i: usize) -> (r: Option<usize>)
    requires
        1 <= i <= s@.len(),
    ensures
        match r {
            Some(e) => Some(e as int) == string_end(s@, i as int) && i < e <= s@.len(),
            None => string_end(s@, i as int) is None,
        },
{
    let n = s.unicode_len();
    let mut k: usize = i;
    loop
        invariant
            i <= k <= n,
            1 <= i,
            n == s@.len(),
            string_end(s@, i as int) == string_end(s@, k as int),
        ensures
            i <= k <= n,
            string_end(s@, i as int) == string_end(s@, k as int),
            k < n ==> s@[k as int] == '"' && s@[k as int - 1] != '\\',
            k >= n ==> string_end(s@, i as int) is None,
        decreases n - k,
    {
        if k >= n {
            break;
        }
        if s.get_char(k) == '"' && s.get_char(k - 1) != '\\' {
            break;
        }
        k = k + 1;
    }
    if k < n {
        Some(k + 1)
    } else {
        None
    }
}

/// Position just past the terminator of a block comment scanned from `i` at
/// depth 1, or `None` when the input ends first.
fn find_block_end(s: &str, i: usize) -> (r: Option<usize>)
    requires
        i <= s@.len(),
    ensures
        match r {
            Some(e) => Some(e as int) == block_end(s@, i as int, 1) && i < e <= s@.len(),
            None => block_end(s@, i as int, 1) is None,
        },
{
    proof {
        lemma_block_end(s@, i as int, 1);
    }
    let n = s.unicode_len();
    let mut k: usize = i;
    let mut depth: usize = 1;
    loop
        invariant
            i <= k <= n,
            n == s@.len(),
            1 <= depth,
            2 * depth <= k - i + 2,
            block_end(s@, i as int, 1) == block_end(s@, k as int, depth as nat),
        ensures
            match block_end(s@, i as int, 1) {
                Some(e) => k < n && e == k + 2,
                None => k >= n,
            },
        decreases n - k,
    {
        if k >= n {
            proof {
                assert(block_end(s@, k as int, depth as nat) is None);
            }
            break;
        }
        if k + 1 < n {
            let c0 = s.get_char(k);
            let c1 = s.get_char(k + 1);
            if c0 == '/' && c1 == '*' {
                depth = depth + 1;
                k = k + 2;
            } else if c0 == '*' && c1 == '/' {
                if depth == 1 {
                    proof {
                        assert(block_end(s@, k as int, 1nat) == block_end(s@, k + 2, 0nat));
                    }
                    break;
                }
                depth = depth - 1;
                k = k + 2;
            } else {
                k = k + 1;
            }
        } else {
            k = k + 1;
        }
    }
    if k < n {
        Some(k + 2)
    } else {
        None
    }
}

/// The models of a token sequence: kind and span of each token, in order.
pub open spec fn models_of(toks: Seq<Token>) -> Seq<TokenModel> {
    toks.map_values(|t: Token| t.model())
}

/// The longest prefix of `toks` whose invalid-character tokens fit within
/// `budget`: tokens are taken in order, each invalid-character token spends
/// one unit, and the token that would overspend ends the sequence.
pub open spec fn cap_errors(toks: Seq<TokenModel>, budget: int) -> Seq<TokenModel>
    decreases toks.len(),
{
    if toks.len() == 0 {
        Seq::empty()
    } else if toks[0].kind is InvalidCharacter {
        if budget <= 0 {
            Seq::empty()
        } else {
            seq![toks[0]] + cap_errors(toks.drop_first(), budget - 1)
        }
    } else {
        seq![toks[0]] + cap_errors(toks.drop_first(), budget)
    }
}

/// A lazy producer of tokens from a source string. Each token is scanned on
/// demand; re-scanning requires a fresh scanner over the same text.
#[derive(Debug)]
pub struct Scanner<'a> {
    source: &'a str,
    chars: PeekableLineColIterator<'a>,
}

impl<'a> Scanner<'a> {
    pub closed spec fn spec_src(&self) -> Seq<char> {
        self.source@
    }

    pub closed spec fn spec_pos(&self) -> int {
        self.chars.spec_pos()
    }

    pub open spec fn wf(&self) -> bool {
        &&& self.chars_wf()
        &&& 0 <= self.spec_pos() <= self.spec_src().len()
        &&& self.spec_src().len() < u32::MAX
    }

    pub closed spec fn chars_wf(&self) -> bool {
        &&& self.chars.wf()
        &&& self.chars.spec_src() == self.source@
    }

    pub fn new(source: &'a str) -> (sc: Self)
        requires
            source@.len() < u32::MAX,
        ensures
            sc.wf(),
            sc.spec_src() == source@,
            sc.spec_pos() == 0,
    {
        Scanner { source, chars: PeekableLineColIterator::new(source) }
    }

    /// Scans and returns the next token, or `None` when only whitespace
    /// remains. The returned token is exactly what `scan_at` prescribes at
    /// the first non-whitespace position, and the scanner resumes where
    /// `scan_at` prescribes.
    pub fn next(&mut self) -> (r: Option<Token>)
        requires
            old(self).wf(),
        ensures
            final(self).wf(),
            final(self).spec_src() == old(self).spec_src(),
            ({
                let s = old(self).spec_src();
                let j = ws_end(s, old(self).spec_pos());
                match r {
                    None => j >= s.len() && final(self).spec_pos() == s.len(),
                    Some(t) => {
                        let st = scan_at(s, j);
                        &&& j < s.len()
                        &&& t.model() == (TokenModel { kind: st.kind, start: j, end: st.end })
                        &&& t.from_source(s)
                        &&& final(self).spec_pos() == st.resume
                        &&& old(self).spec_pos() <= j < st.resume <= s.len()
                    },
                }
            }),
    {
        let ghost s = self.source@;
        let ghost p0 = self.spec_pos();
        proof {
            lemma_ws_end(s, p0);
        }
        let j = skip_ws_exec(self.source, self.chars.offset());
        let n = self.source.unicode_len();
        if j >= n {
            self.chars.advance_to(n);
            return None;
        }
        proof {
            lemma_scan_at(s, j as int);
        }
        let c = self.source.get_char(j);
        if c == '(' {
            let t = Token::new_left_paren(j);
            proof {
                assert(t.spec_view() =~= s.subrange(j as int, j + 1));
            }
            self.chars.advance_to(j + 1);
            return Some(t);
        }
        if c == ')' {
            let t = Token::new_right_paren(j);
            proof {
                assert(t.spec_view() =~= s.subrange(j as int, j + 1));
            }
            self.chars.advance_to(j + 1);
            return Some(t);
        }
        if c == '{' {
            let t = Token::new_left_brace(j);
            proof {
                assert(t.spec_view() =~= s.subrange(j as int, j + 1));
            }
            self.chars.advance_to(j + 1);
            return Some(t);
        }
        if c == '}' {
            let t = Token::new_right_brace(j);
            proof {
                assert(t.spec_view() =~= s.subrange(j as int, j + 1));
            }
            self.chars.advance_to(j + 1);
            return Some(t);
        }
        if c == ',' {
            let t = Token::new_comma(j);
            proof {
                assert(t.spec_view() =~= s.subrange(j as int, j + 1));
            }
            self.chars.advance_to(j + 1);
            return Some(t);
        }
        if c == '.' {
            let t = Token::new_dot(j);
            proof {
                assert(t.spec_view() =~= s.subrange(j as int, j + 1));
            }
            self.chars.advance_to(j + 1);
            return Some(t);
        }
        if c == '-' {
            let t = Token::new_minus(j);
            proof {
                assert(t.spec_view() =~= s.subrange(j as int, j + 1));
            }
            self.chars.advance_to(j + 1);
            return Some(t);
        }
        if c == '+' {
            let t = Token::new_plus(j);
            proof {
                assert(t.spec_view() =~= s.subrange(j as int, j + 1));
            }
            self.chars.advance_to(j + 1);
            return Some(t);
        }
        if c == ';' {
            let t = Token::new_semicolon(j);
            proof {
                assert(t.spec_view() =~= s.subrange(j as int, j + 1));
            }
            self.chars.advance_to(j + 1);
            return Some(t);
        }
        if c == '*' {
            let t = Token::new_star(j);
            proof {
                assert(t.spec_view() =~= s.subrange(j as int, j + 1));
            }
            self.chars.advance_to(j + 1);
            return Some(t);
        }
        if c == '!' {
            if j + 1 < n && self.source.get_char(j + 1) == '=' {
                let t = Token::new_bang_equal(j);
                proof {
                    assert(t.spec_view() =~= s.subrange(j as int, j + 2));
                }
                self.chars.advance_to(j + 2);
                return Some(t);
            }
            let t = Token::new_bang(j);
            proof {
                assert(t.spec_view() =~= s.subrange(j as int, j + 1));
            }
            self.chars.advance_to(j + 1);
            return Some(t);
        }
        if c == '=' {
            if j + 1 < n && self.source.get_char(j + 1) == '=' {
                let t = Token::new_equal_equal(j);
                proof {
                    assert(t.spec_view() =~= s.subrange(j as int, j + 2));
                }
                self.chars.advance_to(j + 2);
                return Some(t);
            }
            let t = Token::new_equal(j);
            proof {
                assert(t.spec_view() =~= s.subrange(j as int, j + 1));
            }
            self.chars.advance_to(j + 1);
            return Some(t);
        }
        if c == '<' {
            if j + 1 < n && self.source.get_char(j + 1) == '=' {
                let t = Token::new_less_equal(j);
                proof {
                    assert(t.spec_view() =~= s.subrange(j as int, j + 2));
                }
                self.chars.advance_to(j + 2);
                return Some(t);
            }
            let t = Token::new_less(j);
            proof {
                assert(t.spec_view() =~= s.subrange(j as int, j + 1));
            }
            self.chars.advance_to(j + 1);
            return Some(t);
        }
        if c == '>' {
            if j + 1 < n && self.source.get_char(j + 1) == '=' {
                let t = Token::new_greater_equal(j);
                proof {
                    assert(t.spec_view() =~= s.subrange(j as int, j + 2));
                }
                self.chars.advance_to(j + 2);
                return Some(t);
            }
            let t = Token::new_greater(j);
            proof {
                assert(t.spec_view() =~= s.subrange(j as int, j + 1));
            }
            self.chars.advance_to(j + 1);
            return Some(t);
        }
        if c == '/' {
            if j + 1 < n && self.source.get_char(j + 1) == '/' {
                // Line comment: consume to the end of the line, leaving the
                // trailing newline itself for the whitespace skip.
                let e = find_line_end(self.source, j);
                let lex = self.source.substring_char(j, e);
                let t = Token::new_line_comment(j, lex);
                proof {
                    assert(t.spec_view() =~= s.subrange(
                        t.spec_start(),
                        t.spec_start() + t.spec_view_len(),
                    ));
                }
                self.chars.advance_to(e);
                return Some(t);
            }
            if j + 1 < n && self.source.get_char(j + 1) == '*' {
                // Block comment; these nest.
                match find_block_end(self.source, j + 2) {
                    Some(e) => {
                        let lex = self.source.substring_char(j, e);
                        let t = Token::new_block_comment(j, lex);
                        proof {
                            assert(t.spec_view() =~= s.subrange(
                                t.spec_start(),
                                t.spec_start() + t.spec_view_len(),
                            ));
                        }
                        self.chars.advance_to(e);
                        return Some(t);
                    },
                    None => {
                        let lex = self.source.substring_char(j, n);
                        let t = Token::new_unterminated_block_comment(j, lex);
                        proof {
                            assert(t.spec_view() =~= s.subrange(
                                t.spec_start(),
                                t.spec_start() + t.spec_view_len(),
                            ));
                        }
                        self.chars.advance_to(n);
                        return Some(t);
                    },
                }
            }
            let t = Token::new_slash(j);
            proof {
                assert(t.spec_view() =~= s.subrange(j as int, j + 1));
            }
            self.chars.advance_to(j + 1);
            return Some(t);
        }
        if c == '"' {
            // String literal: scan for the next unescaped quote.
            match find_string_end(self.source, j + 1) {
                Some(e) => {
                    let lex = self.source.substring_char(j, e);
                    let t = Token::new_string(j, lex);
                    proof {
                        assert(t.spec_view() =~= s.subrange(
                            t.spec_start(),
                            t.spec_start() + t.spec_view_len(),
                        ));
                    }
                    self.chars.advance_to(e);
                    return Some(t);
                },
                None => {
                    let lex = self.source.substring_char(j, n);
                    let t = Token::new_unterminated_string(j, lex);
                    proof {
                        assert(t.spec_view() =~= s.subrange(
                            t.spec_start(),
                            t.spec_start() + t.spec_view_len(),
                        ));
                    }
                    self.chars.advance_to(n);
                    return Some(t);
                },
            }
        }
        if '0' <= c && c <= '9' {
            // Number literal: a maximal run of digits, then optionally a dot
            // followed by at least one more digit. A trailing dot is left to
            // be scanned as its own token.
            let e1 = find_digits_end(self.source, j + 1);
            let more = if e1 + 1 < n && self.source.get_char(e1) == '.' {
                let d = self.source.get_char(e1 + 1);
                '0' <= d && d <= '9'
            } else {
                false
            };
            let e = if more {
                find_digits_end(self.source, e1 + 1)
            } else {
                e1
            };
            let lex = self.source.substring_char(j, e);
            let t = Token::new_number(j, lex);
            proof {
                assert(t.spec_view() =~= s.subrange(
                    t.spec_start(),
                    t.spec_start() + t.spec_view_len(),
                ));
            }
            self.chars.advance_to(e);
            return Some(t);
        }
        if c == '_' || ('a' <= c && c <= 'z') || ('A' <= c && c <= 'Z') {
            // Reserved words and identifiers: the maximal run wins, and a
            // run that spells a keyword exactly becomes a keyword token.
            let e = find_ident_end(self.source, j + 1);
            let lex = self.source.substring_char(j, e);
            match Keyword::lookup(lex) {
                Some(_) => {
                    let t = Token::new_keyword(j, lex);
                    proof {
                        assert(t.spec_view() =~= s.subrange(
                            t.spec_start(),
                            t.spec_start() + t.spec_view_len(),
                        ));
                    }
                    self.chars.advance_to(e);
                    return Some(t);
                },
                None => {
                    let t = Token::new_identifier(j, lex);
                    proof {
                        assert(t.spec_view() =~= s.subrange(
                            t.spec_start(),
                            t.spec_start() + t.spec_view_len(),
                        ));
                    }
                    self.chars.advance_to(e);
                    return Some(t);
                },
            }
        }
        // Invalid character: emit a one-character token, then skip the
        // remainder of the line before resuming.
        let lex = self.source.substring_char(j, j + 1);
        let t = Token::new_invalid_character(j, lex);
        let e = find_line_end(self.source, j + 1);
        proof {
            assert(t.spec_view() =~= s.subrange(j as int, j + 1));
        }
        self.chars.advance_to(e);
        Some(t)
    }

    /// Walk the source and tokenize: every scanned token in order, stopping
    /// early only when more than `MAX_SCAN_ERRORS` invalid characters have
    /// been seen.
    pub fn tokens(self) -> (r: Vec<Token>)
        requires
            self.wf(),
        ensures
            models_of(r@) == cap_errors(
                scan_seq(self.spec_src(), self.spec_pos()),
                MAX_SCAN_ERRORS as int,
            ),
            forall|k: int| 0 <= k < r@.len() ==> (#[trigger] r@[k]).from_source(self.spec_src()),
    {
        let ghost s = self.spec_src();
        let ghost full = scan_seq(s, self.spec_pos());
        let mut sc = self;
        let mut out: Vec<Token> = Vec::new();
        let mut n_errors: u32 = 0;
        proof {
            assert(models_of(out@) =~= Seq::<TokenModel>::empty());
        }
        loop
            invariant_except_break
                cap_errors(full, MAX_SCAN_ERRORS as int) == models_of(out@) + cap_errors(
                    scan_seq(s, sc.spec_pos()),
                    MAX_SCAN_ERRORS - n_errors,
                ),
            invariant
                sc.wf(),
                sc.spec_src() == s,
                n_errors <= MAX_SCAN_ERRORS,
                forall|k: int| 0 <= k < out@.len() ==> (#[trigger] out@[k]).from_source(s),
            ensures
                models_of(out@) == cap_errors(full, MAX_SCAN_ERRORS as int),
                forall|k: int| 0 <= k < out@.len() ==> (#[trigger] out@[k]).from_source(s),
            decreases s.len() - sc.spec_pos(),
        {
            let ghost p = sc.spec_pos();
            let ghost rem = scan_seq(s, p);
            let ghost budget = MAX_SCAN_ERRORS - n_errors;
            match sc.next() {
                None => {
                    proof {
                        assert(rem =~= Seq::<TokenModel>::empty());
                        assert(models_of(out@) + cap_errors(rem, budget) =~= models_of(out@));
                    }
                    break;
                },
                Some(t) => {
                    let ghost j = ws_end(s, p);
                    let ghost st = scan_at(s, j);
                    let ghost m = TokenModel { kind: st.kind, start: j, end: st.end };
                    proof {
                        assert(rem == seq![m] + scan_seq(s, st.resume));
                        assert(rem[0] == m);
                        assert(rem.drop_first() =~= scan_seq(s, st.resume));
                    }
                    if t.is_invalid() {
                        if n_errors >= MAX_SCAN_ERRORS {
                            proof {
                                assert(cap_errors(rem, budget) =~= Seq::<TokenModel>::empty());
                                assert(models_of(out@) + cap_errors(rem, budget) =~= models_of(
                                    out@,
                                ));
                            }
                            break;
                        }
                        n_errors = n_errors + 1;
                    }
                    proof {
                        let ghost budget2 = MAX_SCAN_ERRORS - n_errors;
                        assert(cap_errors(rem, budget) == seq![m] + cap_errors(
                            rem.drop_first(),
                            budget2,
                        ));
                        assert(models_of(out@.push(t)) =~= models_of(out@).push(m));
                        assert(models_of(out@) + cap_errors(rem, budget) =~= models_of(
                            out@.push(t),
                        ) + cap_errors(scan_seq(s, st.resume), budget2));
                    }
                    out.push(t);
                },
            }
        }
        out
    }
}

/// True of the comment token kinds.
pub open spec fn is_comment_kind(k: TokenKind) -> bool {
    k is LineComment || k is BlockComment
}

/// `toks` with its comment tokens removed, in order.
pub open spec fn without_comments(toks: Seq<Token>) -> Seq<Token>
    decreases toks.len(),
{
    if toks.len() == 0 {
        Seq::empty()
    } else {
        let rest = without_comments(toks.drop_last());
        if is_comment_kind(toks.last().spec_kind()) {
            rest
        } else {
            rest.push(toks.last())
        }
    }
}

/// A source region — from position `i` to the end of `s` — containing only
/// whitespace and complete comments.
pub open spec fn blank_from(s: Seq<char>, i: int) -> bool
    decreases s.len() - i,
    when 0 <= i <= s.len()
    via blank_from_decreases
{
    let j = ws_end(s, i);
    if j >= s.len() {
        true
    } else if j + 1 < s.len() && s[j] == '/' && s[j + 1] == '/' {
        blank_from(s, line_end(s, j))
    } else if j + 1 < s.len() && s[j] == '/' && s[j + 1] == '*' {
        match block_end(s, j + 2, 1) {
            Some(e) => blank_from(s, e),
            None => false,
        }
    } else {
        false
    }
}

#[via_fn]
proof fn blank_from_decreases(s: Seq<char>, i: int) {
    lemma_ws_end(s, i);
    let j = ws_end(s, i);
    if j < s.len() {
        if j + 1 < s.len() && s[j] == '/' && s[j + 1] == '/' {
            lemma_line_end_bounds(s, j + 1);
            assert(line_end(s, j) == line_end(s, j + 1));
        }
        if j + 1 < s.len() && s[j] == '/' && s[j + 1] == '*' {
            lemma_block_end(s, j + 2, 1);
        }
    }
}

/// In a source region of whitespace and comments only, every token the
/// scanner produces is a comment token: ignoring comment-kind tokens, the
/// scanned sequence is empty.
pub proof fn lemma_blank_source_scans_to_comments(s: Seq<char>, i: int)
    requires
        0 <= i <= s.len(),
        blank_from(s, i),
    ensures
        forall|k: int|
            0 <= k < scan_seq(s, i).len() ==> is_comment_kind(
                (#[trigger] scan_seq(s, i)[k]).kind,
            ),
    decreases s.len() - i,
{
    lemma_ws_end(s, i);
    let j = ws_end(s, i);
    if j < s.len() {
        lemma_scan_at(s, j);
        let st = scan_at(s, j);
        let head = TokenModel { kind: st.kind, start: j, end: st.end };
        assert(scan_seq(s, i) == seq![head] + scan_seq(s, st.resume));
        if j + 1 < s.len() && s[j] == '/' && s[j + 1] == '/' {
            lemma_line_end_bounds(s, j + 1);
            assert(line_end(s, j) == line_end(s, j + 1));
            assert(st.kind == TokenKind::LineComment);
            assert(st.resume == line_end(s, j));
            lemma_blank_source_scans_to_comments(s, st.resume);
        } else {
            assert(j + 1 < s.len() && s[j] == '/' && s[j + 1] == '*');
            assert(block_end(s, j + 2, 1) is Some);
            lemma_block_end(s, j + 2, 1);
            assert(st.kind == TokenKind::BlockComment);
            lemma_blank_source_scans_to_comments(s, st.resume);
        }
        assert forall|k: int| 0 <= k < scan_seq(s, i).len() implies is_comment_kind(
            (#[trigger] scan_seq(s, i)[k]).kind,
        ) by {
            if k == 0 {
                assert(scan_seq(s, i)[0] == head);
            } else {
                assert(scan_seq(s, i)[k] == scan_seq(s, st.resume)[k - 1]);
            }
        }
    }
}

/// Maximal munch for identifiers and keywords: the token scanned at an
/// identifier-start character covers the maximal run of identifier
/// characters — the longest match always wins — and is a keyword token
/// exactly when that run spells a keyword.
pub proof fn lemma_identifier_maximal_munch(s: Seq<char>, j: int)
    requires
        0 <= j < s.len(),
        is_ident_start_char(s[j]),
    ensures
        ({
            let st = scan_at(s, j);
            &&& st.end == ident_end(s, j + 1)
            &&& st.resume == st.end
            &&& j < st.end <= s.len()
            &&& forall|k: int| j < k < st.end ==> is_ident_char(s[k])
            &&& (st.end < s.len() ==> !is_ident_char(s[st.end]))
            &&& st.kind == (match keyword_of(s.subrange(j, st.end)) {
                Some(kw) => TokenKind::Keyword(kw),
                None => TokenKind::Identifier,
            })
        }),
{
    lemma_ident_end(s, j + 1);
}

/// Two-character operators are greedy: when `=` follows `!`, `=`, `<` or
/// `>`, the scanner emits the single two-character operator token, never two
/// one-character tokens.
pub proof fn lemma_operator_maximal_munch(s: Seq<char>, j: int)
    requires
        0 <= j,
        j + 1 < s.len(),
        s[j] == '!' || s[j] == '=' || s[j] == '<' || s[j] == '>',
        s[j + 1] == '=',
    ensures
        ({
            let st = scan_at(s, j);
            &&& st.end == j + 2
            &&& st.resume == j + 2
            &&& (s[j] == '!' ==> st.kind == TokenKind::BangEqual)
            &&& (s[j] == '=' ==> st.kind == TokenKind::EqualEqual)
            &&& (s[j] == '<' ==> st.kind == TokenKind::LessEqual)
            &&& (s[j] == '>' ==> st.kind == TokenKind::GreaterEqual)
        }),
{
}

/// A block comment scans as one token: up to the terminator matching its
/// (possibly nested) opener when one exists, else a single
/// unterminated-block-comment token spanning to the end of input, where
/// scanning stops.
pub proof fn lemma_block_comment_single_token(s: Seq<char>, j: int)
    requires
        0 <= j,
        j + 1 < s.len(),
        s[j] == '/',
        s[j + 1] == '*',
    ensures
        ({
            let st = scan_at(s, j);
            match block_end(s, j + 2, 1) {
                Some(e) => {
                    &&& st.kind == TokenKind::BlockComment
                    &&& st.end == e
                    &&& st.resume == e
                    &&& j < e <= s.len()
                },
                None => {
                    &&& st.kind == TokenKind::UnterminatedBlockComment
                    &&& st.end == s.len()
                    &&& st.resume == s.len()
                },
            }
        }),
{
    lemma_block_end(s, j + 2, 1);
}

/// The closing quote of a string literal is the first unescaped quote:
/// every earlier quote in the body is preceded by a backslash, so an escaped
/// quote never ends the token.
pub proof fn lemma_string_escape(s: Seq<char>, i: int)
    requires
        0 <= i <= s.len(),
    ensures
        match string_end(s, i) {
            Some(e) => {
                &&& i < e <= s.len()
                &&& s[e - 1] == '"' && s[e - 2] != '\\'
                &&& forall|q: int| i <= q < e - 1 && (#[trigger] s[q]) == '"' ==> s[q - 1] == '\\'
            },
            None => forall|q: int| i <= q < s.len() && (#[trigger] s[q]) == '"' ==> s[q - 1] == '\\',
        },
    decreases s.len() - i,
{
    if i < s.len() && !(s[i] == '"' && s[i - 1] != '\\') {
        lemma_string_escape(s, i + 1);
    }
}

/// Removes comment tokens from a scanned sequence: the pre-parse step before
/// the tokens are handed to the parser.
pub fn filter_comments(tokens: &[Token]) -> (r: Vec<Token>)
    ensures
        r@ == without_comments(tokens@),
{
    let ghost ts = tokens@;
    let n = tokens.len();
    let mut out: Vec<Token> = Vec::new();
    let mut i: usize = 0;
    while i < n
        invariant
            i <= n,
            n == ts.len(),
            ts == tokens@,
            out@ == without_comments(ts.take(i as int)),
        decreases n - i,
    {
        proof {
            assert(ts.take(i + 1).drop_last() =~= ts.take(i as int));
            assert(ts.take(i + 1).last() == ts[i as int]);
        }
        let t = &tokens[i];
        match t.kind() {
            TokenKind::LineComment => (),
            TokenKind::BlockComment => (),
            _ => {
                out.push(t.clone());
            },
        }
        i = i + 1;
    }
    proof {
        assert(ts.take(n as int) =~= ts);
    }
    out
}

} // verus!
