//! Tokens: a kind tag, a character-range span into the source, and a small
//! inline preview of the lexeme kept for display without re-reading the
//! source.

use vstd::prelude::*;

verus! {

/// Number of lexeme characters kept inline in a token for display.
pub const PREVIEW_LEN: usize = 7;

/// Half-open range `[start, end)` of character positions in the source text.
#[derive(Clone, Copy, Debug, PartialEq, Eq, Structural)]
pub struct Span {
    pub start: u32,
    pub end: u32,
}

/// The fixed reserved words of the language.
#[derive(Clone, Copy, Debug, PartialEq, Eq, Structural)]
pub enum Keyword {
    And,
    Class,
    Else,
    False,
    Fun,
    For,
    If,
    Nil,
    Or,
    Print,
    Return,
    Super,
    This,
    True,
    Var,
    While,
}

/// The closed set of token kinds, comments and lexical errors included.
#[derive(Clone, Copy, Debug, PartialEq, Eq, Structural)]
pub enum TokenKind {
    /// Line `// comment`.
    LineComment,
    /// Block `/* comment */`.
    BlockComment,
    /// `(`
    LeftParen,
    /// `)`
    RightParen,
    /// `{`
    LeftBrace,
    /// `}`
    RightBrace,
    /// `,`
    Comma,
    /// `.`
    Dot,
    /// `-`
    Minus,
    /// `+`
    Plus,
    /// `;`
    Semicolon,
    /// `/`
    Slash,
    /// `*`
    Star,
    /// `!`
    Bang,
    /// `!=`
    BangEqual,
    /// `=`
    Equal,
    /// `==`
    EqualEqual,
    /// `>`
    Greater,
    /// `>=`
    GreaterEqual,
    /// `<`
    Less,
    /// `<=`
    LessEqual,
    /// An identifier, like `idx`.
    Identifier,
    /// A string literal in double quotes, like `"Hello, world!"`.
    String,
    /// A number literal, like `123` or `1.5`.
    Number,
    /// A reserved keyword, like `class`.
    Keyword(Keyword),
    /// An unterminated block comment.
    UnterminatedBlockComment,
    /// An unterminated string.
    UnterminatedString,
    /// An invalid character.
    InvalidCharacter,
}

/// The mathematical content of a token: its kind and its span.
pub struct TokenModel {
    pub kind: TokenKind,
    pub start: int,
    pub end: int,
}

/// The keyword whose spelling is exactly `s`, if any.
pub open spec fn keyword_of(s: Seq<char>) -> Option<Keyword> {
    if s == "and"@ {
        Some(Keyword::And)
    } else if s == "class"@ {
        Some(Keyword::Class)
    } else if s == "else"@ {
        Some(Keyword::Else)
    } else if s == "false"@ {
        Some(Keyword::False)
    } else if s == "fun"@ {
        Some(Keyword::Fun)
    } else if s == "for"@ {
        Some(Keyword::For)
    } else if s == "if"@ {
        Some(Keyword::If)
    } else if s == "nil"@ {
        Some(Keyword::Nil)
    } else if s == "or"@ {
        Some(Keyword::Or)
    } else if s == "print"@ {
        Some(Keyword::Print)
    } else if s == "return"@ {
        Some(Keyword::Return)
    } else if s == "super"@ {
        Some(Keyword::Super)
    } else if s == "this"@ {
        Some(Keyword::This)
    } else if s == "true"@ {
        Some(Keyword::True)
    } else if s == "var"@ {
        Some(Keyword::Var)
    } else if s == "while"@ {
        Some(Keyword::While)
    } else {
        None
    }
}

/// Character-by-character string equality.
fn str_eq(a: &str, b: &str) -> (r: bool)
    ensures
        r == (a@ == b@),
{
    let n = a.unicode_len();
    if n != b.unicode_len() {
        return false;
    }
    let mut i: usize = 0;
    while i < n
        invariant
            i <= n,
            n == a@.len(),
            n == b@.len(),
            forall|k: int| 0 <= k < i ==> a@[k] == b@[k],
        decreases n - i,
    {
        if a.get_char(i) != b.get_char(i) {
            return false;
        }
        i = i + 1;
    }
    proof {
        assert(a@ =~= b@);
    }
    true
}

impl Keyword {
    /// The keyword spelled exactly as `s`, if any.
    pub fn lookup(s: &str) -> (r: Option<Keyword>)
        ensures
            r == keyword_of(s@),
    {
        if str_eq(s, "and") {
            Some(Keyword::And)
        } else if str_eq(s, "class") {
            Some(Keyword::Class)
        } else if str_eq(s, "else") {
            Some(Keyword::Else)
        } else if str_eq(s, "false") {
            Some(Keyword::False)
        } else if str_eq(s, "fun") {
            Some(Keyword::Fun)
        } else if str_eq(s, "for") {
            Some(Keyword::For)
        } else if str_eq(s, "if") {
            Some(Keyword::If)
        } else if str_eq(s, "nil") {
            Some(Keyword::Nil)
        } else if str_eq(s, "or") {
            Some(Keyword::Or)
        } else if str_eq(s, "print") {
            Some(Keyword::Print)
        } else if str_eq(s, "return") {
            Some(Keyword::Return)
        } else if str_eq(s, "super") {
            Some(Keyword::Super)
        } else if str_eq(s, "this") {
            Some(Keyword::This)
        } else if str_eq(s, "true") {
            Some(Keyword::True)
        } else if str_eq(s, "var") {
            Some(Keyword::Var)
        } else if str_eq(s, "while") {
            Some(Keyword::While)
        } else {
            None
        }
    }
}

/// A scanned token. It never owns source text: `lexeme` recomputes the exact
/// slice from the span against the original source.
#[derive(Debug)]
pub struct Token {
    /// The type of the token.
    kind: TokenKind,
    /// The start and end positions of the token in the source code.
    span: Span,
    /// The first characters of the lexeme, for display.
    view: std::string::String,
}

/// A view of a token's stored lexeme prefix: complete when the whole lexeme
/// fits in the preview, partial otherwise.
#[derive(Debug, Clone, PartialEq)]
pub enum LexView<'a> {
    Partial(&'a str),
    Complete(&'a str),
}

impl Token {
    /// Every token is well-formed; constructors establish it once and for
    /// all.
    #[verifier::type_invariant]
    spec fn type_inv(self) -> bool {
        self.wf()
    }

    pub closed spec fn spec_kind(&self) -> TokenKind {
        self.kind
    }

    pub closed spec fn spec_start(&self) -> int {
        self.span.start as int
    }

    pub closed spec fn spec_end(&self) -> int {
        self.span.end as int
    }

    /// The stored preview characters.
    pub closed spec fn spec_view(&self) -> Seq<char> {
        self.view@
    }

    pub open spec fn spec_len(&self) -> int {
        self.spec_end() - self.spec_start()
    }

    pub open spec fn model(&self) -> TokenModel {
        TokenModel { kind: self.spec_kind(), start: self.spec_start(), end: self.spec_end() }
    }

    /// How many lexeme characters the preview holds.
    pub open spec fn spec_view_len(&self) -> int {
        if self.spec_len() <= PREVIEW_LEN { self.spec_len() } else { PREVIEW_LEN as int }
    }

    /// Structural well-formedness: an ordered span and a preview of the
    /// right length.
    pub open spec fn wf(&self) -> bool {
        &&& 0 <= self.spec_start() <= self.spec_end() <= u32::MAX
        &&& self.spec_view().len() == self.spec_view_len()
    }

    /// The token describes a lexeme of `s`: its span lies inside `s` and the
    /// preview holds the first characters of that lexeme.
    pub open spec fn from_source(&self, s: Seq<char>) -> bool {
        &&& self.wf()
        &&& self.spec_end() <= s.len()
        &&& self.spec_view() == s.subrange(self.spec_start(), self.spec_start() + self.spec_view_len())
    }

    pub fn new(kind: TokenKind, pos: usize, lexeme: &str) -> (t: Token)
        requires
            pos + lexeme@.len() <= u32::MAX,
        ensures
            t.spec_kind() == kind,
            t.spec_start() == pos,
            t.spec_end() == pos + lexeme@.len(),
            t.spec_view() == lexeme@.subrange(0, t.spec_view_len()),
            t.wf(),
    {
        let len = lexeme.unicode_len();
        let view_len: usize = if len < PREVIEW_LEN {
            len
        } else {
            PREVIEW_LEN
        };
        let view = lexeme.substring_char(0, view_len).to_owned();
        let span = Span { start: pos as u32, end: (pos + len) as u32 };
        Token { kind, span, view }
    }

    pub fn kind(&self) -> (k: TokenKind)
        ensures
            k == self.spec_kind(),
    {
        self.kind
    }

    pub fn span(&self) -> (s: &Span)
        ensures
            s.start == self.spec_start(),
            s.end == self.spec_end(),
    {
        &self.span
    }

    /// Reads the stored preview and reports whether it is partial or
    /// complete.
    pub fn preview(&self) -> (v: LexView<'_>)
        ensures
            match v {
                LexView::Complete(p) => self.spec_len() <= PREVIEW_LEN && p@ == self.spec_view(),
                LexView::Partial(p) => self.spec_len() > PREVIEW_LEN && p@ == self.spec_view(),
            },
    {
        proof {
            use_type_invariant(&*self);
        }
        let len = self.span.end - self.span.start;
        if len <= PREVIEW_LEN as u32 {
            LexView::Complete(self.view.as_str())
        } else {
            LexView::Partial(self.view.as_str())
        }
    }

    /// Returns the full lexeme for the token, sliced from the source the
    /// token was scanned from.
    pub fn lexeme<'a>(&self, source: &'a str) -> (r: &'a str)
        requires
            self.spec_end() <= source@.len(),
        ensures
            r@ == source@.subrange(self.spec_start(), self.spec_end()),
    {
        proof {
            use_type_invariant(&*self);
        }
        source.substring_char(self.span.start as usize, self.span.end as usize)
    }

    /// The display text: the full lexeme when it fits in the preview, else
    /// the preview followed by a truncation marker.
    pub open spec fn spec_text(&self) -> Seq<char> {
        if self.spec_len() <= PREVIEW_LEN {
            self.spec_view()
        } else {
            self.spec_view() + seq!['.', '.', '.']
        }
    }

    /// Renders the token for display from its stored preview alone.
    pub fn text(&self) -> (r: std::string::String)
        ensures
            r@ == self.spec_text(),
    {
        proof {
            use_type_invariant(&*self);
        }
        let len = self.span.end - self.span.start;
        if len <= PREVIEW_LEN as u32 {
            self.view.clone()
        } else {
            let mut r = self.view.clone();
            r.append("...");
            proof {
                reveal_strlit("...");
                assert(r@ =~= self.spec_view() + seq!['.', '.', '.']);
            }
            r
        }
    }

    pub fn new_line_comment(pos: usize, lexeme: &str) -> (t: Token)
        requires
            pos + lexeme@.len() <= u32::MAX,
        ensures
            t.spec_kind() == TokenKind::LineComment,
            t.spec_start() == pos,
            t.spec_end() == pos + lexeme@.len(),
            t.spec_view() == lexeme@.subrange(0, t.spec_view_len()),
            t.wf(),
    {
        Token::new(TokenKind::LineComment, pos, lexeme)
    }

    pub fn new_block_comment(pos: usize, lexeme: &str) -> (t: Token)
        requires
            pos + lexeme@.len() <= u32::MAX,
        ensures
            t.spec_kind() == TokenKind::BlockComment,
            t.spec_start() == pos,
            t.spec_end() == pos + lexeme@.len(),
            t.spec_view() == lexeme@.subrange(0, t.spec_view_len()),
            t.wf(),
    {
        Token::new(TokenKind::BlockComment, pos, lexeme)
    }

    pub fn new_left_paren(pos: usize) -> (t: Token)
        requires
            pos + 1 <= u32::MAX,
        ensures
            t.model() == (TokenModel { kind: TokenKind::LeftParen, start: pos as int, end: pos + 1 }),
            t.spec_view() == seq!['('],
            t.wf(),
    {
        proof {
            reveal_strlit("(");
        }
        let t = Token::new(TokenKind::LeftParen, pos, "(");
        proof {
            assert(t.spec_view() =~= seq!['(']);
        }
        t
    }

    pub fn new_right_paren(pos: usize) -> (t: Token)
        requires
            pos + 1 <= u32::MAX,
        ensures
            t.model() == (TokenModel { kind: TokenKind::RightParen, start: pos as int, end: pos + 1 }),
            t.spec_view() == seq![')'],
            t.wf(),
    {
        proof {
            reveal_strlit(")");
        }
        let t = Token::new(TokenKind::RightParen, pos, ")");
        proof {
            assert(t.spec_view() =~= seq![')']);
        }
        t
    }

    pub fn new_left_brace(pos: usize) -> (t: Token)
        requires
            pos + 1 <= u32::MAX,
        ensures
            t.model() == (TokenModel { kind: TokenKind::LeftBrace, start: pos as int, end: pos + 1 }),
            t.spec_view() == seq!['{'],
            t.wf(),
    {
        proof {
            reveal_strlit("{");
        }
        let t = Token::new(TokenKind::LeftBrace, pos, "{");
        proof {
            assert(t.spec_view() =~= seq!['{']);
        }
        t
    }

    pub fn new_right_brace(pos: usize) -> (t: Token)
        requires
            pos + 1 <= u32::MAX,
        ensures
            t.model() == (TokenModel { kind: TokenKind::RightBrace, start: pos as int, end: pos + 1 }),
            t.spec_view() == seq!['}'],
            t.wf(),
    {
        proof {
            reveal_strlit("}");
        }
        let t = Token::new(TokenKind::RightBrace, pos, "}");
        proof {
            assert(t.spec_view() =~= seq!['}']);
        }
        t
    }

    pub fn new_comma(pos: usize) -> (t: Token)
        requires
            pos + 1 <= u32::MAX,
        ensures
            t.model() == (TokenModel { kind: TokenKind::Comma, start: pos as int, end: pos + 1 }),
            t.spec_view() == seq![','],
            t.wf(),
    {
        proof {
            reveal_strlit(",");
        }
        let t = Token::new(TokenKind::Comma, pos, ",");
        proof {
            assert(t.spec_view() =~= seq![',']);
        }
        t
    }

    pub fn new_dot(pos: usize) -> (t: Token)
        requires
            pos + 1 <= u32::MAX,
        ensures
            t.model() == (TokenModel { kind: TokenKind::Dot, start: pos as int, end: pos + 1 }),
            t.spec_view() == seq!['.'],
            t.wf(),
    {
        proof {
            reveal_strlit(".");
        }
        let t = Token::new(TokenKind::Dot, pos, ".");
        proof {
            assert(t.spec_view() =~= seq!['.']);
        }
        t
    }

    pub fn new_minus(pos: usize) -> (t: Token)
        requires
            pos + 1 <= u32::MAX,
        ensures
            t.model() == (TokenModel { kind: TokenKind::Minus, start: pos as int, end: pos + 1 }),
            t.spec_view() == seq!['-'],
            t.wf(),
    {
        proof {
            reveal_strlit("-");
        }
        let t = Token::new(TokenKind::Minus, pos, "-");
        proof {
            assert(t.spec_view() =~= seq!['-']);
        }
        t
    }

    pub fn new_plus(pos: usize) -> (t: Token)
        requires
            pos + 1 <= u32::MAX,
        ensures
            t.model() == (TokenModel { kind: TokenKind::Plus, start: pos as int, end: pos + 1 }),
            t.spec_view() == seq!['+'],
            t.wf(),
    {
        proof {
            reveal_strlit("+");
        }
        let t = Token::new(TokenKind::Plus, pos, "+");
        proof {
            assert(t.spec_view() =~= seq!['+']);
        }
        t
    }

    pub fn new_semicolon(pos: usize) -> (t: Token)
        requires
            pos + 1 <= u32::MAX,
        ensures
            t.model() == (TokenModel { kind: TokenKind::Semicolon, start: pos as int, end: pos + 1 }),
            t.spec_view() == seq![';'],
            t.wf(),
    {
        proof {
            reveal_strlit(";");
        }
        let t = Token::new(TokenKind::Semicolon, pos, ";");
        proof {
            assert(t.spec_view() =~= seq![';']);
        }
        t
    }

    pub fn new_slash(pos: usize) -> (t: Token)
        requires
            pos + 1 <= u32::MAX,
        ensures
            t.model() == (TokenModel { kind: TokenKind::Slash, start: pos as int, end: pos + 1 }),
            t.spec_view() == seq!['/'],
            t.wf(),
    {
        proof {
            reveal_strlit("/");
        }
        let t = Token::new(TokenKind::Slash, pos, "/");
        proof {
            assert(t.spec_view() =~= seq!['/']);
        }
        t
    }

    pub fn new_star(pos: usize) -> (t: Token)
        requires
            pos + 1 <= u32::MAX,
        ensures
            t.model() == (TokenModel { kind: TokenKind::Star, start: pos as int, end: pos + 1 }),
            t.spec_view() == seq!['*'],
            t.wf(),
    {
        proof {
            reveal_strlit("*");
        }
        let t = Token::new(TokenKind::Star, pos, "*");
        proof {
            assert(t.spec_view() =~= seq!['*']);
        }
        t
    }

    pub fn new_bang(pos: usize) -> (t: Token)
        requires
            pos + 1 <= u32::MAX,
        ensures
            t.model() == (TokenModel { kind: TokenKind::Bang, start: pos as int, end: pos + 1 }),
            t.spec_view() == seq!['!'],
            t.wf(),
    {
        proof {
            reveal_strlit("!");
        }
        let t = Token::new(TokenKind::Bang, pos, "!");
        proof {
            assert(t.spec_view() =~= seq!['!']);
        }
        t
    }

    pub fn new_bang_equal(pos: usize) -> (t: Token)
        requires
            pos + 2 <= u32::MAX,
        ensures
            t.model() == (TokenModel { kind: TokenKind::BangEqual, start: pos as int, end: pos + 2 }),
            t.spec_view() == seq!['!', '='],
            t.wf(),
    {
        proof {
            reveal_strlit("!=");
        }
        let t = Token::new(TokenKind::BangEqual, pos, "!=");
        proof {
            assert(t.spec_view() =~= seq!['!', '=']);
        }
        t
    }

    pub fn new_equal(pos: usize) -> (t: Token)
        requires
            pos + 1 <= u32::MAX,
        ensures
            t.model() == (TokenModel { kind: TokenKind::Equal, start: pos as int, end: pos + 1 }),
            t.spec_view() == seq!['='],
            t.wf(),
    {
        proof {
            reveal_strlit("=");
        }
        let t = Token::new(TokenKind::Equal, pos, "=");
        proof {
            assert(t.spec_view() =~= seq!['=']);
        }
        t
    }

    pub fn new_equal_equal(pos: usize) -> (t: Token)
        requires
            pos + 2 <= u32::MAX,
        ensures
            t.model() == (TokenModel { kind: TokenKind::EqualEqual, start: pos as int, end: pos + 2 }),
            t.spec_view() == seq!['=', '='],
            t.wf(),
    {
        proof {
            reveal_strlit("==");
        }
        let t = Token::new(TokenKind::EqualEqual, pos, "==");
        proof {
            assert(t.spec_view() =~= seq!['=', '=']);
        }
        t
    }

    pub fn new_greater(pos: usize) -> (t: Token)
        requires
            pos + 1 <= u32::MAX,
        ensures
            t.model() == (TokenModel { kind: TokenKind::Greater, start: pos as int, end: pos + 1 }),
            t.spec_view() == seq!['>'],
            t.wf(),
    {
        proof {
            reveal_strlit(">");
        }
        let t = Token::new(TokenKind::Greater, pos, ">");
        proof {
            assert(t.spec_view() =~= seq!['>']);
        }
        t
    }

    pub fn new_greater_equal(pos: usize) -> (t: Token)
        requires
            pos + 2 <= u32::MAX,
        ensures
            t.model() == (TokenModel { kind: TokenKind::GreaterEqual, start: pos as int, end: pos + 2 }),
            t.spec_view() == seq!['>', '='],
            t.wf(),
    {
        proof {
            reveal_strlit(">=");
        }
        let t = Token::new(TokenKind::GreaterEqual, pos, ">=");
        proof {
            assert(t.spec_view() =~= seq!['>', '=']);
        }
        t
    }

    pub fn new_less(pos: usize) -> (t: Token)
        requires
            pos + 1 <= u32::MAX,
        ensures
            t.model() == (TokenModel { kind: TokenKind::Less, start: pos as int, end: pos + 1 }),
            t.spec_view() == seq!['<'],
            t.wf(),
    {
        proof {
            reveal_strlit("<");
        }
        let t = Token::new(TokenKind::Less, pos, "<");
        proof {
            assert(t.spec_view() =~= seq!['<']);
        }
        t
    }

    pub fn new_less_equal(pos: usize) -> (t: Token)
        requires
            pos + 2 <= u32::MAX,
        ensures
            t.model() == (TokenModel { kind: TokenKind::LessEqual, start: pos as int, end: pos + 2 }),
            t.spec_view() == seq!['<', '='],
            t.wf(),
    {
        proof {
            reveal_strlit("<=");
        }
        let t = Token::new(TokenKind::LessEqual, pos, "<=");
        proof {
            assert(t.spec_view() =~= seq!['<', '=']);
        }
        t
    }

    pub fn new_identifier(pos: usize, lexeme: &str) -> (t: Token)
        requires
            pos + lexeme@.len() <= u32::MAX,
        ensures
            t.spec_kind() == TokenKind::Identifier,
            t.spec_start() == pos,
            t.spec_end() == pos + lexeme@.len(),
            t.spec_view() == lexeme@.subrange(0, t.spec_view_len()),
            t.wf(),
    {
        Token::new(TokenKind::Identifier, pos, lexeme)
    }

    pub fn new_string(pos: usize, lexeme: &str) -> (t: Token)
        requires
            pos + lexeme@.len() <= u32::MAX,
        ensures
            t.spec_kind() == TokenKind::String,
            t.spec_start() == pos,
            t.spec_end() == pos + lexeme@.len(),
            t.spec_view() == lexeme@.subrange(0, t.spec_view_len()),
            t.wf(),
    {
        Token::new(TokenKind::String, pos, lexeme)
    }

    pub fn new_number(pos: usize, lexeme: &str) -> (t: Token)
        requires
            pos + lexeme@.len() <= u32::MAX,
        ensures
            t.spec_kind() == TokenKind::Number,
            t.spec_start() == pos,
            t.spec_end() == pos + lexeme@.len(),
            t.spec_view() == lexeme@.subrange(0, t.spec_view_len()),
            t.wf(),
    {
        Token::new(TokenKind::Number, pos, lexeme)
    }

    /// The lexeme must spell one of the fixed keywords.
    pub fn new_keyword(pos: usize, lexeme: &str) -> (t: Token)
        requires
            pos + lexeme@.len() <= u32::MAX,
            keyword_of(lexeme@) is Some,
        ensures
            t.spec_kind() == TokenKind::Keyword(keyword_of(lexeme@)->Some_0),
            t.spec_start() == pos,
            t.spec_end() == pos + lexeme@.len(),
            t.spec_view() == lexeme@.subrange(0, t.spec_view_len()),
            t.wf(),
    {
        match Keyword::lookup(lexeme) {
            Some(k) => Token::new(TokenKind::Keyword(k), pos, lexeme),
            None => vstd::pervasive::unreached(),
        }
    }

    pub fn new_unterminated_block_comment(pos: usize, lexeme: &str) -> (t: Token)
        requires
            pos + lexeme@.len() <= u32::MAX,
        ensures
            t.spec_kind() == TokenKind::UnterminatedBlockComment,
            t.spec_start() == pos,
            t.spec_end() == pos + lexeme@.len(),
            t.spec_view() == lexeme@.subrange(0, t.spec_view_len()),
            t.wf(),
    {
        Token::new(TokenKind::UnterminatedBlockComment, pos, lexeme)
    }

    pub fn new_unterminated_string(pos: usize, lexeme: &str) -> (t: Token)
        requires
            pos + lexeme@.len() <= u32::MAX,
        ensures
            t.spec_kind() == TokenKind::UnterminatedString,
            t.spec_start() == pos,
            t.spec_end() == pos + lexeme@.len(),
            t.spec_view() == lexeme@.subrange(0, t.spec_view_len()),
            t.wf(),
    {
        Token::new(TokenKind::UnterminatedString, pos, lexeme)
    }

    pub fn new_invalid_character(pos: usize, lexeme: &str) -> (t: Token)
        requires
            pos + lexeme@.len() <= u32::MAX,
        ensures
            t.spec_kind() == TokenKind::InvalidCharacter,
            t.spec_start() == pos,
            t.spec_end() == pos + lexeme@.len(),
            t.spec_view() == lexeme@.subrange(0, t.spec_view_len()),
            t.wf(),
    {
        Token::new(TokenKind::InvalidCharacter, pos, lexeme)
    }

    /// Return true if the token is invalid.
    pub fn is_invalid(&self) -> (r: bool)
        ensures
            r == (self.spec_kind() is InvalidCharacter),
    {
        matches!(self.kind, TokenKind::InvalidCharacter)
    }
}

impl Clone for Token {
    fn clone(&self) -> (r: Self)
        ensures
            r == *self,
    {
        proof {
            use_type_invariant(&*self);
        }
        Token { kind: self.kind, span: self.span, view: self.view.clone() }
    }
}

impl PartialEq for Token {
    /// Equality is by kind and span.
    fn eq(&self, other: &Self) -> bool {
        self.kind == other.kind && self.span == other.span
    }
}

impl vstd::std_specs::cmp::PartialEqSpecImpl for Token {
    open spec fn obeys_eq_spec() -> bool {
        true
    }

    open spec fn eq_spec(&self, other: &Self) -> bool {
        self.model() == other.model()
    }
}

} // verus!
