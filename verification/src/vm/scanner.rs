//! The lexical scanner: a forward-only cursor over a borrowed source text
//! that hands out one classified token per pull.  Its behaviour is specified
//! against the model in `model`: every pull produces exactly the token that
//! `model::spec_scan` names for the current offset.

pub mod model;
pub mod token;

use vstd::prelude::*;

use crate::vm::scanner::model::{
    digit_end, ident_end, ident_token, is_alnum, is_alpha, is_digit, is_op_char, is_space,
    keyword_kind, lemma_pos_at_bounds, number_token, op_token, pos_at, quote_end, skip_at,
    skip_block_comment, skip_line_comment, spec_scan, string_token, token_at, ScanStep, SkipResult,
};
use crate::vm::scanner::token::{LocationInfo, Token, TokenType};

verus! {

/// Whether `c` is skippable whitespace.
fn space_char(c: char) -> (b: bool)
    ensures
        b == is_space(c),
{
    let u: u32 = c as u32;
    (9 <= u && u <= 13) || u == 32 || u == 0x85 || u == 0xA0 || u == 0x1680 || (0x2000 <= u && u
        <= 0x200A) || u == 0x2028 || u == 0x2029 || u == 0x202F || u == 0x205F || u == 0x3000
}

/// Whether `c` is an ASCII decimal digit.
fn digit_char(c: char) -> (b: bool)
    ensures
        b == is_digit(c),
{
    let u: u32 = c as u32;
    48 <= u && u <= 57
}

/// Whether `c` may start an identifier.
fn alpha_char(c: char) -> (b: bool)
    ensures
        b == is_alpha(c),
{
    let u: u32 = c as u32;
    (97 <= u && u <= 122) || (65 <= u && u <= 90) || c == '_'
}

/// Whether `c` may continue an identifier.
fn alnum_char(c: char) -> (b: bool)
    ensures
        b == is_alnum(c),
{
    alpha_char(c) || digit_char(c)
}

/// Character-for-character string equality.
#[verifier::loop_isolation(false)]
fn str_eq(a: &str, b: &str) -> (r: bool)
    ensures
        r == (a@ == b@),
{
    let na = a.unicode_len();
    let nb = b.unicode_len();
    if na != nb {
        return false;
    }
    let mut i: usize = 0;
    while i < na
        invariant
            0 <= i <= na,
            na == a@.len(),
            na == b@.len(),
            forall|k: int| 0 <= k < i ==> a@[k] == b@[k],
        decreases na - i,
    {
        if a.get_char(i) != b.get_char(i) {
            return false;
        }
        i = i + 1;
    }
    proof {
        assert(a@ =~= b@);
    }
    true
}

/// The reserved-word table: resolves an identifier's exact spelling to its
/// reserved-word kind, or to `Identifier` for any other spelling.
fn lookup_keyword(l: &str) -> (t: TokenType)
    ensures
        t == keyword_kind(l@),
{
    if str_eq(l, "false") {
        TokenType::False
    } else if str_eq(l, "true") {
        TokenType::True
    } else if str_eq(l, "and") {
        TokenType::And
    } else if str_eq(l, "or") {
        TokenType::Or
    } else if str_eq(l, "xor") {
        TokenType::Xor
    } else if str_eq(l, "if") {
        TokenType::If
    } else if str_eq(l, "else") {
        TokenType::Else
    } else if str_eq(l, "while") {
        TokenType::While
    } else if str_eq(l, "for") {
        TokenType::For
    } else if str_eq(l, "var") {
        TokenType::Var
    } else if str_eq(l, "fun") {
        TokenType::Fun
    } else if str_eq(l, "class") {
        TokenType::Class
    } else if str_eq(l, "print") {
        TokenType::Print
    } else if str_eq(l, "return") {
        TokenType::Return
    } else if str_eq(l, "super") {
        TokenType::Super
    } else if str_eq(l, "this") {
        TokenType::This
    } else if str_eq(l, "nil") {
        TokenType::Nil
    } else {
        TokenType::Identifier
    }
}

/// The ghost image of a scanner: the source as a character sequence, the
/// offsets that bound the token under construction, and the line and column
/// both of the token start and of the read cursor.
pub struct ScannerModel {
    pub src: Seq<char>,
    pub start: int,
    pub cur: int,
    pub line: int,
    pub col: int,
    pub cur_line: int,
    pub cur_col: int,
}

impl ScannerModel {
    /// Well-formedness: the cursor lies between the token start and the end
    /// of the source, the source is short enough for 32-bit line and column
    /// counters, and the four counters agree with the positions that the two
    /// offsets define.
    pub open spec fn wf(self) -> bool {
        &&& 0 <= self.start <= self.cur <= self.src.len()
        &&& self.src.len() < 0xFFFF_FFFF
        &&& self.line == pos_at(self.src, self.start).line
        &&& self.col == pos_at(self.src, self.start).col
        &&& self.cur_line == pos_at(self.src, self.cur).line
        &&& self.cur_col == pos_at(self.src, self.cur).col
    }
}

/// The scanner: a read-only borrow of the whole source for its lifetime, and
/// a cursor that only moves forward.  `start` marks where the token being
/// scanned begins; `line` and `column` are the position of `start`, while
/// `current_line` and `current_column` are the position of `current`.
pub struct Scanner<'a> {
    source: &'a str,
    start: usize,
    current: usize,
    line: u32,
    column: u32,
    current_line: u32,
    current_column: u32,
}

impl<'a> View for Scanner<'a> {
    type V = ScannerModel;

    closed spec fn view(&self) -> ScannerModel {
        ScannerModel {
            src: self.source@,
            start: self.start as int,
            cur: self.current as int,
            line: self.line as int,
            col: self.column as int,
            cur_line: self.current_line as int,
            cur_col: self.current_column as int,
        }
    }
}

impl<'a> Scanner<'a> {
    /// A fresh scanner over `source`, standing before the first character at
    /// line 1, column 1.  The length bound keeps the 32-bit line and column
    /// counters from overflowing on any input.
    pub fn new(source: &'a str) -> (sc: Scanner<'a>)
        requires
            source@.len() < 0xFFFF_FFFF,
        ensures
            sc@.wf(),
            sc@.src == source@,
            sc@.start == 0,
            sc@.cur == 0,
    {
        Scanner { source, start: 0, current: 0, line: 1, column: 1, current_line: 1, current_column: 1 }
    }

    /// The character `distance` places ahead of the cursor, without moving it.
    fn peek(&self, distance: usize) -> (r: Option<char>)
        requires
            self@.wf(),
            distance <= 1,
        ensures
            r == (if self@.cur + distance < self@.src.len() {
                Some(self@.src[self@.cur + distance])
            } else {
                None::<char>
            }),
    {
        let n = self.source.unicode_len();
        if n - self.current > distance {
            Some(self.source.get_char(self.current + distance))
        } else {
            None
        }
    }

    /// Consumes and returns the character under the cursor, advancing the
    /// cursor's position: past a newline the next line opens at column 1.
    fn advance(&mut self) -> (r: Option<char>)
        requires
            old(self)@.wf(),
        ensures
            final(self)@.wf(),
            final(self)@.src == old(self)@.src,
            final(self)@.start == old(self)@.start,
            final(self)@.line == old(self)@.line,
            final(self)@.col == old(self)@.col,
            old(self)@.cur < old(self)@.src.len() ==> (r == Some(old(self)@.src[old(self)@.cur])
                && final(self)@.cur == old(self)@.cur + 1),
            old(self)@.cur >= old(self)@.src.len() ==> (r is None && final(self)@ == old(self)@),
    {
        match self.peek(0) {
            Some(c) => {
                proof {
                    lemma_pos_at_bounds(self@.src, self@.cur);
                }
                self.current = self.current + 1;
                if c == '\n' {
                    self.current_line = self.current_line + 1;
                    self.current_column = 1;
                } else {
                    self.current_column = self.current_column + 1;
                }
                Some(c)
            },
            None => None,
        }
    }

    /// Advances past the next character exactly when it is `expected`; the
    /// heart of maximal munch.
    fn match_char(&mut self, expected: char) -> (r: bool)
        requires
            old(self)@.wf(),
        ensures
            final(self)@.wf(),
            final(self)@.src == old(self)@.src,
            final(self)@.start == old(self)@.start,
            final(self)@.line == old(self)@.line,
            final(self)@.col == old(self)@.col,
            r == (old(self)@.cur < old(self)@.src.len() && old(self)@.src[old(self)@.cur]
                == expected),
            r ==> final(self)@.cur == old(self)@.cur + 1,
            !r ==> final(self)@ == old(self)@,
    {
        match self.peek(0) {
            Some(c) => {
                if c == expected {
                    let _ = self.advance();
                    true
                } else {
                    false
                }
            },
            None => false,
        }
    }

    /// Builds a token of the given kind from the span `[start, current)` and
    /// the position captured at `start`.
    fn generate_token(&self, token_type: TokenType) -> (t: Token<'a>)
        requires
            self@.wf(),
        ensures
            t.token_type == token_type,
            t.lexeme@ == self@.src.subrange(self@.start, self@.cur),
            t.location.line == self@.line,
            t.location.column == self@.col,
            t.message@ == ""@,
    {
        Token::new(
            token_type,
            self.source.substring_char(self.start, self.current),
            LocationInfo::new(self.line, self.column),
        )
    }

    /// Builds an `Error` token over the current span, carrying a diagnostic
    /// message for the consumer; the scanner itself performs no output.
    fn error_token(&self, message: &'static str) -> (t: Token<'a>)
        requires
            self@.wf(),
        ensures
            t.token_type == TokenType::Error,
            t.lexeme@ == self@.src.subrange(self@.start, self@.cur),
            t.location.line == self@.line,
            t.location.column == self@.col,
            t.message@ == message@,
    {
        Token {
            token_type: TokenType::Error,
            lexeme: self.source.substring_char(self.start, self.current),
            location: LocationInfo::new(self.line, self.column),
            message,
        }
    }

    /// Consumes a `//` comment: everything through the next newline, or the
    /// rest of the source if none remains.
    #[verifier::loop_isolation(false)]
    fn jump_line_comment(&mut self)
        requires
            old(self)@.wf(),
            old(self)@.cur + 1 < old(self)@.src.len(),
            old(self)@.src[old(self)@.cur] == '/',
            old(self)@.src[old(self)@.cur + 1] == '/',
        ensures
            final(self)@.wf(),
            final(self)@.src == old(self)@.src,
            final(self)@.start == old(self)@.start,
            final(self)@.line == old(self)@.line,
            final(self)@.col == old(self)@.col,
            final(self)@.cur > old(self)@.cur,
            skip_line_comment(old(self)@.src, old(self)@.cur + 2) == skip_at(
                old(self)@.src,
                final(self)@.cur,
            ),
    {
        let ghost m0 = self@;
        let _ = self.advance();
        let _ = self.advance();
        loop
            invariant
                self@.wf(),
                self@.src == m0.src,
                self@.start == m0.start,
                self@.line == m0.line,
                self@.col == m0.col,
                m0.cur + 2 <= self@.cur <= m0.src.len(),
                skip_line_comment(m0.src, m0.cur + 2) == skip_line_comment(m0.src, self@.cur),
            decreases m0.src.len() - self@.cur,
        {
            match self.advance() {
                None => {
                    return ;
                },
                Some(c) => {
                    if c == '\n' {
                        return ;
                    }
                },
            }
        }
    }

    /// Consumes a `/*` comment through the first `*/` (comments do not
    /// nest).  A missing terminator consumes the rest of the source and
    /// yields an `Error` token spanning the whole unclosed comment.
    #[verifier::loop_isolation(false)]
    fn jump_block_comment(&mut self) -> (r: Result<(), Token<'a>>)
        requires
            old(self)@.wf(),
            old(self)@.cur + 1 < old(self)@.src.len(),
            old(self)@.src[old(self)@.cur] == '/',
            old(self)@.src[old(self)@.cur + 1] == '*',
        ensures
            final(self)@.wf(),
            final(self)@.src == old(self)@.src,
            final(self)@.cur > old(self)@.cur,
            match r {
                Ok(_) => skip_block_comment(old(self)@.src, old(self)@.cur + 2, old(self)@.cur)
                    == skip_at(old(self)@.src, final(self)@.cur),
                Err(t) => {
                    &&& skip_block_comment(old(self)@.src, old(self)@.cur + 2, old(self)@.cur)
                        == (SkipResult::BadComment { cstart: old(self)@.cur })
                    &&& final(self)@.start == old(self)@.cur
                    &&& final(self)@.cur == old(self)@.src.len()
                    &&& t.token_type == TokenType::Error
                    &&& t.lexeme@ == old(self)@.src.subrange(
                        old(self)@.cur,
                        old(self)@.src.len() as int,
                    )
                    &&& t.location.line == pos_at(old(self)@.src, old(self)@.cur).line
                    &&& t.location.column == pos_at(old(self)@.src, old(self)@.cur).col
                    &&& t.message@ == "Unterminated block comment"@
                },
            },
    {
        self.start = self.current;
        self.line = self.current_line;
        self.column = self.current_column;
        let ghost m0 = self@;
        let _ = self.advance();
        let _ = self.advance();
        loop
            invariant
                self@.wf(),
                self@.src == m0.src,
                self@.start == m0.cur,
                m0.cur + 2 <= self@.cur <= m0.src.len(),
                skip_block_comment(m0.src, m0.cur + 2, m0.cur) == skip_block_comment(
                    m0.src,
                    self@.cur,
                    m0.cur,
                ),
            decreases m0.src.len() - self@.cur,
        {
            match self.advance() {
                None => {
                    return Err(self.error_token("Unterminated block comment"));
                },
                Some(c) => {
                    if c == '*' {
                        if self.match_char('/') {
                            return Ok(());
                        }
                    }
                },
            }
        }
    }

    /// At a `/`: consumes a whole comment if one starts here and says so, or
    /// reports that the `/` begins an ordinary token.
    fn jump_comment(&mut self) -> (r: Result<bool, Token<'a>>)
        requires
            old(self)@.wf(),
            old(self)@.cur < old(self)@.src.len(),
            old(self)@.src[old(self)@.cur] == '/',
        ensures
            final(self)@.wf(),
            final(self)@.src == old(self)@.src,
            match r {
                Ok(advanced) => {
                    &&& (advanced ==> final(self)@.cur > old(self)@.cur && skip_at(
                        old(self)@.src,
                        old(self)@.cur,
                    ) == skip_at(old(self)@.src, final(self)@.cur))
                    &&& (!advanced ==> final(self)@ == old(self)@ && skip_at(
                        old(self)@.src,
                        old(self)@.cur,
                    ) == (SkipResult::Clean { j: old(self)@.cur }))
                },
                Err(t) => {
                    &&& skip_at(old(self)@.src, old(self)@.cur) == (SkipResult::BadComment {
                        cstart: old(self)@.cur,
                    })
                    &&& final(self)@.start == old(self)@.cur
                    &&& final(self)@.cur == old(self)@.src.len()
                    &&& t.token_type == TokenType::Error
                    &&& t.lexeme@ == old(self)@.src.subrange(
                        old(self)@.cur,
                        old(self)@.src.len() as int,
                    )
                    &&& t.location.line == pos_at(old(self)@.src, old(self)@.cur).line
                    &&& t.location.column == pos_at(old(self)@.src, old(self)@.cur).col
                    &&& t.message@ == "Unterminated block comment"@
                },
            },
    {
        match self.peek(1) {
            Some(c) => {
                if c == '/' {
                    self.jump_line_comment();
                    Ok(true)
                } else if c == '*' {
                    match self.jump_block_comment() {
                        Ok(_) => Ok(true),
                        Err(t) => Err(t),
                    }
                } else {
                    Ok(false)
                }
            },
            None => Ok(false),
        }
    }

    /// Skips every run of whitespace and comments before the next token.  A
    /// never-closed block comment is the one fault this phase can produce.
    #[verifier::loop_isolation(false)]
    fn fast_forward(&mut self) -> (r: Result<(), Token<'a>>)
        requires
            old(self)@.wf(),
        ensures
            final(self)@.wf(),
            final(self)@.src == old(self)@.src,
            match r {
                Ok(_) => skip_at(old(self)@.src, old(self)@.cur) == (SkipResult::Clean {
                    j: final(self)@.cur,
                }),
                Err(t) => {
                    &&& skip_at(old(self)@.src, old(self)@.cur) == (SkipResult::BadComment {
                        cstart: final(self)@.start,
                    })
                    &&& final(self)@.cur == old(self)@.src.len()
                    &&& t.token_type == TokenType::Error
                    &&& t.lexeme@ == old(self)@.src.subrange(
                        final(self)@.start,
                        old(self)@.src.len() as int,
                    )
                    &&& t.location.line == pos_at(old(self)@.src, final(self)@.start).line
                    &&& t.location.column == pos_at(old(self)@.src, final(self)@.start).col
                    &&& t.message@ == "Unterminated block comment"@
                },
            },
    {
        let ghost m0 = self@;
        loop
            invariant
                self@.wf(),
                self@.src == m0.src,
                m0.cur <= self@.cur,
                skip_at(m0.src, m0.cur) == skip_at(m0.src, self@.cur),
            decreases m0.src.len() - self@.cur,
        {
            match self.peek(0) {
                None => {
                    return Ok(());
                },
                Some(c) => {
                    if c == '/' {
                        match self.jump_comment() {
                            Ok(advanced) => {
                                if !advanced {
                                    return Ok(());
                                }
                            },
                            Err(t) => {
                                return Err(t);
                            },
                        }
                    } else if space_char(c) {
                        let _ = self.advance();
                    } else {
                        return Ok(());
                    }
                },
            }
        }
    }

    /// Advances past the run of digits under the cursor.
    #[verifier::loop_isolation(false)]
    fn consume_digits(&mut self)
        requires
            old(self)@.wf(),
        ensures
            final(self)@.wf(),
            final(self)@.src == old(self)@.src,
            final(self)@.start == old(self)@.start,
            final(self)@.line == old(self)@.line,
            final(self)@.col == old(self)@.col,
            final(self)@.cur == digit_end(old(self)@.src, old(self)@.cur),
    {
        let ghost m0 = self@;
        loop
            invariant
                self@.wf(),
                self@.src == m0.src,
                self@.start == m0.start,
                self@.line == m0.line,
                self@.col == m0.col,
                m0.cur <= self@.cur <= m0.src.len(),
                digit_end(m0.src, m0.cur) == digit_end(m0.src, self@.cur),
            decreases m0.src.len() - self@.cur,
        {
            match self.peek(0) {
                None => {
                    return ;
                },
                Some(c) => {
                    if digit_char(c) {
                        let _ = self.advance();
                    } else {
                        return ;
                    }
                },
            }
        }
    }

    /// Scans the rest of a string literal after its opening quote, newlines
    /// included; a missing closing quote is a fault that consumes the rest
    /// of the source.
    #[verifier::loop_isolation(false)]
    fn handle_string(&mut self) -> (t: Token<'a>)
        requires
            old(self)@.wf(),
            old(self)@.start + 1 == old(self)@.cur,
            old(self)@.start < old(self)@.src.len(),
            old(self)@.src[old(self)@.start] == '"',
        ensures
            final(self)@.wf(),
            final(self)@.src == old(self)@.src,
            final(self)@.start == old(self)@.start,
            ({
                let st = string_token(old(self)@.src, old(self)@.start);
                &&& final(self)@.cur == st.end
                &&& t.token_type == st.kind
                &&& t.lexeme@ == old(self)@.src.subrange(old(self)@.start, st.end)
                &&& t.location.line == pos_at(old(self)@.src, old(self)@.start).line
                &&& t.location.column == pos_at(old(self)@.src, old(self)@.start).col
                &&& t.message@ == st.msg
            }),
    {
        let ghost m0 = self@;
        loop
            invariant
                self@.wf(),
                self@.src == m0.src,
                self@.start == m0.start,
                self@.line == m0.line,
                self@.col == m0.col,
                m0.cur <= self@.cur <= m0.src.len(),
                quote_end(m0.src, m0.cur) == quote_end(m0.src, self@.cur),
            decreases m0.src.len() - self@.cur,
        {
            match self.peek(0) {
                None => {
                    return self.error_token("unterminated string");
                },
                Some(c) => {
                    let _ = self.advance();
                    if c == '"' {
                        return self.generate_token(TokenType::String);
                    }
                },
            }
        }
    }

    /// Scans the rest of a numeric literal after its first digit: a digit
    /// run, continued past a decimal point only when a digit follows the
    /// point; a point with no digit after it is a fault.
    fn number(&mut self) -> (t: Token<'a>)
        requires
            old(self)@.wf(),
            old(self)@.start + 1 == old(self)@.cur,
            old(self)@.start < old(self)@.src.len(),
            is_digit(old(self)@.src[old(self)@.start]),
        ensures
            final(self)@.wf(),
            final(self)@.src == old(self)@.src,
            final(self)@.start == old(self)@.start,
            ({
                let st = number_token(old(self)@.src, old(self)@.start);
                &&& final(self)@.cur == st.end
                &&& t.token_type == st.kind
                &&& t.lexeme@ == old(self)@.src.subrange(old(self)@.start, st.end)
                &&& t.location.line == pos_at(old(self)@.src, old(self)@.start).line
                &&& t.location.column == pos_at(old(self)@.src, old(self)@.start).col
                &&& t.message@ == st.msg
            }),
    {
        self.consume_digits();
        if let Some(c) = self.peek(0) {
            if c == '.' {
                let fractional = match self.peek(1) {
                    Some(c2) => digit_char(c2),
                    None => false,
                };
                if fractional {
                    let _ = self.advance();
                    self.consume_digits();
                    return self.generate_token(TokenType::Number);
                } else {
                    return self.error_token("invalid number with trailing '.'");
                }
            }
        }
        self.generate_token(TokenType::Number)
    }

    /// Scans the rest of an identifier after its first character and
    /// resolves its spelling against the reserved-word table.
    #[verifier::loop_isolation(false)]
    fn identifier(&mut self) -> (t: Token<'a>)
        requires
            old(self)@.wf(),
            old(self)@.start + 1 == old(self)@.cur,
            old(self)@.start < old(self)@.src.len(),
            is_alpha(old(self)@.src[old(self)@.start]),
        ensures
            final(self)@.wf(),
            final(self)@.src == old(self)@.src,
            final(self)@.start == old(self)@.start,
            ({
                let st = ident_token(old(self)@.src, old(self)@.start);
                &&& final(self)@.cur == st.end
                &&& t.token_type == st.kind
                &&& t.lexeme@ == old(self)@.src.subrange(old(self)@.start, st.end)
                &&& t.location.line == pos_at(old(self)@.src, old(self)@.start).line
                &&& t.location.column == pos_at(old(self)@.src, old(self)@.start).col
                &&& t.message@ == st.msg
            }),
    {
        let ghost m0 = self@;
        loop
            invariant
                self@.wf(),
                self@.src == m0.src,
                self@.start == m0.start,
                self@.line == m0.line,
                self@.col == m0.col,
                m0.cur <= self@.cur <= m0.src.len(),
                ident_end(m0.src, m0.cur) == ident_end(m0.src, self@.cur),
            decreases m0.src.len() - self@.cur,
        {
            match self.peek(0) {
                None => {
                    break ;
                },
                Some(c) => {
                    if alnum_char(c) {
                        let _ = self.advance();
                    } else {
                        break ;
                    }
                },
            }
        }
        let lexeme = self.source.substring_char(self.start, self.current);
        let token_type = lookup_keyword(lexeme);
        self.generate_token(token_type)
    }

    /// Dispatches on a character that is neither punctuation, an operator
    /// nor a quote: a digit starts a number, a letter or underscore an
    /// identifier, and anything else is an invalid character.
    fn handle_number_and_identifier(&mut self, c: char) -> (t: Token<'a>)
        requires
            old(self)@.wf(),
            old(self)@.start + 1 == old(self)@.cur,
            old(self)@.start < old(self)@.src.len(),
            old(self)@.src[old(self)@.start] == c,
        ensures
            final(self)@.wf(),
            final(self)@.src == old(self)@.src,
            final(self)@.start == old(self)@.start,
            ({
                let st = if is_digit(c) {
                    number_token(old(self)@.src, old(self)@.start)
                } else if is_alpha(c) {
                    ident_token(old(self)@.src, old(self)@.start)
                } else {
                    (ScanStep {
                        kind: TokenType::Error,
                        end: old(self)@.start + 1,
                        msg: "invalid character"@,
                    })
                };
                &&& final(self)@.cur == st.end
                &&& t.token_type == st.kind
                &&& t.lexeme@ == old(self)@.src.subrange(old(self)@.start, st.end)
                &&& t.location.line == pos_at(old(self)@.src, old(self)@.start).line
                &&& t.location.column == pos_at(old(self)@.src, old(self)@.start).col
                &&& t.message@ == st.msg
            }),
    {
        if !alnum_char(c) {
            return self.error_token("invalid character");
        }
        if digit_char(c) {
            return self.number();
        }
        self.identifier()
    }

    /// Scans an operator by maximal munch: the two-character spelling is
    /// preferred wherever the next character completes one.
    fn handle_operator(&mut self, c: char) -> (t: Token<'a>)
        requires
            old(self)@.wf(),
            old(self)@.start + 1 == old(self)@.cur,
            old(self)@.start < old(self)@.src.len(),
            old(self)@.src[old(self)@.start] == c,
            is_op_char(c),
        ensures
            final(self)@.wf(),
            final(self)@.src == old(self)@.src,
            final(self)@.start == old(self)@.start,
            ({
                let st = op_token(old(self)@.src, old(self)@.start);
                &&& final(self)@.cur == st.end
                &&& t.token_type == st.kind
                &&& t.lexeme@ == old(self)@.src.subrange(old(self)@.start, st.end)
                &&& t.location.line == pos_at(old(self)@.src, old(self)@.start).line
                &&& t.location.column == pos_at(old(self)@.src, old(self)@.start).col
                &&& t.message@ == st.msg
            }),
    {
        let token_type = match c {
            '-' => {
                if self.match_char('-') {
                    TokenType::MinusMinus
                } else if self.match_char('=') {
                    TokenType::MinusEqual
                } else {
                    TokenType::Minus
                }
            },
            '+' => {
                if self.match_char('+') {
                    TokenType::PlusPlus
                } else if self.match_char('=') {
                    TokenType::PlusEqual
                } else {
                    TokenType::Plus
                }
            },
            '*' => {
                if self.match_char('*') {
                    TokenType::StarStar
                } else if self.match_char('=') {
                    TokenType::StarEqual
                } else {
                    TokenType::Star
                }
            },
            '/' => {
                if self.match_char('=') {
                    TokenType::SlashEqual
                } else {
                    TokenType::Slash
                }
            },
            '%' => {
                if self.match_char('=') {
                    TokenType::PercentEqual
                } else {
                    TokenType::Percent
                }
            },
            '!' => {
                if self.match_char('=') {
                    TokenType::BangEqual
                } else {
                    TokenType::Bang
                }
            },
            '=' => {
                if self.match_char('=') {
                    TokenType::EqualEqual
                } else {
                    TokenType::Equal
                }
            },
            '<' => {
                if self.match_char('=') {
                    TokenType::LessEqual
                } else {
                    TokenType::Less
                }
            },
            _ => {
                if self.match_char('=') {
                    TokenType::GreaterEqual
                } else {
                    TokenType::Greater
                }
            },
        };
        self.generate_token(token_type)
    }

    /// Dispatches on the first character of a token.
    fn handle_char(&mut self, c: char) -> (t: Token<'a>)
        requires
            old(self)@.wf(),
            old(self)@.start + 1 == old(self)@.cur,
            old(self)@.start < old(self)@.src.len(),
            old(self)@.src[old(self)@.start] == c,
        ensures
            final(self)@.wf(),
            final(self)@.src == old(self)@.src,
            final(self)@.start == old(self)@.start,
            ({
                let st = token_at(old(self)@.src, old(self)@.start);
                &&& final(self)@.cur == st.end
                &&& t.token_type == st.kind
                &&& t.lexeme@ == old(self)@.src.subrange(old(self)@.start, st.end)
                &&& t.location.line == pos_at(old(self)@.src, old(self)@.start).line
                &&& t.location.column == pos_at(old(self)@.src, old(self)@.start).col
                &&& t.message@ == st.msg
            }),
    {
        match c {
            '(' => self.generate_token(TokenType::LeftParen),
            ')' => self.generate_token(TokenType::RightParen),
            '{' => self.generate_token(TokenType::LeftBrace),
            '}' => self.generate_token(TokenType::RightBrace),
            ',' => self.generate_token(TokenType::Comma),
            '.' => self.generate_token(TokenType::Dot),
            ';' => self.generate_token(TokenType::Semicolon),
            '-' | '+' | '*' | '/' | '%' | '!' | '=' | '<' | '>' => self.handle_operator(c),
            '"' => self.handle_string(),
            _ => self.handle_number_and_identifier(c),
        }
    }

    /// One whole pull: skips ignorable input, then scans exactly one token.
    /// The token produced, the span it covers and the scanner's final state
    /// are precisely those that `spec_scan` names for the old cursor; an
    /// exhausted source yields the `Eof` sentinel.
    fn scan_token(&mut self) -> (t: Token<'a>)
        requires
            old(self)@.wf(),
        ensures
            final(self)@.wf(),
            final(self)@.src == old(self)@.src,
            ({
                let sc = spec_scan(old(self)@.src, old(self)@.cur);
                &&& final(self)@.start == sc.start
                &&& final(self)@.cur == sc.end
                &&& t.token_type == sc.kind
                &&& t.lexeme@ == old(self)@.src.subrange(sc.start, sc.end)
                &&& t.location.line == pos_at(old(self)@.src, sc.start).line
                &&& t.location.column == pos_at(old(self)@.src, sc.start).col
                &&& t.message@ == sc.msg
            }),
    {
        match self.fast_forward() {
            Err(t) => {
                return t;
            },
            Ok(_) => {},
        }
        self.start = self.current;
        self.line = self.current_line;
        self.column = self.current_column;
        match self.advance() {
            None => self.generate_token(TokenType::Eof),
            Some(c) => self.handle_char(c),
        }
    }

    /// Pulls the next token, or `None` once the source is exhausted: the
    /// `Eof` sentinel is consumed here and never surfaced.  The token
    /// returned is exactly the one `spec_scan` names for the old cursor,
    /// with its lexeme the very slice `[start, end)` of the source and its
    /// location the line and column of its first character.
    pub fn next(&mut self) -> (r: Option<Token<'a>>)
        requires
            old(self)@.wf(),
        ensures
            final(self)@.wf(),
            final(self)@.src == old(self)@.src,
            ({
                let sc = spec_scan(old(self)@.src, old(self)@.cur);
                &&& final(self)@.start == sc.start
                &&& final(self)@.cur == sc.end
                &&& (r is None <==> sc.kind == TokenType::Eof)
                &&& (r matches Some(t) ==> {
                    &&& t.token_type == sc.kind
                    &&& t.lexeme@ == old(self)@.src.subrange(sc.start, sc.end)
                    &&& t.location.line == pos_at(old(self)@.src, sc.start).line
                    &&& t.location.column == pos_at(old(self)@.src, sc.start).col
                    &&& t.message@ == sc.msg
                })
            }),
    {
        let t = self.scan_token();
        if t.token_type == TokenType::Eof {
            None
        } else {
            Some(t)
        }
    }
}

} // verus!
