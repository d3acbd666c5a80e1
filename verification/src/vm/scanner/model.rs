//! The mathematical model of the scanner: what token starts at a given
//! character offset of a source text, where it ends, and at which line and
//! column it stands.  The executable scanner is specified against these
//! functions, and the laws at the bottom of the file are proved from them.

use vstd::prelude::*;

use crate::vm::scanner::token::TokenType;

verus! {

/// A 1-based (line, column) source position.
pub struct Pos {
    pub line: int,
    pub col: int,
}

/// The position directly after a character read at position `p`: a newline
/// opens the next line at column 1, anything else moves one column right.
pub open spec fn adv_pos(p: Pos, c: char) -> Pos {
    if c == '\n' {
        Pos { line: p.line + 1, col: 1 }
    } else {
        Pos { line: p.line, col: p.col + 1 }
    }
}

/// The position of the character at offset `j` of `s`: offset 0 is line 1,
/// column 1, and every earlier character advances the position in turn.
pub open spec fn pos_at(s: Seq<char>, j: int) -> Pos
    decreases j,
{
    if j <= 0 {
        Pos { line: 1, col: 1 }
    } else {
        adv_pos(pos_at(s, j - 1), s[j - 1])
    }
}

/// Lexicographic order on positions: `a` does not come after `b`.
pub open spec fn pos_le(a: Pos, b: Pos) -> bool {
    a.line < b.line || (a.line == b.line && a.col <= b.col)
}

/// Lines and columns are 1-based and can each grow by at most one per
/// character read, so both stay within one of the offset.
pub proof fn lemma_pos_at_bounds(s: Seq<char>, j: int)
    requires
        0 <= j,
    ensures
        1 <= pos_at(s, j).line <= j + 1,
        1 <= pos_at(s, j).col <= j + 1,
    decreases j,
{
    if j > 0 {
        lemma_pos_at_bounds(s, j - 1);
    }
}

/// Reading forward never moves the position back: it is lexicographically
/// monotone in the offset.
pub proof fn lemma_pos_at_monotonic(s: Seq<char>, i: int, j: int)
    requires
        0 <= i <= j,
    ensures
        pos_le(pos_at(s, i), pos_at(s, j)),
    decreases j,
{
    if i < j {
        lemma_pos_at_monotonic(s, i, j - 1);
        lemma_pos_at_bounds(s, j - 1);
    }
}

/// An ASCII decimal digit.
pub open spec fn is_digit(c: char) -> bool {
    48 <= c as u32 && c as u32 <= 57
}

/// An ASCII letter or underscore: what may start an identifier.
pub open spec fn is_alpha(c: char) -> bool {
    (97 <= c as u32 && c as u32 <= 122) || (65 <= c as u32 && c as u32 <= 90) || c == '_'
}

/// What may continue an identifier.
pub open spec fn is_alnum(c: char) -> bool {
    is_alpha(c) || is_digit(c)
}

/// A character with the Unicode `White_Space` property; the scanner skips
/// runs of these between tokens.
pub open spec fn is_space(c: char) -> bool {
    let u = c as u32;
    (9 <= u && u <= 13) || u == 32 || u == 0x85 || u == 0xA0 || u == 0x1680 || (0x2000 <= u && u
        <= 0x200A) || u == 0x2028 || u == 0x2029 || u == 0x202F || u == 0x205F || u == 0x3000
}

/// A character that opens a one- or two-character operator.
pub open spec fn is_op_char(c: char) -> bool {
    c == '-' || c == '+' || c == '*' || c == '/' || c == '%' || c == '!' || c == '=' || c == '<'
        || c == '>'
}

/// Where skipping whitespace and comments from a given offset ends.
pub enum SkipResult {
    /// Scanning may resume at offset `j`: either the end of the source, or a
    /// character that starts a token.
    Clean { j: int },
    /// A block comment opened at offset `cstart` and never closed; the skip
    /// consumed the rest of the source.
    BadComment { cstart: int },
}

/// Skips whitespace, line comments and block comments from offset `i`.
pub open spec fn skip_at(s: Seq<char>, i: int) -> SkipResult
    decreases s.len() - i, 2int,
{
    if i < 0 || i >= s.len() {
        SkipResult::Clean { j: i }
    } else if is_space(s[i]) {
        skip_at(s, i + 1)
    } else if s[i] == '/' && i + 1 < s.len() && s[i + 1] == '/' {
        skip_line_comment(s, i + 2)
    } else if s[i] == '/' && i + 1 < s.len() && s[i + 1] == '*' {
        skip_block_comment(s, i + 2, i)
    } else {
        SkipResult::Clean { j: i }
    }
}

/// Inside a `//` comment at offset `i`: runs to the newline (consumed) or to
/// the end of the source, then resumes the ordinary skip.
pub open spec fn skip_line_comment(s: Seq<char>, i: int) -> SkipResult
    decreases s.len() - i, 1int,
{
    if i < 0 || i >= s.len() {
        SkipResult::Clean { j: i }
    } else if s[i] == '\n' {
        skip_at(s, i + 1)
    } else {
        skip_line_comment(s, i + 1)
    }
}

/// Inside a `/*` comment opened at `cstart`, reading at offset `i`: the first
/// `*/` closes it (comments do not nest); a missing terminator is a fault.
pub open spec fn skip_block_comment(s: Seq<char>, i: int, cstart: int) -> SkipResult
    decreases s.len() - i, 1int,
{
    if i < 0 || i >= s.len() {
        SkipResult::BadComment { cstart }
    } else if s[i] == '*' && i + 1 < s.len() && s[i + 1] == '/' {
        skip_at(s, i + 2)
    } else {
        skip_block_comment(s, i + 1, cstart)
    }
}

/// The offset of the first non-digit at or after `i`.
pub open spec fn digit_end(s: Seq<char>, i: int) -> int
    decreases s.len() - i,
{
    if i < 0 || i >= s.len() || !is_digit(s[i]) {
        i
    } else {
        digit_end(s, i + 1)
    }
}

/// The offset of the first character at or after `i` that cannot continue an
/// identifier.
pub open spec fn ident_end(s: Seq<char>, i: int) -> int
    decreases s.len() - i,
{
    if i < 0 || i >= s.len() || !is_alnum(s[i]) {
        i
    } else {
        ident_end(s, i + 1)
    }
}

/// The offset of the first `"` at or after `i`, or the length of `s` if none
/// remains.
pub open spec fn quote_end(s: Seq<char>, i: int) -> int
    decreases s.len() - i,
{
    if i < 0 || i >= s.len() {
        s.len() as int
    } else if s[i] == '"' {
        i
    } else {
        quote_end(s, i + 1)
    }
}

/// The reserved-word table: the kind an exact identifier spelling is mapped
/// to, or `Identifier` for every other spelling.
pub open spec fn keyword_kind(s: Seq<char>) -> TokenType {
    if s == "false"@ {
        TokenType::False
    } else if s == "true"@ {
        TokenType::True
    } else if s == "and"@ {
        TokenType::And
    } else if s == "or"@ {
        TokenType::Or
    } else if s == "xor"@ {
        TokenType::Xor
    } else if s == "if"@ {
        TokenType::If
    } else if s == "else"@ {
        TokenType::Else
    } else if s == "while"@ {
        TokenType::While
    } else if s == "for"@ {
        TokenType::For
    } else if s == "var"@ {
        TokenType::Var
    } else if s == "fun"@ {
        TokenType::Fun
    } else if s == "class"@ {
        TokenType::Class
    } else if s == "print"@ {
        TokenType::Print
    } else if s == "return"@ {
        TokenType::Return
    } else if s == "super"@ {
        TokenType::Super
    } else if s == "this"@ {
        TokenType::This
    } else if s == "nil"@ {
        TokenType::Nil
    } else {
        TokenType::Identifier
    }
}

/// The kind of a token, the offset directly after it, and its diagnostic
/// message (empty unless the kind is `Error`).
pub struct ScanStep {
    pub kind: TokenType,
    pub end: int,
    pub msg: Seq<char>,
}

/// Maximal munch on an operator character at offset `i`: the two-character
/// spelling is preferred wherever the next character completes one.
pub open spec fn op_token(s: Seq<char>, i: int) -> ScanStep
    recommends
        0 <= i < s.len(),
        is_op_char(s[i]),
{
    let c = s[i];
    let two = i + 1 < s.len();
    if c == '-' {
        if two && s[i + 1] == '-' {
            ScanStep { kind: TokenType::MinusMinus, end: i + 2, msg: ""@ }
        } else if two && s[i + 1] == '=' {
            ScanStep { kind: TokenType::MinusEqual, end: i + 2, msg: ""@ }
        } else {
            ScanStep { kind: TokenType::Minus, end: i + 1, msg: ""@ }
        }
    } else if c == '+' {
        if two && s[i + 1] == '+' {
            ScanStep { kind: TokenType::PlusPlus, end: i + 2, msg: ""@ }
        } else if two && s[i + 1] == '=' {
            ScanStep { kind: TokenType::PlusEqual, end: i + 2, msg: ""@ }
        } else {
            ScanStep { kind: TokenType::Plus, end: i + 1, msg: ""@ }
        }
    } else if c == '*' {
        if two && s[i + 1] == '*' {
            ScanStep { kind: TokenType::StarStar, end: i + 2, msg: ""@ }
        } else if two && s[i + 1] == '=' {
            ScanStep { kind: TokenType::StarEqual, end: i + 2, msg: ""@ }
        } else {
            ScanStep { kind: TokenType::Star, end: i + 1, msg: ""@ }
        }
    } else if c == '/' {
        if two && s[i + 1] == '=' {
            ScanStep { kind: TokenType::SlashEqual, end: i + 2, msg: ""@ }
        } else {
            ScanStep { kind: TokenType::Slash, end: i + 1, msg: ""@ }
        }
    } else if c == '%' {
        if two && s[i + 1] == '=' {
            ScanStep { kind: TokenType::PercentEqual, end: i + 2, msg: ""@ }
        } else {
            ScanStep { kind: TokenType::Percent, end: i + 1, msg: ""@ }
        }
    } else if c == '!' {
        if two && s[i + 1] == '=' {
            ScanStep { kind: TokenType::BangEqual, end: i + 2, msg: ""@ }
        } else {
            ScanStep { kind: TokenType::Bang, end: i + 1, msg: ""@ }
        }
    } else if c == '=' {
        if two && s[i + 1] == '=' {
            ScanStep { kind: TokenType::EqualEqual, end: i + 2, msg: ""@ }
        } else {
            ScanStep { kind: TokenType::Equal, end: i + 1, msg: ""@ }
        }
    } else if c == '<' {
        if two && s[i + 1] == '=' {
            ScanStep { kind: TokenType::LessEqual, end: i + 2, msg: ""@ }
        } else {
            ScanStep { kind: TokenType::Less, end: i + 1, msg: ""@ }
        }
    } else {
        if two && s[i + 1] == '=' {
            ScanStep { kind: TokenType::GreaterEqual, end: i + 2, msg: ""@ }
        } else {
            ScanStep { kind: TokenType::Greater, end: i + 1, msg: ""@ }
        }
    }
}

/// A numeric literal whose first digit stands at offset `i`: a digit run,
/// continued past a decimal point only when a digit follows the point.  A
/// point with no digit after it is a fault; the point is not consumed.
pub open spec fn number_token(s: Seq<char>, i: int) -> ScanStep
    recommends
        0 <= i < s.len(),
        is_digit(s[i]),
{
    let d = digit_end(s, i + 1);
    if d < s.len() && s[d] == '.' {
        if d + 1 < s.len() && is_digit(s[d + 1]) {
            ScanStep { kind: TokenType::Number, end: digit_end(s, d + 1), msg: ""@ }
        } else {
            ScanStep { kind: TokenType::Error, end: d, msg: "invalid number with trailing '.'"@ }
        }
    } else {
        ScanStep { kind: TokenType::Number, end: d, msg: ""@ }
    }
}

/// A string literal whose opening quote stands at offset `i`: everything up
/// to and including the closing quote, newlines included; a missing closing
/// quote consumes the rest of the source and is a fault.
pub open spec fn string_token(s: Seq<char>, i: int) -> ScanStep
    recommends
        0 <= i < s.len(),
        s[i] == '"',
{
    let q = quote_end(s, i + 1);
    if q < s.len() {
        ScanStep { kind: TokenType::String, end: q + 1, msg: ""@ }
    } else {
        ScanStep { kind: TokenType::Error, end: s.len() as int, msg: "unterminated string"@ }
    }
}

/// An identifier or reserved word whose first character stands at offset `i`:
/// the full alphanumeric-or-underscore run, resolved against the
/// reserved-word table.
pub open spec fn ident_token(s: Seq<char>, i: int) -> ScanStep
    recommends
        0 <= i < s.len(),
        is_alpha(s[i]),
{
    let e = ident_end(s, i + 1);
    ScanStep { kind: keyword_kind(s.subrange(i, e)), end: e, msg: ""@ }
}

/// The token that starts at offset `i`, which must hold a character; the
/// caller has already skipped whitespace and comments.
pub open spec fn token_at(s: Seq<char>, i: int) -> ScanStep
    recommends
        0 <= i < s.len(),
{
    let c = s[i];
    if c == '(' {
        ScanStep { kind: TokenType::LeftParen, end: i + 1, msg: ""@ }
    } else if c == ')' {
        ScanStep { kind: TokenType::RightParen, end: i + 1, msg: ""@ }
    } else if c == '{' {
        ScanStep { kind: TokenType::LeftBrace, end: i + 1, msg: ""@ }
    } else if c == '}' {
        ScanStep { kind: TokenType::RightBrace, end: i + 1, msg: ""@ }
    } else if c == ',' {
        ScanStep { kind: TokenType::Comma, end: i + 1, msg: ""@ }
    } else if c == '.' {
        ScanStep { kind: TokenType::Dot, end: i + 1, msg: ""@ }
    } else if c == ';' {
        ScanStep { kind: TokenType::Semicolon, end: i + 1, msg: ""@ }
    } else if is_op_char(c) {
        op_token(s, i)
    } else if c == '"' {
        string_token(s, i)
    } else if is_digit(c) {
        number_token(s, i)
    } else if is_alpha(c) {
        ident_token(s, i)
    } else {
        ScanStep { kind: TokenType::Error, end: i + 1, msg: "invalid character"@ }
    }
}

/// One whole pull on the scanner from offset `i`: the kind of the token
/// produced, the offsets where its lexeme starts and ends, and its message.
/// The span `[i, start)` is the skipped whitespace and comments; the token's
/// location is `pos_at(s, start)`.  Kind `Eof` marks the end of the stream.
pub struct SpecScan {
    pub kind: TokenType,
    pub start: int,
    pub end: int,
    pub msg: Seq<char>,
}

/// What a pull on the scanner yields from offset `i` of source `s`.
pub open spec fn spec_scan(s: Seq<char>, i: int) -> SpecScan
    recommends
        0 <= i <= s.len(),
{
    match skip_at(s, i) {
        SkipResult::BadComment { cstart } => SpecScan {
            kind: TokenType::Error,
            start: cstart,
            end: s.len() as int,
            msg: "Unterminated block comment"@,
        },
        SkipResult::Clean { j } => {
            if j >= s.len() {
                SpecScan { kind: TokenType::Eof, start: j, end: j, msg: ""@ }
            } else {
                let st = token_at(s, j);
                SpecScan { kind: st.kind, start: j, end: st.end, msg: st.msg }
            }
        },
    }
}

/// Whether the token stream from offset `i` holds an `Error` token at or
/// before the point where the consumer would stop: the first `Error` ends a
/// compile, so tokens after it are never pulled.
pub open spec fn spec_has_error(s: Seq<char>, i: int) -> bool
    decreases s.len() - i,
    when 0 <= i <= s.len()
{
    let sc = spec_scan(s, i);
    if sc.kind == TokenType::Eof {
        false
    } else if sc.kind == TokenType::Error {
        true
    } else {
        proof {
            lemma_scan_bounds(s, i);
        }
        spec_has_error(s, sc.end)
    }
}

/// The skip never moves backward, and a bad block comment opens strictly
/// inside the source, at least two characters before its end.
pub proof fn lemma_skip_at_bounds(s: Seq<char>, i: int)
    requires
        0 <= i <= s.len(),
    ensures
        match skip_at(s, i) {
            SkipResult::Clean { j } => i <= j <= s.len(),
            SkipResult::BadComment { cstart } => i <= cstart && cstart + 1 < s.len(),
        },
    decreases s.len() - i, 2int,
{
    if i < s.len() {
        if is_space(s[i]) {
            lemma_skip_at_bounds(s, i + 1);
        } else if s[i] == '/' && i + 1 < s.len() && s[i + 1] == '/' {
            lemma_skip_line_comment_bounds(s, i + 2);
        } else if s[i] == '/' && i + 1 < s.len() && s[i + 1] == '*' {
            lemma_skip_block_comment_bounds(s, i + 2, i);
        }
    }
}

/// As `lemma_skip_at_bounds`, from inside a line comment.
pub proof fn lemma_skip_line_comment_bounds(s: Seq<char>, i: int)
    requires
        0 <= i <= s.len(),
    ensures
        match skip_line_comment(s, i) {
            SkipResult::Clean { j } => i <= j <= s.len(),
            SkipResult::BadComment { cstart } => i <= cstart && cstart + 1 < s.len(),
        },
    decreases s.len() - i, 1int,
{
    if i < s.len() {
        if s[i] == '\n' {
            lemma_skip_at_bounds(s, i + 1);
        } else {
            lemma_skip_line_comment_bounds(s, i + 1);
        }
    }
}

/// As `lemma_skip_at_bounds`, from inside a block comment: a fault names
/// either this comment's own opening offset or that of a later comment.
pub proof fn lemma_skip_block_comment_bounds(s: Seq<char>, i: int, cstart: int)
    requires
        0 <= i <= s.len(),
        0 <= cstart,
        cstart + 1 < s.len(),
    ensures
        match skip_block_comment(s, i, cstart) {
            SkipResult::Clean { j } => i <= j <= s.len(),
            SkipResult::BadComment { cstart: c } => c == cstart || (i <= c && c + 1 < s.len()),
        },
    decreases s.len() - i, 1int,
{
    if i < s.len() {
        if s[i] == '*' && i + 1 < s.len() && s[i + 1] == '/' {
            lemma_skip_at_bounds(s, i + 2);
        } else {
            lemma_skip_block_comment_bounds(s, i + 1, cstart);
        }
    }
}

/// A digit run neither moves backward nor leaves the source.
pub proof fn lemma_digit_end_bounds(s: Seq<char>, i: int)
    requires
        0 <= i <= s.len(),
    ensures
        i <= digit_end(s, i) <= s.len(),
    decreases s.len() - i,
{
    if i < s.len() && is_digit(s[i]) {
        lemma_digit_end_bounds(s, i + 1);
    }
}

/// An identifier run neither moves backward nor leaves the source.
pub proof fn lemma_ident_end_bounds(s: Seq<char>, i: int)
    requires
        0 <= i <= s.len(),
    ensures
        i <= ident_end(s, i) <= s.len(),
    decreases s.len() - i,
{
    if i < s.len() && is_alnum(s[i]) {
        lemma_ident_end_bounds(s, i + 1);
    }
}

/// The search for a closing quote neither moves backward nor leaves the
/// source.
pub proof fn lemma_quote_end_bounds(s: Seq<char>, i: int)
    requires
        0 <= i <= s.len(),
    ensures
        i <= quote_end(s, i) <= s.len(),
    decreases s.len() - i,
{
    if i < s.len() && s[i] != '"' {
        lemma_quote_end_bounds(s, i + 1);
    }
}

/// Every pull is well-bounded: the skipped span and the lexeme follow one
/// another within the source, every real token holds at least one character,
/// and only the end-of-stream pull stands at the very end with an empty span.
pub proof fn lemma_scan_bounds(s: Seq<char>, i: int)
    requires
        0 <= i <= s.len(),
    ensures
        ({
            let sc = spec_scan(s, i);
            &&& i <= sc.start <= sc.end <= s.len()
            &&& (sc.kind != TokenType::Eof ==> sc.start < sc.end)
            &&& (sc.kind == TokenType::Eof ==> sc.start == sc.end == s.len() as int)
        }),
{
    lemma_skip_at_bounds(s, i);
    match skip_at(s, i) {
        SkipResult::BadComment { cstart } => {},
        SkipResult::Clean { j } => {
            if j < s.len() {
                let c = s[j];
                if is_op_char(c) {
                } else if c == '"' {
                    lemma_quote_end_bounds(s, j + 1);
                } else if is_digit(c) {
                    lemma_digit_end_bounds(s, j + 1);
                    let d = digit_end(s, j + 1);
                    if d < s.len() && s[d] == '.' && d + 1 < s.len() && is_digit(s[d + 1]) {
                        lemma_digit_end_bounds(s, d + 1);
                    }
                } else if is_alpha(c) {
                    lemma_ident_end_bounds(s, j + 1);
                }
            }
        },
    }
}

/// The whole token sequence of a source text from offset `i`: one entry per
/// pull, ending where the end-of-stream sentinel would be produced.
pub open spec fn spec_tokens(s: Seq<char>, i: int) -> Seq<SpecScan>
    decreases s.len() - i,
    when 0 <= i <= s.len()
{
    let sc = spec_scan(s, i);
    if sc.kind == TokenType::Eof {
        Seq::empty()
    } else {
        proof {
            lemma_scan_bounds(s, i);
        }
        seq![sc] + spec_tokens(s, sc.end)
    }
}

/// Determinism: a pull is a function of the source text and the cursor
/// alone, so scanning the same source twice — from two scanners in the same
/// state — yields identical tokens, and identical whole streams.
pub proof fn lemma_scan_deterministic(s1: Seq<char>, s2: Seq<char>, i: int)
    requires
        s1 == s2,
        0 <= i <= s1.len(),
    ensures
        spec_scan(s1, i) == spec_scan(s2, i),
        spec_tokens(s1, i) == spec_tokens(s2, i),
{
}

/// The source text reassembled from the stream that starts at offset `i`:
/// for each token in turn, the skipped whitespace-and-comment span before it
/// followed by its exact lexeme, closed by the skipped span before the end
/// of the stream.
pub open spec fn spec_concat(s: Seq<char>, i: int) -> Seq<char>
    decreases s.len() - i,
    when 0 <= i <= s.len()
{
    let sc = spec_scan(s, i);
    if sc.kind == TokenType::Eof {
        s.subrange(i, sc.start)
    } else {
        proof {
            lemma_scan_bounds(s, i);
        }
        s.subrange(i, sc.start) + s.subrange(sc.start, sc.end) + spec_concat(s, sc.end)
    }
}

/// Round trip: concatenating each token's lexeme with the exact skipped
/// spans between tokens reconstructs the scanned part of the source,
/// character for character.
pub proof fn lemma_round_trip(s: Seq<char>, i: int)
    requires
        0 <= i <= s.len(),
    ensures
        spec_concat(s, i) == s.subrange(i, s.len() as int),
    decreases s.len() - i,
{
    let sc = spec_scan(s, i);
    lemma_scan_bounds(s, i);
    if sc.kind == TokenType::Eof {
    } else {
        lemma_round_trip(s, sc.end);
        assert(s.subrange(i, sc.start) + s.subrange(sc.start, sc.end) + s.subrange(
            sc.end,
            s.len() as int,
        ) =~= s.subrange(i, s.len() as int));
    }
}

/// Round trip over the whole text: from the first character, the
/// reassembled stream is the source itself.
pub proof fn lemma_round_trip_whole(s: Seq<char>)
    ensures
        spec_concat(s, 0) == s,
{
    lemma_round_trip(s, 0);
    assert(s.subrange(0, s.len() as int) =~= s);
}

/// Every token of the stream from `i` starts inside `[i, len]`.
pub proof fn lemma_token_start_bounds(s: Seq<char>, i: int, k: int)
    requires
        0 <= i <= s.len(),
        0 <= k < spec_tokens(s, i).len(),
    ensures
        i <= spec_tokens(s, i)[k].start <= s.len(),
    decreases s.len() - i,
{
    let sc = spec_scan(s, i);
    lemma_scan_bounds(s, i);
    if k > 0 {
        lemma_token_start_bounds(s, sc.end, k - 1);
    }
}

/// Monotonic position: of any two tokens produced in order, the later one's
/// (line, column) is not lexicographically smaller than the earlier one's.
pub proof fn lemma_positions_monotonic(s: Seq<char>, i: int, a: int, b: int)
    requires
        0 <= i <= s.len(),
        0 <= a <= b < spec_tokens(s, i).len(),
    ensures
        pos_le(
            pos_at(s, spec_tokens(s, i)[a].start),
            pos_at(s, spec_tokens(s, i)[b].start),
        ),
    decreases s.len() - i,
{
    let sc = spec_scan(s, i);
    lemma_scan_bounds(s, i);
    if a == 0 {
        if b > 0 {
            lemma_token_start_bounds(s, sc.end, b - 1);
            lemma_pos_at_monotonic(s, sc.start, spec_tokens(s, i)[b].start);
        }
    } else {
        lemma_positions_monotonic(s, sc.end, a - 1, b - 1);
    }
}

} // verus!
