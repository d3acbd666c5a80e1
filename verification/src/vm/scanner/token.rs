use vstd::prelude::*;

verus! {

/// The closed set of lexical units the scanner can produce.
///
/// `Eof` is a sentinel: the scanner consumes it internally to signal the end
/// of the token stream and never hands it to a consumer.  `Error` carries a
/// diagnostic message on the token itself; the scanner never aborts.
#[derive(Debug, PartialEq, Eq, Structural, Clone, Copy)]
pub enum TokenType {
    Error,
    // single-character punctuation
    LeftParen,
    RightParen,
    LeftBrace,
    RightBrace,
    Comma,
    Dot,
    Minus,
    Plus,
    Semicolon,
    Slash,
    Star,
    // one- or two-character operators
    Bang,
    BangEqual,
    Equal,
    EqualEqual,
    Greater,
    GreaterEqual,
    Less,
    LessEqual,
    // literals
    Identifier,
    String,
    Number,
    // reserved words
    And,
    Class,
    Else,
    False,
    Fun,
    For,
    If,
    Nil,
    Or,
    Print,
    Return,
    Super,
    This,
    True,
    Var,
    While,
    Eof,
    // further operators
    Percent,
    StarStar,
    PlusPlus,
    MinusMinus,
    PlusEqual,
    MinusEqual,
    StarEqual,
    SlashEqual,
    PercentEqual,
    Xor,
}

/// The 1-based line and column of a token's first character.
#[derive(Debug, PartialEq, Eq, Structural, Clone, Copy)]
pub struct LocationInfo {
    pub line: u32,
    pub column: u32,
}

impl LocationInfo {
    pub fn new(line: u32, column: u32) -> (l: LocationInfo)
        ensures
            l.line == line,
            l.column == column,
    {
        LocationInfo { line, column }
    }
}

/// One classified span of source text: its kind, the exact slice of the
/// source it was scanned from, and the position of its first character.
/// A token borrows its lexeme from the source buffer and never outlives it.
/// `message` is empty except on `Error` tokens, where it describes the fault.
pub struct Token<'a> {
    pub token_type: TokenType,
    pub lexeme: &'a str,
    pub location: LocationInfo,
    pub message: &'static str,
}

impl<'a> Token<'a> {
    pub fn new(token_type: TokenType, lexeme: &'a str, location: LocationInfo) -> (t: Token<'a>)
        ensures
            t.token_type == token_type,
            t.lexeme == lexeme,
            t.location == location,
            t.message@ == ""@,
    {
        Token { token_type, lexeme, location, message: "" }
    }
}

} // verus!
