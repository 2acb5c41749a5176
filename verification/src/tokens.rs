//! The values that a scan produces: tokens, their kinds and places, and the
//! diagnostics for text that is no token.

use vstd::prelude::*;

verus! {

/// Every lexical category of the language. The set is closed.
#[derive(Debug, Clone, Copy, PartialEq, Eq, Structural)]
pub enum TokenKind {
    // single character tokens
    LeftParen,
    RightParen,
    LeftBrace,
    RightBrace,
    Comma,
    Dot,
    Minus,
    Plus,
    Semicolon,
    ForwardSlash,
    Star,
    // one or two character tokens
    Bang,
    BangEqual,
    Equal,
    EqualEqual,
    Greater,
    GreaterEqual,
    Less,
    LessEqual,
    // literals
    Identifier,
    String,
    Number,
    // keywords
    And,
    Class,
    Else,
    False,
    Fun,
    For,
    If,
    Nil,
    Or,
    Print,
    Return,
    Super,
    This,
    True,
    Var,
    While,
    /// Marks the end of the text; the last token of every scan, and only that.
    EndOfFile,
}

/// A place in the source text. The first field is the offset of a character,
/// counted in characters from the start of the text; the second is the number
/// of the line that the character stands on, the first line being line 0.
#[derive(Debug, Clone, Copy, PartialEq, Eq, Structural)]
pub struct Position(pub usize, pub usize);

/// What a token is, as a mathematical value.
pub struct TokenView {
    pub kind: TokenKind,
    /// The token's text; absent only on the end-of-input marker.
    pub lexeme: Option<Seq<char>>,
    /// Offset of the lexeme's first character.
    pub offset: int,
    /// Line on which the token starts.
    pub line: int,
}

/// One token: its kind, the text it was scanned from, and where that text
/// starts. For a string literal the lexeme is the text between the quotes.
#[derive(Debug, Clone)]
pub struct Token {
    kind: TokenKind,
    lexeme: Option<String>,
    pos: Position,
}

impl View for Token {
    type V = TokenView;

    closed spec fn view(&self) -> TokenView {
        TokenView {
            kind: self.kind,
            lexeme: match self.lexeme {
                Some(text) => Some(text@),
                None => None,
            },
            offset: self.pos.0 as int,
            line: self.pos.1 as int,
        }
    }
}

impl Token {
    pub fn new(kind: TokenKind, lexeme: Option<String>, pos: Position) -> (token: Token)
        ensures
            token@.kind == kind,
            token@.lexeme == match lexeme {
                Some(text) => Some(text@),
                None => None,
            },
            token@.offset == pos.0,
            token@.line == pos.1,
    {
        Token { kind, lexeme, pos }
    }

    /// The token's lexical category.
    pub fn kind(&self) -> (kind: TokenKind)
        ensures
            kind == self@.kind,
    {
        self.kind
    }

    /// The token's text, if it has one.
    pub fn lexeme(&self) -> (lexeme: Option<&str>)
        ensures
            self@.lexeme == match lexeme {
                Some(text) => Some(text@),
                None => None,
            },
    {
        match &self.lexeme {
            Some(text) => Some(text.as_str()),
            None => None,
        }
    }

    /// Where the token's text starts.
    pub fn pos(&self) -> (pos: Position)
        ensures
            pos.0 == self@.offset,
            pos.1 == self@.line,
    {
        self.pos
    }
}

/// The two ways in which a piece of text can fail to be a token.
#[derive(Debug, Clone, Copy, PartialEq, Eq, Structural)]
pub enum LexerErrorKind {
    /// A character with which no token starts.
    UnrecognizedCharacter,
    /// A string literal that is still open where the text ends.
    UnterminatedString,
}

/// What a diagnostic is, as a mathematical value.
pub struct LexerErrorView {
    pub kind: LexerErrorKind,
    pub offset: int,
    pub line: int,
}

/// A diagnostic: what is wrong, and where the offending text starts.
#[derive(Debug, Clone, Copy, PartialEq, Eq, Structural)]
pub struct LexerError {
    pub kind: LexerErrorKind,
    pub pos: Position,
}

impl View for LexerError {
    type V = LexerErrorView;

    open spec fn view(&self) -> LexerErrorView {
        LexerErrorView { kind: self.kind, offset: self.pos.0 as int, line: self.pos.1 as int }
    }
}

impl LexerError {
    /// The text shown to a reader for this diagnostic.
    pub fn message(&self) -> (text: String)
        ensures
            text@ == "lexical analysis error"@,
    {
        String::from_str("lexical analysis error")
    }
}

} // verus!
