//! The scanner: one pass over the text from left to right, looking one
//! character ahead and never going back.

use vstd::prelude::*;
use crate::grammar::{
    end_of_file, in_run, newlines, number_end, run_len, scan_from, step, step_goes_on,
    string_step, word_end, word_kind, Outcome, Run,
};
use crate::laws::scan_from_ends_with_marker;
use crate::tokens::{
    LexerError, LexerErrorKind, LexerErrorView, Position, Token, TokenKind, TokenView,
};

verus! {

/// The state of a scan, as a mathematical value.
pub struct LexerView {
    /// The whole text.
    pub source: Seq<char>,
    /// Offset at which the lexeme in hand starts.
    pub start: int,
    /// Offset of the next character to read.
    pub current: int,
    /// Line of that character.
    pub line: int,
}

/// A scan in progress: the text, and how far the scan has come.
pub struct Lexer {
    source: String,
    length: usize,
    start: usize,
    current: usize,
    line: usize,
}

impl View for Lexer {
    type V = LexerView;

    closed spec fn view(&self) -> LexerView {
        LexerView {
            source: self.source@,
            start: self.start as int,
            current: self.current as int,
            line: self.line as int,
        }
    }
}

/// The mathematical values of a sequence of tokens.
pub open spec fn token_views(tokens: Seq<Token>) -> Seq<TokenView> {
    Seq::new(tokens.len(), |i: int| tokens[i]@)
}

/// The mathematical values of a sequence of diagnostics.
pub open spec fn error_views(errors: Seq<LexerError>) -> Seq<LexerErrorView> {
    Seq::new(errors.len(), |i: int| errors[i]@)
}

/// What one call of `tokenize` hands back, as an outcome of the grammar.
pub open spec fn outcome_of(found: Option<Result<Token, LexerError>>) -> Outcome {
    match found {
        Some(Ok(token)) => Outcome::Emit(token@),
        Some(Err(error)) => Outcome::Fail(error@),
        None => Outcome::Skip,
    }
}

/// Whether `c` belongs to a run of the given sort.
fn belongs(run: Run, c: char) -> (yes: bool)
    ensures
        yes == in_run(run, c),
{
    match run {
        Run::Digits => '0' <= c && c <= '9',
        Run::Word => ('a' <= c && c <= 'z') || ('A' <= c && c <= 'Z') || ('0' <= c && c <= '9')
            || (c > '\u{7f}' && c.is_alphanumeric()),
        Run::Comment => c != '\n',
        Run::Text => c != '"',
    }
}

/// Whether the two texts are the same, character for character.
fn same_text(left: &str, right: &str) -> (same: bool)
    ensures
        same == (left@ == right@),
{
    let n = left.unicode_len();
    if n != right.unicode_len() {
        return false;
    }
    let mut i: usize = 0;
    while i < n
        invariant
            i <= n,
            n == left@.len(),
            n == right@.len(),
            forall|j: int| 0 <= j < i ==> left@[j] == right@[j],
        decreases n - i,
    {
        if left.get_char(i) != right.get_char(i) {
            return false;
        }
        i += 1;
    }
    proof {
        assert(left@ =~= right@);
    }
    true
}

/// The kind of the word `word`: a keyword's or `Identifier`.
fn keyword(word: &str) -> (kind: TokenKind)
    ensures
        kind == word_kind(word@),
{
    if same_text(word, "and") {
        TokenKind::And
    } else if same_text(word, "class") {
        TokenKind::Class
    } else if same_text(word, "else") {
        TokenKind::Else
    } else if same_text(word, "false") {
        TokenKind::False
    } else if same_text(word, "for") {
        TokenKind::For
    } else if same_text(word, "fun") {
        TokenKind::Fun
    } else if same_text(word, "if") {
        TokenKind::If
    } else if same_text(word, "nil") {
        TokenKind::Nil
    } else if same_text(word, "or") {
        TokenKind::Or
    } else if same_text(word, "print") {
        TokenKind::Print
    } else if same_text(word, "return") {
        TokenKind::Return
    } else if same_text(word, "super") {
        TokenKind::Super
    } else if same_text(word, "this") {
        TokenKind::This
    } else if same_text(word, "true") {
        TokenKind::True
    } else if same_text(word, "var") {
        TokenKind::Var
    } else if same_text(word, "while") {
        TokenKind::While
    } else {
        TokenKind::Identifier
    }
}

impl Lexer {
    /// The invariant of a scan: the lexeme in hand starts at or before the
    /// cursor, the cursor is inside the text or at its end, and no more lines
    /// have been counted than characters read.
    pub closed spec fn wf(&self) -> bool {
        &&& self.length == self.source@.len()
        &&& self.start <= self.current <= self.length
        &&& self.line <= self.current
    }

    /// What the invariant says of the state.
    pub proof fn wf_bounds(&self)
        requires
            self.wf(),
        ensures
            0 <= self@.start <= self@.current <= self@.source.len(),
            0 <= self@.line <= self@.current,
    {
    }

    /// A scan of `source` that has read nothing yet: at offset 0, on line 0.
    pub fn new(source: String) -> (lexer: Lexer)
        ensures
            lexer.wf(),
            lexer@ == (LexerView { source: source@, start: 0, current: 0, line: 0 }),
    {
        let length = source.as_str().unicode_len();
        Lexer { source, length, start: 0, current: 0, line: 0 }
    }

    /// Whether the whole text has been read.
    fn end(&self) -> (done: bool)
        requires
            self.wf(),
        ensures
            done == (self@.current >= self@.source.len()),
    {
        self.current >= self.length
    }

    /// Reads one character.
    fn next(&mut self) -> (c: char)
        requires
            old(self).wf(),
            old(self).current < old(self).length,
        ensures
            final(self).wf(),
            c == old(self).source@[old(self).current as int],
            *final(self) == (Lexer { current: (old(self).current + 1) as usize, ..*old(self) }),
    {
        self.current += 1;
        self.source.as_str().get_char(self.current - 1)
    }

    /// The next character, if the text has one left, without reading it.
    fn peek(&self) -> (ahead: Option<char>)
        requires
            self.wf(),
        ensures
            ahead == (if self.current < self.length {
                Some(self.source@[self.current as int])
            } else {
                None
            }),
    {
        if self.current >= self.length {
            None
        } else {
            Some(self.source.as_str().get_char(self.current))
        }
    }

    /// Whether the next character exists and belongs to the run.
    fn follows(&self, run: Run) -> (yes: bool)
        requires
            self.wf(),
        ensures
            yes == (self.current < self.length && in_run(run, self.source@[self.current as int])),
            yes == (run_len(self.source@, self.current as int, run) > 0),
            yes ==> run_len(self.source@, self.current as int, run) == 1 + run_len(
                self.source@,
                self.current + 1,
                run,
            ),
    {
        match self.peek() {
            Some(c) => belongs(run, c),
            None => false,
        }
    }

    /// The token of the given kind whose lexeme is the text from `start` up
    /// to the cursor.
    fn construct(&self, kind: TokenKind) -> (token: Token)
        requires
            self.wf(),
        ensures
            token@ == (TokenView {
                kind,
                lexeme: Some(self.source@.subrange(self.start as int, self.current as int)),
                offset: self.start as int,
                line: self.line as int,
            }),
    {
        let lexeme = String::from_str(
            self.source.as_str().substring_char(self.start, self.current),
        );
        Token::new(kind, Some(lexeme), Position(self.start, self.line))
    }

    /// Reads one more character and gives the token that ends with it.
    fn consume(&mut self, kind: TokenKind) -> (token: Token)
        requires
            old(self).wf(),
            old(self).current < old(self).length,
        ensures
            final(self).wf(),
            *final(self) == (Lexer { current: (old(self).current + 1) as usize, ..*old(self) }),
            token@ == (TokenView {
                kind,
                lexeme: Some(
                    old(self).source@.subrange(old(self).start as int, old(self).current + 1),
                ),
                offset: old(self).start as int,
                line: old(self).line as int,
            }),
    {
        self.current += 1;
        self.construct(kind)
    }

    /// Reads on over the characters of the run, as far as it goes.
    fn skip(&mut self, run: Run)
        requires
            old(self).wf(),
        ensures
            final(self).wf(),
            *final(self) == (Lexer {
                current: (old(self).current + run_len(
                    old(self).source@,
                    old(self).current as int,
                    run,
                )) as usize,
                ..*old(self)
            }),
            final(self).current == old(self).current + run_len(
                old(self).source@,
                old(self).current as int,
                run,
            ),
    {
        let ghost before = *self;
        while self.follows(run)
            invariant
                self.wf(),
                before.wf(),
                *self == (Lexer { current: self.current, ..before }),
                before.current <= self.current,
                self.current + run_len(self.source@, self.current as int, run) == before.current
                    + run_len(before.source@, before.current as int, run),
            decreases self.length - self.current,
        {
            self.next();
        }
    }

    /// Reads a string literal whose opening quote, at `start`, has just been
    /// read: up to and including the closing quote, or to the end of the text
    /// where there is none. Line breaks inside the literal are counted.
    fn stringify(&mut self) -> (found: Result<Token, LexerError>)
        requires
            old(self).wf(),
            old(self).current == old(self).start + 1,
        ensures
            final(self).wf(),
            final(self).source == old(self).source,
            final(self).start == old(self).start,
            final(self).current == string_step(
                old(self).source@,
                old(self).start as int,
                old(self).line as int,
            ).next,
            final(self).line == string_step(
                old(self).source@,
                old(self).start as int,
                old(self).line as int,
            ).line,
            outcome_of(Some(found)) == string_step(
                old(self).source@,
                old(self).start as int,
                old(self).line as int,
            ).outcome,
    {
        let ghost before = *self;
        let opened = Position(self.start, self.line);
        while self.follows(Run::Text)
            invariant
                self.wf(),
                before.wf(),
                *self == (Lexer { current: self.current, line: self.line, ..before }),
                before.current <= self.current,
                self.current + run_len(self.source@, self.current as int, Run::Text)
                    == before.current + run_len(before.source@, before.current as int, Run::Text),
                self.line == before.line + newlines(
                    before.source@,
                    before.current as int,
                    self.current as int,
                ),
            decreases self.length - self.current,
        {
            let c = self.next();
            if c == '\n' {
                self.line += 1;
            }
        }
        if self.end() {
            return Err(LexerError { kind: LexerErrorKind::UnterminatedString, pos: opened });
        }
        self.next();
        let lexeme = String::from_str(
            self.source.as_str().substring_char(self.start + 1, self.current - 1),
        );
        Ok(Token::new(TokenKind::String, Some(lexeme), Position(opened.0 + 1, opened.1)))
    }

    /// Reads the rest of a number whose first digit, at `start`, has just
    /// been read.
    fn numberify(&mut self) -> (found: Result<Token, LexerError>)
        requires
            old(self).wf(),
            old(self).current == old(self).start + 1,
        ensures
            final(self).wf(),
            *final(self) == (Lexer {
                current: number_end(old(self).source@, old(self).start as int) as usize,
                ..*old(self)
            }),
            final(self).current == number_end(old(self).source@, old(self).start as int),
            found is Ok,
            found->Ok_0@ == (TokenView {
                kind: TokenKind::Number,
                lexeme: Some(
                    old(self).source@.subrange(
                        old(self).start as int,
                        number_end(old(self).source@, old(self).start as int),
                    ),
                ),
                offset: old(self).start as int,
                line: old(self).line as int,
            }),
    {
        self.skip(Run::Digits);
        if self.length - self.current >= 2 {
            if let Some('.') = self.peek() {
                self.next();
                self.skip(Run::Digits);
            }
        }
        Ok(self.construct(TokenKind::Number))
    }

    /// Reads the rest of a word whose first character, at `start`, has just
    /// been read, and tells a keyword from a name.
    fn identifierify(&mut self) -> (found: Result<Token, LexerError>)
        requires
            old(self).wf(),
            old(self).current == old(self).start + 1,
        ensures
            final(self).wf(),
            *final(self) == (Lexer {
                current: word_end(old(self).source@, old(self).start as int) as usize,
                ..*old(self)
            }),
            final(self).current == word_end(old(self).source@, old(self).start as int),
            found is Ok,
            found->Ok_0@ == (TokenView {
                kind: word_kind(
                    old(self).source@.subrange(
                        old(self).start as int,
                        word_end(old(self).source@, old(self).start as int),
                    ),
                ),
                lexeme: Some(
                    old(self).source@.subrange(
                        old(self).start as int,
                        word_end(old(self).source@, old(self).start as int),
                    ),
                ),
                offset: old(self).start as int,
                line: old(self).line as int,
            }),
    {
        self.skip(Run::Word);
        let kind = keyword(self.source.as_str().substring_char(self.start, self.current));
        Ok(self.construct(kind))
    }

    /// Reads what stands at the cursor: one token, one stretch of text that
    /// gives none, or one piece of text that is in error.
    fn tokenize(&mut self) -> (found: Option<Result<Token, LexerError>>)
        requires
            old(self).wf(),
            old(self).start == old(self).current,
            old(self).current < old(self).length,
        ensures
            final(self).wf(),
            final(self).source == old(self).source,
            final(self).start == old(self).start,
            final(self).current == step(
                old(self).source@,
                old(self).current as int,
                old(self).line as int,
            ).next,
            final(self).line == step(
                old(self).source@,
                old(self).current as int,
                old(self).line as int,
            ).line,
            outcome_of(found) == step(
                old(self).source@,
                old(self).current as int,
                old(self).line as int,
            ).outcome,
    {
        match self.next() {
            '(' => Some(Ok(self.construct(TokenKind::LeftParen))),
            ')' => Some(Ok(self.construct(TokenKind::RightParen))),
            '{' => Some(Ok(self.construct(TokenKind::LeftBrace))),
            '}' => Some(Ok(self.construct(TokenKind::RightBrace))),
            ',' => Some(Ok(self.construct(TokenKind::Comma))),
            '.' => Some(Ok(self.construct(TokenKind::Dot))),
            '-' => Some(Ok(self.construct(TokenKind::Minus))),
            '+' => Some(Ok(self.construct(TokenKind::Plus))),
            ';' => Some(Ok(self.construct(TokenKind::Semicolon))),
            '*' => Some(Ok(self.construct(TokenKind::Star))),
            '!' => match self.peek() {
                Some('=') => Some(Ok(self.consume(TokenKind::BangEqual))),
                _ => Some(Ok(self.construct(TokenKind::Bang))),
            },
            '=' => match self.peek() {
                Some('=') => Some(Ok(self.consume(TokenKind::EqualEqual))),
                _ => Some(Ok(self.construct(TokenKind::Equal))),
            },
            '<' => match self.peek() {
                Some('=') => Some(Ok(self.consume(TokenKind::LessEqual))),
                _ => Some(Ok(self.construct(TokenKind::Less))),
            },
            '>' => match self.peek() {
                Some('=') => Some(Ok(self.consume(TokenKind::GreaterEqual))),
                _ => Some(Ok(self.construct(TokenKind::Greater))),
            },
            '/' => match self.peek() {
                Some('/') => {
                    self.next();
                    self.skip(Run::Comment);
                    None
                },
                _ => Some(Ok(self.construct(TokenKind::ForwardSlash))),
            },
            ' ' | '\r' | '\t' => None,
            '\n' => {
                self.line += 1;
                None
            },
            '"' => Some(self.stringify()),
            '0'..='9' => Some(self.numberify()),
            'a'..='z' | 'A'..='Z' | '_' => Some(self.identifierify()),
            _ => Some(
                Err(
                    LexerError {
                        kind: LexerErrorKind::UnrecognizedCharacter,
                        pos: Position(self.start, self.line),
                    },
                ),
            ),
        }
    }

    /// Scans the text from the cursor to its end. The tokens come back in the
    /// order of the text, the end-of-input marker last; beside them come the
    /// diagnostics, one for each piece of text that is no token, in the order
    /// of the text too. A piece in error gives no token and does not stop the
    /// scan. On a scanner fresh from `new` this is the scan of the whole text.
    pub fn lex(&mut self) -> (found: (Vec<Token>, Vec<LexerError>))
        requires
            old(self).wf(),
        ensures
            final(self).wf(),
            final(self)@.source == old(self)@.source,
            final(self)@.current == old(self)@.source.len(),
            final(self)@.line >= old(self)@.line,
            token_views(found.0@) == scan_from(
                old(self)@.source,
                old(self)@.current,
                old(self)@.line,
            ).tokens,
            error_views(found.1@) == scan_from(
                old(self)@.source,
                old(self)@.current,
                old(self)@.line,
            ).errors,
            found.0@.len() >= 1,
            found.0@.last()@ == end_of_file(
                old(self)@.source.len() as int,
                final(self)@.line,
            ),
            forall|i: int|
                0 <= i < found.0@.len() - 1 ==> {
                    &&& (#[trigger] found.0@[i])@.lexeme is Some
                    &&& found.0@[i]@.kind != TokenKind::EndOfFile
                },
    {
        let ghost src = self.source@;
        let ghost whole = scan_from(src, self.current as int, self.line as int);
        let mut tokens: Vec<Token> = Vec::new();
        let mut errors: Vec<LexerError> = Vec::new();
        assert(token_views(tokens@) + whole.tokens =~= whole.tokens);
        assert(error_views(errors@) + whole.errors =~= whole.errors);
        while !self.end()
            invariant
                self.wf(),
                self.source@ == src,
                whole.tokens == token_views(tokens@) + scan_from(
                    src,
                    self.current as int,
                    self.line as int,
                ).tokens,
                whole.errors == error_views(errors@) + scan_from(
                    src,
                    self.current as int,
                    self.line as int,
                ).errors,
            decreases self.length - self.current,
        {
            let ghost rest = scan_from(src, self.current as int, self.line as int);
            let ghost here = step(src, self.current as int, self.line as int);
            let ghost seen_tokens = token_views(tokens@);
            let ghost seen_errors = error_views(errors@);
            proof {
                step_goes_on(src, self.current as int, self.line as int);
            }
            self.start = self.current;
            match self.tokenize() {
                Some(Ok(token)) => {
                    tokens.push(token);
                    proof {
                        let after = scan_from(src, self.current as int, self.line as int);
                        assert(token_views(tokens@) =~= seen_tokens + seq![token@]);
                        assert(seen_tokens + (seq![token@] + after.tokens) =~= (seen_tokens
                            + seq![token@]) + after.tokens);
                    }
                },
                Some(Err(error)) => {
                    errors.push(error);
                    proof {
                        let after = scan_from(src, self.current as int, self.line as int);
                        assert(error_views(errors@) =~= seen_errors + seq![error@]);
                        assert(seen_errors + (seq![error@] + after.errors) =~= (seen_errors
                            + seq![error@]) + after.errors);
                    }
                },
                None => {},
            }
        }
        let ghost seen_tokens = token_views(tokens@);
        let last = Token::new(TokenKind::EndOfFile, None, Position(self.current, self.line));
        tokens.push(last);
        proof {
            assert(token_views(tokens@) =~= seen_tokens + seq![last@]);
            assert(error_views(errors@) + Seq::<LexerErrorView>::empty() =~= error_views(errors@));
            scan_from_ends_with_marker(src, old(self).current as int, old(self).line as int);
            assert forall|i: int| 0 <= i < tokens@.len() - 1 implies {
                &&& (#[trigger] tokens@[i])@.lexeme is Some
                &&& tokens@[i]@.kind != TokenKind::EndOfFile
            } by {
                assert(tokens@[i]@ == whole.tokens[i]);
            }
        }
        (tokens, errors)
    }
}

} // verus!
