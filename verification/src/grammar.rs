//! The language's lexical grammar, as functions over sequences of characters.
//!
//! `scan` says which tokens and which diagnostics a text gives. It is built
//! from `step`, which says what stands at one place in the text and how far it
//! reaches. Offsets count characters, not bytes, and lines count from 0.
//!
//! Three choices are made here where the language leaves room:
//!
//! * A token is placed where its lexeme starts, on the line of that
//!   character. For a string literal that is the character after the opening
//!   quote, also where the literal runs over several lines.
//! * A name starts with an ASCII letter or `_` and goes on over every
//!   alphanumeric character: the ASCII letters and digits, and the letters
//!   and digits outside ASCII, as `alphanumeric` tells them. `_` is not
//!   alphanumeric and so ends a name; a letter outside ASCII continues a name
//!   but cannot start one.
//! * A `.` straight after the digits of a number belongs to the number
//!   whenever at least one more character follows the dot, whatever that
//!   character is; digits after the dot then belong to the number too. A dot
//!   that is the last character of the text is a token of its own.

use vstd::prelude::*;
use crate::tokens::{LexerErrorKind, LexerErrorView, TokenKind, TokenView};

verus! {

/// The ASCII digits.
pub open spec fn is_digit(c: char) -> bool {
    '0' <= c <= '9'
}

/// The ASCII letters, small and capital.
pub open spec fn is_letter(c: char) -> bool {
    ('a' <= c <= 'z') || ('A' <= c <= 'Z')
}

/// The characters that are passed over without a token or a change of line.
pub open spec fn is_space(c: char) -> bool {
    c == ' ' || c == '\r' || c == '\t'
}

/// The characters with which a name or keyword starts.
pub open spec fn starts_word(c: char) -> bool {
    is_letter(c) || c == '_'
}

/// Whether `c` is a letter or a digit in the sense of Unicode: what
/// `char::is_alphanumeric` answers for it. The grammar asks this of
/// characters outside ASCII only.
pub uninterp spec fn alphanumeric(c: char) -> bool;

/// Not proved: `char::is_alphanumeric` of the standard library. Its answer
/// depends on the character alone, and `alphanumeric` is the name of that
/// answer; nothing more is claimed of it.
pub assume_specification[ char::is_alphanumeric ](c: char) -> (yes: bool)
    ensures
        yes == alphanumeric(c),
;

/// The characters that continue a name: the ASCII letters and digits, and
/// the alphanumeric characters outside ASCII.
pub open spec fn continues_word(c: char) -> bool {
    is_letter(c) || is_digit(c) || (c > '\u{7f}' && alphanumeric(c))
}

/// The stretches of like characters that the scanner passes over in one go.
#[derive(Debug, Clone, Copy, PartialEq, Eq, Structural)]
pub enum Run {
    /// ASCII digits.
    Digits,
    /// Alphanumeric characters: what continues a name.
    Word,
    /// Everything up to the end of the line: the body of a comment.
    Comment,
    /// Everything up to the next double quote: the body of a string.
    Text,
}

/// Whether the character `c` belongs to a run of the given sort.
pub open spec fn in_run(run: Run, c: char) -> bool {
    match run {
        Run::Digits => is_digit(c),
        Run::Word => continues_word(c),
        Run::Comment => c != '\n',
        Run::Text => c != '"',
    }
}

/// The number of characters of `src`, from offset `from` on, that belong to
/// the run: the length of the longest stretch of them that starts there.
pub open spec fn run_len(src: Seq<char>, from: int, run: Run) -> nat
    decreases src.len() - from,
{
    if 0 <= from < src.len() && in_run(run, src[from]) {
        1 + run_len(src, from + 1, run)
    } else {
        0
    }
}

/// The number of line breaks among the characters of `src` at the offsets
/// from `from` up to, but not including, `to`.
pub open spec fn newlines(src: Seq<char>, from: int, to: int) -> nat
    decreases to - from,
{
    if 0 <= from < to <= src.len() {
        newlines(src, from, to - 1) + (if src[to - 1] == '\n' {
            1nat
        } else {
            0nat
        })
    } else {
        0
    }
}

/// The token that the single character `c` is, where it is one whatever
/// follows it.
pub open spec fn punctuation(c: char) -> Option<TokenKind> {
    if c == '(' {
        Some(TokenKind::LeftParen)
    } else if c == ')' {
        Some(TokenKind::RightParen)
    } else if c == '{' {
        Some(TokenKind::LeftBrace)
    } else if c == '}' {
        Some(TokenKind::RightBrace)
    } else if c == ',' {
        Some(TokenKind::Comma)
    } else if c == '.' {
        Some(TokenKind::Dot)
    } else if c == '-' {
        Some(TokenKind::Minus)
    } else if c == '+' {
        Some(TokenKind::Plus)
    } else if c == ';' {
        Some(TokenKind::Semicolon)
    } else if c == '*' {
        Some(TokenKind::Star)
    } else {
        None
    }
}

/// The token that `c` is where no `=` follows it, for a character that
/// forms another operator together with a following `=`.
pub open spec fn operator(c: char) -> Option<TokenKind> {
    if c == '!' {
        Some(TokenKind::Bang)
    } else if c == '=' {
        Some(TokenKind::Equal)
    } else if c == '<' {
        Some(TokenKind::Less)
    } else if c == '>' {
        Some(TokenKind::Greater)
    } else {
        None
    }
}

/// The operator that `c` and a following `=` form together.
pub open spec fn operator_equal(c: char) -> Option<TokenKind> {
    if c == '!' {
        Some(TokenKind::BangEqual)
    } else if c == '=' {
        Some(TokenKind::EqualEqual)
    } else if c == '<' {
        Some(TokenKind::LessEqual)
    } else if c == '>' {
        Some(TokenKind::GreaterEqual)
    } else {
        None
    }
}

/// The kind of a whole word: that of the keyword it spells, letter for
/// letter and in lower case, and `Identifier` for every other word.
pub open spec fn word_kind(word: Seq<char>) -> TokenKind {
    if word == "and"@ {
        TokenKind::And
    } else if word == "class"@ {
        TokenKind::Class
    } else if word == "else"@ {
        TokenKind::Else
    } else if word == "false"@ {
        TokenKind::False
    } else if word == "for"@ {
        TokenKind::For
    } else if word == "fun"@ {
        TokenKind::Fun
    } else if word == "if"@ {
        TokenKind::If
    } else if word == "nil"@ {
        TokenKind::Nil
    } else if word == "or"@ {
        TokenKind::Or
    } else if word == "print"@ {
        TokenKind::Print
    } else if word == "return"@ {
        TokenKind::Return
    } else if word == "super"@ {
        TokenKind::Super
    } else if word == "this"@ {
        TokenKind::This
    } else if word == "true"@ {
        TokenKind::True
    } else if word == "var"@ {
        TokenKind::Var
    } else if word == "while"@ {
        TokenKind::While
    } else {
        TokenKind::Identifier
    }
}

/// What the text at one place gives.
pub enum Outcome {
    /// A token.
    Emit(TokenView),
    /// Nothing: blank space, a line break or a comment.
    Skip,
    /// A diagnostic, and no token.
    Fail(LexerErrorView),
}

/// One step of a scan: what the text at a place gives, and the place at
/// which the scan goes on.
pub struct Step {
    pub outcome: Outcome,
    /// Offset of the first character after this step.
    pub next: int,
    /// Line of that character.
    pub line: int,
}

/// The token of kind `kind` whose lexeme is the text of `src` from offset
/// `from` up to `to`, and which starts on line `line`.
pub open spec fn spanning(src: Seq<char>, kind: TokenKind, from: int, to: int, line: int) -> Step {
    Step {
        outcome: Outcome::Emit(
            TokenView { kind, lexeme: Some(src.subrange(from, to)), offset: from, line },
        ),
        next: to,
        line,
    }
}

/// A string literal that opens with the quote at offset `at`. It closes with
/// the next quote, whatever stands before that quote; its lexeme is the text
/// between the two and its place is that of the character after the opening
/// quote. Without a closing quote the rest of the text is used up and gives
/// one diagnostic, at the opening quote. Either way each line break inside
/// counts.
pub open spec fn string_step(src: Seq<char>, at: int, line: int) -> Step {
    let close = at + 1 + run_len(src, at + 1, Run::Text);
    if close < src.len() {
        Step {
            outcome: Outcome::Emit(
                TokenView {
                    kind: TokenKind::String,
                    lexeme: Some(src.subrange(at + 1, close)),
                    offset: at + 1,
                    line,
                },
            ),
            next: close + 1,
            line: line + newlines(src, at + 1, close),
        }
    } else {
        Step {
            outcome: Outcome::Fail(
                LexerErrorView { kind: LexerErrorKind::UnterminatedString, offset: at, line },
            ),
            next: close,
            line: line + newlines(src, at + 1, close),
        }
    }
}

/// The offset just after the number that starts with the digit at `at`: after
/// its digits, and after a dot and further digits where the dot is not the
/// last character of the text.
pub open spec fn number_end(src: Seq<char>, at: int) -> int {
    let whole = at + 1 + run_len(src, at + 1, Run::Digits);
    if whole + 1 < src.len() && src[whole] == '.' {
        whole + 1 + run_len(src, whole + 1, Run::Digits)
    } else {
        whole
    }
}

/// The offset just after the word that starts at `at`.
pub open spec fn word_end(src: Seq<char>, at: int) -> int {
    at + 1 + run_len(src, at + 1, Run::Word)
}

/// What stands at offset `at` of `src`, on line `line`. Of two tokens that
/// could start there the longer one is taken.
pub open spec fn step(src: Seq<char>, at: int, line: int) -> Step
    recommends
        0 <= at < src.len(),
{
    let c = src[at];
    let followed_by_equal = at + 1 < src.len() && src[at + 1] == '=';
    if punctuation(c) is Some {
        spanning(src, punctuation(c)->0, at, at + 1, line)
    } else if operator(c) is Some {
        if followed_by_equal {
            spanning(src, operator_equal(c)->0, at, at + 2, line)
        } else {
            spanning(src, operator(c)->0, at, at + 1, line)
        }
    } else if c == '/' {
        if at + 1 < src.len() && src[at + 1] == '/' {
            Step {
                outcome: Outcome::Skip,
                next: at + 2 + run_len(src, at + 2, Run::Comment),
                line,
            }
        } else {
            spanning(src, TokenKind::ForwardSlash, at, at + 1, line)
        }
    } else if is_space(c) {
        Step { outcome: Outcome::Skip, next: at + 1, line }
    } else if c == '\n' {
        Step { outcome: Outcome::Skip, next: at + 1, line: line + 1 }
    } else if c == '"' {
        string_step(src, at, line)
    } else if is_digit(c) {
        spanning(src, TokenKind::Number, at, number_end(src, at), line)
    } else if starts_word(c) {
        let end = word_end(src, at);
        spanning(src, word_kind(src.subrange(at, end)), at, end, line)
    } else {
        Step {
            outcome: Outcome::Fail(
                LexerErrorView { kind: LexerErrorKind::UnrecognizedCharacter, offset: at, line },
            ),
            next: at + 1,
            line,
        }
    }
}

/// The tokens and the diagnostics of a text, each in the order of the text.
pub struct Scan {
    pub tokens: Seq<TokenView>,
    pub errors: Seq<LexerErrorView>,
}

/// The end-of-input marker for a text of `len` characters that ends on line
/// `line`.
pub open spec fn end_of_file(len: int, line: int) -> TokenView {
    TokenView { kind: TokenKind::EndOfFile, lexeme: None, offset: len, line }
}

/// What the text of `src` from offset `at` on gives, where `at` is on line
/// `line`: step after step to the end of the text, then the end-of-input
/// marker.
pub open spec fn scan_from(src: Seq<char>, at: int, line: int) -> Scan
    decreases src.len() - at,
    via scan_from_goes_on
{
    if 0 <= at < src.len() {
        let here = step(src, at, line);
        let rest = scan_from(src, here.next, here.line);
        match here.outcome {
            Outcome::Emit(token) => Scan { tokens: seq![token] + rest.tokens, errors: rest.errors },
            Outcome::Skip => rest,
            Outcome::Fail(error) => Scan { tokens: rest.tokens, errors: seq![error] + rest.errors },
        }
    } else {
        Scan { tokens: seq![end_of_file(at, line)], errors: seq![] }
    }
}

#[via_fn]
proof fn scan_from_goes_on(src: Seq<char>, at: int, line: int) {
    if 0 <= at < src.len() {
        step_goes_on(src, at, line);
    }
}

/// A run is the longest stretch of its characters: it stays inside the
/// text, holds only characters of its sort, and the character after it, if
/// there is one, is of another sort.
pub proof fn run_is_maximal(src: Seq<char>, from: int, run: Run)
    requires
        0 <= from <= src.len(),
    ensures
        from + run_len(src, from, run) <= src.len(),
        forall|i: int| from <= i < from + run_len(src, from, run) ==> in_run(run, #[trigger] src[i]),
        from + run_len(src, from, run) < src.len() ==> !in_run(
            run,
            src[from + run_len(src, from, run)],
        ),
    decreases src.len() - from,
{
    if from < src.len() && in_run(run, src[from]) {
        run_is_maximal(src, from + 1, run);
    }
}

/// Every step uses up at least one character, stays inside the text, and
/// never goes back a line.
pub proof fn step_goes_on(src: Seq<char>, at: int, line: int)
    requires
        0 <= at < src.len(),
    ensures
        at < step(src, at, line).next <= src.len(),
        step(src, at, line).line >= line,
{
    run_is_maximal(src, at + 1, Run::Text);
    run_is_maximal(src, at + 1, Run::Digits);
    run_is_maximal(src, at + 1, Run::Word);
    if at + 2 <= src.len() {
        run_is_maximal(src, at + 2, Run::Comment);
    }
    let whole = at + 1 + run_len(src, at + 1, Run::Digits);
    if whole + 1 <= src.len() {
        run_is_maximal(src, whole + 1, Run::Digits);
    }
}

/// What a whole text gives.
pub open spec fn scan(src: Seq<char>) -> Scan {
    scan_from(src, 0, 0)
}

/// Whether a comment that opens at offset `open` reaches the character at
/// offset `i`: two slashes stand at `open`, and no line break stands from
/// there up to and including `i`.
pub open spec fn comment_covers(src: Seq<char>, open: int, i: int) -> bool {
    &&& 0 <= open <= i < src.len()
    &&& open + 1 < src.len()
    &&& src[open] == '/'
    &&& src[open + 1] == '/'
    &&& forall|k: int| open <= k <= i ==> #[trigger] src[k] != '\n'
}

/// Whether the character at offset `i` is blank space, a line break, or part
/// of a comment that opens at or after `from`.
pub open spec fn blank_at(src: Seq<char>, from: int, i: int) -> bool {
    ||| is_space(src[i])
    ||| src[i] == '\n'
    ||| exists|open: int| from <= open && #[trigger] comment_covers(src, open, i)
}

/// Whether the text from offset `from` on holds nothing but blank space,
/// line breaks and comments.
pub open spec fn blank_from(src: Seq<char>, from: int) -> bool {
    forall|i: int| from <= i < src.len() ==> #[trigger] blank_at(src, from, i)
}

/// Whether the whole text holds nothing but blank space, line breaks and
/// comments.
pub open spec fn is_blank(src: Seq<char>) -> bool {
    blank_from(src, 0)
}

} // verus!
