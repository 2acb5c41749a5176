//! What holds of every scan.

use vstd::prelude::*;
use crate::grammar::{
    blank_at, blank_from, comment_covers, end_of_file, in_run, is_blank, is_digit, is_space, newlines,
    operator, run_is_maximal, run_len, scan, scan_from, starts_word, step, step_goes_on, Outcome,
    Run,
};
use crate::tokens::{LexerErrorView, TokenKind};

verus! {

/// A scan from any place in the text ends with the end-of-input marker,
/// placed at the end of the text, and every token before it has a lexeme and
/// is no end-of-input marker.
pub proof fn scan_from_ends_with_marker(src: Seq<char>, at: int, line: int)
    requires
        0 <= at <= src.len(),
    ensures
        scan_from(src, at, line).tokens.len() >= 1,
        scan_from(src, at, line).tokens.last().kind == TokenKind::EndOfFile,
        scan_from(src, at, line).tokens.last().lexeme is None,
        scan_from(src, at, line).tokens.last().offset == src.len(),
        scan_from(src, at, line).tokens.last().line >= line,
        forall|i: int|
            0 <= i < scan_from(src, at, line).tokens.len() - 1 ==> {
                &&& (#[trigger] scan_from(src, at, line).tokens[i]).lexeme is Some
                &&& scan_from(src, at, line).tokens[i].kind != TokenKind::EndOfFile
            },
    decreases src.len() - at,
{
    if at < src.len() {
        let here = step(src, at, line);
        step_goes_on(src, at, line);
        scan_from_ends_with_marker(src, here.next, here.line);
    }
}

/// The scan of any text ends with the end-of-input marker, placed at the end
/// of the text. It is the only token of the scan without a lexeme, and the
/// only one of its kind.
pub proof fn scan_ends_with_marker(src: Seq<char>)
    ensures
        scan(src).tokens.len() >= 1,
        scan(src).tokens.last().kind == TokenKind::EndOfFile,
        scan(src).tokens.last().lexeme is None,
        scan(src).tokens.last().offset == src.len(),
        forall|i: int|
            0 <= i < scan(src).tokens.len() ==> ((#[trigger] scan(src).tokens[i]).lexeme is None
                <==> i == scan(src).tokens.len() - 1),
        forall|i: int|
            0 <= i < scan(src).tokens.len() ==> ((#[trigger] scan(src).tokens[i]).kind
                == TokenKind::EndOfFile <==> i == scan(src).tokens.len() - 1),
{
    scan_from_ends_with_marker(src, 0, 0);
}

/// Where the text from `at` on holds nothing but blank space, line breaks and
/// comments, the scan from there gives the end-of-input marker and no other
/// token, and no diagnostic.
pub proof fn scan_from_blank(src: Seq<char>, at: int, line: int)
    requires
        0 <= at <= src.len(),
        blank_from(src, at),
    ensures
        scan_from(src, at, line).tokens.len() == 1,
        scan_from(src, at, line).errors.len() == 0,
    decreases src.len() - at,
{
    if at < src.len() {
        let c = src[at];
        let here = step(src, at, line);
        step_goes_on(src, at, line);
        assert(blank_at(src, at, at));
        if is_space(c) || c == '\n' {
            assert forall|i: int| at + 1 <= i < src.len() implies #[trigger] blank_at(
                src,
                at + 1,
                i,
            ) by {
                assert(blank_at(src, at, i));
                if !(is_space(src[i]) || src[i] == '\n') {
                    let open = choose|open: int| at <= open && #[trigger] comment_covers(src, open, i);
                    assert(open != at);
                    assert(at + 1 <= open && comment_covers(src, open, i));
                }
            }
        } else {
            let first = choose|open: int| at <= open && #[trigger] comment_covers(src, open, at);
            assert(first == at);
            let end = at + 2 + run_len(src, at + 2, Run::Comment);
            run_is_maximal(src, at + 2, Run::Comment);
            assert(here.outcome == Outcome::Skip);
            assert(here.next == end);
            assert forall|i: int| end <= i < src.len() implies #[trigger] blank_at(src, end, i) by {
                assert(blank_at(src, at, i));
                assert(src[end] == '\n');
                if !(is_space(src[i]) || src[i] == '\n') {
                    let open = choose|open: int| at <= open && #[trigger] comment_covers(src, open, i);
                    assert(open > end);
                    assert(end <= open && comment_covers(src, open, i));
                }
            }
        }
        scan_from_blank(src, here.next, here.line);
    }
}

/// Of the tokens that could start at a place the longest is taken: after a
/// number no digit follows, after a word no alphanumeric character, and
/// after an operator of one character that could take an `=`, no `=`.
pub proof fn step_takes_longest(src: Seq<char>, at: int, line: int)
    requires
        0 <= at < src.len(),
        step(src, at, line).next < src.len(),
    ensures
        is_digit(src[at]) ==> !is_digit(src[step(src, at, line).next]),
        starts_word(src[at]) ==> !in_run(Run::Word, src[step(src, at, line).next]),
        operator(src[at]) is Some && step(src, at, line).next == at + 1 ==> src[at + 1] != '=',
{
    run_is_maximal(src, at + 1, Run::Digits);
    run_is_maximal(src, at + 1, Run::Word);
    let whole = at + 1 + run_len(src, at + 1, Run::Digits);
    if whole + 1 <= src.len() {
        run_is_maximal(src, whole + 1, Run::Digits);
    }
}

/// A token that one step gives carries the text of the source at its place:
/// it starts at or after the step's start and on its line, and its lexeme is
/// the source from the token's offset on and ends before the next step. A
/// diagnostic is placed where the step starts.
pub proof fn step_token_is_source_text(src: Seq<char>, at: int, line: int)
    requires
        0 <= at < src.len(),
    ensures
        match step(src, at, line).outcome {
            Outcome::Emit(token) => {
                &&& token.kind != TokenKind::EndOfFile
                &&& token.lexeme is Some
                &&& at <= token.offset
                &&& token.offset + token.lexeme->Some_0.len() <= step(src, at, line).next
                &&& token.lexeme->Some_0 == src.subrange(
                    token.offset,
                    token.offset + token.lexeme->Some_0.len(),
                )
                &&& token.line == line
            },
            Outcome::Skip => true,
            Outcome::Fail(error) => error.offset == at && error.line == line,
        },
{
    step_goes_on(src, at, line);
    run_is_maximal(src, at + 1, Run::Text);
}

/// The tokens of a scan stand in the order of the text and do not overlap:
/// each starts at or after the start of the scan, each but the marker carries
/// the text of the source at its place, and each ends before any later one
/// starts, on a line that is not after the later one's.
pub proof fn scan_from_tokens_in_order(src: Seq<char>, at: int, line: int)
    requires
        0 <= at <= src.len(),
    ensures
        forall|i: int|
            0 <= i < scan_from(src, at, line).tokens.len() ==> {
                &&& at <= (#[trigger] scan_from(src, at, line).tokens[i]).offset <= src.len()
                &&& line <= scan_from(src, at, line).tokens[i].line
            },
        forall|i: int|
            0 <= i < scan_from(src, at, line).tokens.len() - 1 ==> {
                let token = #[trigger] scan_from(src, at, line).tokens[i];
                &&& token.lexeme is Some
                &&& token.lexeme->Some_0 == src.subrange(
                    token.offset,
                    token.offset + token.lexeme->Some_0.len(),
                )
            },
        forall|i: int, j: int|
            0 <= i < j < scan_from(src, at, line).tokens.len() ==> {
                let token = #[trigger] scan_from(src, at, line).tokens[i];
                let later = #[trigger] scan_from(src, at, line).tokens[j];
                &&& token.lexeme is Some
                &&& token.offset + token.lexeme->Some_0.len() <= later.offset
                &&& token.line <= later.line
            },
    decreases src.len() - at,
{
    if at < src.len() {
        let here = step(src, at, line);
        let rest = scan_from(src, here.next, here.line);
        let all = scan_from(src, at, line);
        step_goes_on(src, at, line);
        step_token_is_source_text(src, at, line);
        scan_from_tokens_in_order(src, here.next, here.line);
        match here.outcome {
            Outcome::Emit(token) => {
                assert(all.tokens == seq![token] + rest.tokens);
                assert(all.tokens[0] == token);
                assert forall|i: int| 1 <= i < all.tokens.len() implies #[trigger] all.tokens[i]
                    == rest.tokens[i - 1] by {}
            },
            _ => {},
        }
    }
}

/// The diagnostics of a scan stand in the order of the text, each at a place
/// inside it.
pub proof fn scan_from_errors_in_order(src: Seq<char>, at: int, line: int)
    requires
        0 <= at <= src.len(),
    ensures
        forall|i: int|
            0 <= i < scan_from(src, at, line).errors.len() ==> {
                &&& at <= (#[trigger] scan_from(src, at, line).errors[i]).offset < src.len()
                &&& line <= scan_from(src, at, line).errors[i].line
            },
        forall|i: int, j: int|
            0 <= i < j < scan_from(src, at, line).errors.len() ==> {
                let error = #[trigger] scan_from(src, at, line).errors[i];
                let later = #[trigger] scan_from(src, at, line).errors[j];
                &&& error.offset < later.offset
                &&& error.line <= later.line
            },
    decreases src.len() - at,
{
    if at < src.len() {
        let here = step(src, at, line);
        let rest = scan_from(src, here.next, here.line);
        let all = scan_from(src, at, line);
        step_goes_on(src, at, line);
        step_token_is_source_text(src, at, line);
        scan_from_errors_in_order(src, here.next, here.line);
        match here.outcome {
            Outcome::Fail(error) => {
                assert(all.errors == seq![error] + rest.errors);
                assert(all.errors[0] == error);
                assert forall|i: int| 1 <= i < all.errors.len() implies #[trigger] all.errors[i]
                    == rest.errors[i - 1] by {}
            },
            _ => {},
        }
    }
}

/// Line breaks are counted piece by piece: those of a stretch of text are
/// those of its first part and those of its second part together.
pub proof fn newlines_split(src: Seq<char>, from: int, mid: int, to: int)
    requires
        0 <= from <= mid <= to <= src.len(),
    ensures
        newlines(src, from, to) == newlines(src, from, mid) + newlines(src, mid, to),
    decreases to - mid,
{
    if mid < to {
        newlines_split(src, from, mid, to - 1);
    }
}

/// A stretch of text without a line break counts none.
pub proof fn newlines_none(src: Seq<char>, from: int, to: int)
    requires
        0 <= from <= to <= src.len(),
        forall|i: int| from <= i < to ==> #[trigger] src[i] != '\n',
    ensures
        newlines(src, from, to) == 0,
    decreases to - from,
{
    if from < to {
        newlines_none(src, from, to - 1);
    }
}

/// A step counts the line breaks that it passes over, and no others. The
/// token or diagnostic that it gives is on the line of its place.
pub proof fn step_counts_lines(src: Seq<char>, at: int, line: int)
    requires
        0 <= at < src.len(),
    ensures
        step(src, at, line).line == line + newlines(src, at, step(src, at, line).next),
        match step(src, at, line).outcome {
            Outcome::Emit(token) => token.line == line + newlines(src, at, token.offset),
            Outcome::Skip => true,
            Outcome::Fail(error) => error.line == line + newlines(src, at, error.offset),
        },
{
    let c = src[at];
    let next = step(src, at, line).next;
    step_goes_on(src, at, line);
    assert(newlines(src, at, at) == 0);
    if c == '"' {
        let close = at + 1 + run_len(src, at + 1, Run::Text);
        run_is_maximal(src, at + 1, Run::Text);
        newlines_none(src, at, at + 1);
        newlines_split(src, at, at + 1, close);
        if close < src.len() {
            newlines_none(src, close, close + 1);
            newlines_split(src, at, close, close + 1);
        }
    } else if c == '\n' {
        assert(newlines(src, at, at + 1) == 1);
    } else {
        run_is_maximal(src, at + 1, Run::Digits);
        run_is_maximal(src, at + 1, Run::Word);
        if at + 2 <= src.len() {
            run_is_maximal(src, at + 2, Run::Comment);
        }
        let whole = at + 1 + run_len(src, at + 1, Run::Digits);
        if whole + 1 <= src.len() {
            run_is_maximal(src, whole + 1, Run::Digits);
        }
        assert forall|i: int| at <= i < next implies #[trigger] src[i] != '\n' by {}
        newlines_none(src, at, next);
    }
}

/// Lines are counted by line breaks: each token and each diagnostic of a scan
/// is on the line of the scan's start plus the number of line breaks between
/// that start and its own place.
pub proof fn scan_from_counts_lines(src: Seq<char>, at: int, line: int)
    requires
        0 <= at <= src.len(),
    ensures
        forall|i: int|
            0 <= i < scan_from(src, at, line).tokens.len() ==> (#[trigger] scan_from(
                src,
                at,
                line,
            ).tokens[i]).line == line + newlines(src, at, scan_from(src, at, line).tokens[i].offset),
        forall|i: int|
            0 <= i < scan_from(src, at, line).errors.len() ==> (#[trigger] scan_from(
                src,
                at,
                line,
            ).errors[i]).line == line + newlines(src, at, scan_from(src, at, line).errors[i].offset),
    decreases src.len() - at,
{
    if at < src.len() {
        let here = step(src, at, line);
        let rest = scan_from(src, here.next, here.line);
        let all = scan_from(src, at, line);
        step_goes_on(src, at, line);
        step_counts_lines(src, at, line);
        scan_from_counts_lines(src, here.next, here.line);
        scan_from_tokens_in_order(src, here.next, here.line);
        scan_from_errors_in_order(src, here.next, here.line);
        assert forall|i: int| 0 <= i < rest.tokens.len() implies (#[trigger] rest.tokens[i]).line
            == line + newlines(src, at, rest.tokens[i].offset) by {
            newlines_split(src, at, here.next, rest.tokens[i].offset);
        }
        assert forall|i: int| 0 <= i < rest.errors.len() implies (#[trigger] rest.errors[i]).line
            == line + newlines(src, at, rest.errors[i].offset) by {
            newlines_split(src, at, here.next, rest.errors[i].offset);
        }
        match here.outcome {
            Outcome::Emit(token) => {
                assert(all.tokens == seq![token] + rest.tokens);
                assert(all.tokens[0] == token);
                assert forall|i: int| 1 <= i < all.tokens.len() implies #[trigger] all.tokens[i]
                    == rest.tokens[i - 1] by {}
            },
            Outcome::Fail(error) => {
                assert(all.errors == seq![error] + rest.errors);
                assert(all.errors[0] == error);
                assert forall|i: int| 1 <= i < all.errors.len() implies #[trigger] all.errors[i]
                    == rest.errors[i - 1] by {}
            },
            Outcome::Skip => {},
        }
    } else {
        assert(newlines(src, at, at) == 0);
    }
}

/// In the scan of a whole text each token and each diagnostic is on the line
/// whose number is the number of line breaks before its place.
pub proof fn scan_counts_lines(src: Seq<char>)
    ensures
        forall|i: int|
            0 <= i < scan(src).tokens.len() ==> (#[trigger] scan(src).tokens[i]).line == newlines(
                src,
                0,
                scan(src).tokens[i].offset,
            ),
        forall|i: int|
            0 <= i < scan(src).errors.len() ==> (#[trigger] scan(src).errors[i]).line == newlines(
                src,
                0,
                scan(src).errors[i].offset,
            ),
{
    scan_from_counts_lines(src, 0, 0);
}

/// The scan of a text that holds nothing but blank space, line breaks and
/// comments gives exactly one token, the end-of-input marker, and no
/// diagnostic. The marker stands at the end of the text, on the line whose
/// number is the number of line breaks in the text.
pub proof fn scan_of_blank_text(src: Seq<char>)
    requires
        is_blank(src),
    ensures
        scan(src).tokens == seq![
            end_of_file(src.len() as int, newlines(src, 0, src.len() as int) as int),
        ],
        scan(src).errors == Seq::<LexerErrorView>::empty(),
{
    scan_from_blank(src, 0, 0);
    scan_ends_with_marker(src);
    scan_counts_lines(src);
    let marker = scan(src).tokens[0];
    assert(marker == scan(src).tokens.last());
    assert(marker == end_of_file(src.len() as int, newlines(src, 0, src.len() as int) as int));
    assert(scan(src).tokens =~= seq![marker]);
    assert(scan(src).errors =~= Seq::<LexerErrorView>::empty());
}

} // verus!
