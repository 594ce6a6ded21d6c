//! What holds of every scan.

use vstd::prelude::*;
use crate::decimal::{digits_end, is_digit, lemma_digits_end, lemma_numeral_wf};
use crate::grammar::{
    advance_line, char_at, count_newlines, end_token, find_char, lemma_find_char,
    lemma_number_lexeme, lemma_step_advances, lexeme_step, line_at, number_end, operator,
    plain_step, punctuation, scan, scan_from, Outcome,
};
use crate::reporter::DiagnosticView;
use crate::token::{TokenType, TokenView};

verus! {

/// The tokens of a scan end with the end token, which has no text and no
/// literal, and no token before it is an end token.
pub proof fn lemma_scan_from_ends(s: Seq<char>, pos: int, line: nat)
    ensures
        scan_from(s, pos, line).tokens.len() > 0,
        scan_from(s, pos, line).tokens.last().kind == TokenType::Eof,
        scan_from(s, pos, line).tokens.last().lexeme == Seq::<char>::empty(),
        scan_from(s, pos, line).tokens.last().literal is None,
        forall|i: int|
            0 <= i < scan_from(s, pos, line).tokens.len() - 1 ==> (#[trigger] scan_from(
                s,
                pos,
                line,
            ).tokens[i]).kind != TokenType::Eof,
    decreases s.len() - pos,
{
    if 0 <= pos < s.len() {
        let step = lexeme_step(s, pos, line);
        lemma_step_advances(s, pos, line);
        lemma_scan_from_ends(s, step.end, step.line);
    }
}

/// Whatever the source, its tokens end with the one end token, which has no
/// text and no literal.
pub proof fn lemma_scan_ends(source: Seq<char>)
    ensures
        scan(source).tokens.len() > 0,
        scan(source).tokens.last().kind == TokenType::Eof,
        scan(source).tokens.last().lexeme == Seq::<char>::empty(),
        scan(source).tokens.last().literal is None,
        forall|i: int|
            0 <= i < scan(source).tokens.len() - 1 ==> (#[trigger] scan(source).tokens[i]).kind
                != TokenType::Eof,
{
    lemma_scan_from_ends(source, 0, 1);
}

/// Whether `s` holds nothing but characters that are a token by themselves.
pub open spec fn all_punctuation(s: Seq<char>) -> bool {
    forall|i: int| 0 <= i < s.len() ==> punctuation(#[trigger] s[i]) is Some
}

/// The token that a punctuation character gives on `line`.
pub open spec fn punctuation_token(c: char, line: nat) -> TokenView {
    TokenView { kind: punctuation(c)->0, lexeme: seq![c], literal: None, line }
}

/// From any position of a source of punctuation, each character left gives
/// its own token, the end token follows, and nothing is reported.
pub proof fn lemma_scan_from_punctuation(s: Seq<char>, pos: int, line: nat)
    requires
        all_punctuation(s),
        0 <= pos <= s.len(),
    ensures
        scan_from(s, pos, line).errors == Seq::<DiagnosticView>::empty(),
        scan_from(s, pos, line).tokens.len() == s.len() - pos + 1,
        forall|i: int|
            0 <= i < s.len() - pos ==> #[trigger] scan_from(s, pos, line).tokens[i]
                == punctuation_token(s[pos + i], line),
        scan_from(s, pos, line).tokens[s.len() - pos] == end_token(line),
    decreases s.len() - pos,
{
    if pos < s.len() {
        lemma_scan_from_punctuation(s, pos + 1, line);
        assert(s.subrange(pos, pos + 1) == seq![s[pos]]);
    }
}

/// In a source of punctuation every character gives exactly one token, of
/// the kind that belongs to the character and with that character as its
/// lexeme. Nothing is reported, and the end token follows the last of them.
pub proof fn lemma_scan_punctuation(source: Seq<char>)
    requires
        all_punctuation(source),
    ensures
        scan(source).errors == Seq::<DiagnosticView>::empty(),
        scan(source).tokens.len() == source.len() + 1,
        forall|i: int|
            0 <= i < source.len() ==> #[trigger] scan(source).tokens[i] == punctuation_token(
                source[i],
                1,
            ),
        scan(source).tokens[source.len() as int] == end_token(1),
{
    lemma_scan_from_punctuation(source, 0, 1);
}

/// The longest match wins. Where an `=` follows `!`, `=`, `<` or `>`, the two
/// characters are one token; where none does, the first character is a token
/// by itself. Either way scanning goes on right after the token.
pub proof fn lemma_maximal_munch(s: Seq<char>, start: int, line: nat)
    requires
        0 <= start < s.len(),
        operator(s[start], false) is Some,
    ensures
        char_at(s, start + 1) == Some('=') ==> lexeme_step(s, start, line) == plain_step(
            s,
            start,
            start + 2,
            line,
            operator(s[start], true)->0,
        ),
        char_at(s, start + 1) != Some('=') ==> lexeme_step(s, start, line) == plain_step(
            s,
            start,
            start + 1,
            line,
            operator(s[start], false)->0,
        ),
        scan_from(s, start, line).tokens == lexeme_step(s, start, line).tokens() + scan_from(
            s,
            lexeme_step(s, start, line).end,
            line,
        ).tokens,
        lexeme_step(s, start, line).tokens().len() == 1,
{
}

/// A token of a lexeme is never the end token, its text is exactly the text
/// of the lexeme, and it carries the literal that its kind calls for.
pub proof fn lemma_step_token(s: Seq<char>, start: int, line: nat)
    requires
        0 <= start < s.len(),
    ensures
        lexeme_step(s, start, line).outcome matches Outcome::Token(t) ==> {
            &&& t.kind != TokenType::Eof
            &&& t.lexeme == s.subrange(start, lexeme_step(s, start, line).end)
            &&& t.lexeme.len() > 0
            &&& t.line == line
            &&& t.literal_fits()
        },
        lexeme_step(s, start, line).outcome matches Outcome::Error(e) ==> e.line == line,
{
    lemma_step_advances(s, start, line);
    if is_digit(s[start]) {
        lemma_number_lexeme(s, start);
        lemma_numeral_wf(s.subrange(start, number_end(s, start)));
    }
}

/// Every token of a scan carries the literal that its kind calls for: a
/// string token a string, a number token a numeral, any other token none.
pub proof fn lemma_scan_from_literals(s: Seq<char>, pos: int, line: nat)
    ensures
        forall|i: int|
            0 <= i < scan_from(s, pos, line).tokens.len() ==> (#[trigger] scan_from(
                s,
                pos,
                line,
            ).tokens[i]).literal_fits(),
    decreases s.len() - pos,
{
    if 0 <= pos < s.len() {
        let step = lexeme_step(s, pos, line);
        lemma_step_advances(s, pos, line);
        lemma_step_token(s, pos, line);
        lemma_scan_from_literals(s, step.end, step.line);
        let rest = scan_from(s, step.end, step.line).tokens;
        let all = scan_from(s, pos, line).tokens;
        assert forall|i: int| 0 <= i < all.len() implies (#[trigger] all[i]).literal_fits() by {
            if i >= step.tokens().len() {
                assert(all[i] == rest[i - step.tokens().len()]);
            }
        }
    }
}

/// Whatever the source, only its string and number tokens carry a literal,
/// and those carry a string and a numeral.
pub proof fn lemma_scan_literals(source: Seq<char>)
    ensures
        forall|i: int|
            0 <= i < scan(source).tokens.len() ==> (#[trigger] scan(source).tokens[i]).literal_fits(),
{
    lemma_scan_from_literals(source, 0, 1);
}

/// Newlines are counted piece by piece.
pub proof fn lemma_count_newlines_split(s: Seq<char>, from: int, mid: int, to: int)
    requires
        from <= mid <= to,
    ensures
        count_newlines(s, from, to) == count_newlines(s, from, mid) + count_newlines(s, mid, to),
    decreases to - mid,
{
    if mid < to {
        lemma_count_newlines_split(s, from, mid, to - 1);
    }
}

/// A piece without a newline counts none.
pub proof fn lemma_count_no_newlines(s: Seq<char>, from: int, to: int)
    requires
        forall|i: int| from <= i < to ==> #[trigger] s[i] != '\n',
    ensures
        count_newlines(s, from, to) == 0,
    decreases to - from,
{
    if from < to {
        lemma_count_no_newlines(s, from, to - 1);
    }
}

/// The scanner's line follows the text: where a lexeme starts on the line of
/// its first character, its token and its report carry that line, and the
/// scanner leaves it on the line of the character after it.
pub proof fn lemma_step_lines(s: Seq<char>, start: int)
    requires
        0 <= start < s.len(),
    ensures
        lexeme_step(s, start, line_at(s, start)).line == line_at(
            s,
            lexeme_step(s, start, line_at(s, start)).end,
        ),
        lexeme_step(s, start, line_at(s, start)).outcome matches Outcome::Token(t) ==> t.line
            == line_at(s, start),
        lexeme_step(s, start, line_at(s, start)).outcome matches Outcome::Error(e) ==> e.line
            == line_at(s, start),
{
    let line = line_at(s, start);
    let step = lexeme_step(s, start, line);
    let c = s[start];
    lemma_step_advances(s, start, line);
    lemma_count_newlines_split(s, 0, start, step.end);
    lemma_count_newlines_split(s, start, start + 1, step.end);
    assert(count_newlines(s, start, start + 1) == if c == '\n' {
        1nat
    } else {
        0nat
    }) by {
        assert(count_newlines(s, start, start) == 0);
    }
    if c == '/' && char_at(s, start + 1) == Some('/') {
        lemma_find_char(s, start + 2, '\n');
        lemma_count_no_newlines(s, start + 1, step.end);
    } else if c == '"' {
        let close = find_char(s, start + 1, '"');
        lemma_find_char(s, start + 1, '"');
        if close < s.len() {
            assert(count_newlines(s, close, close + 1) == 0) by {
                assert(count_newlines(s, close, close) == 0);
            }
        }
    } else if is_digit(c) {
        let whole_end = digits_end(s, start);
        lemma_digits_end(s, start);
        if step.end != whole_end {
            lemma_digits_end(s, whole_end + 1);
        }
        lemma_count_no_newlines(s, start + 1, step.end);
    }
}

/// From a position that the scanner reaches on its own line, the end token
/// is on the line after the last newline of the source.
pub proof fn lemma_scan_from_end_line(s: Seq<char>, pos: int)
    requires
        0 <= pos <= s.len(),
    ensures
        scan_from(s, pos, line_at(s, pos)).tokens.last() == end_token(line_at(s, s.len() as int)),
    decreases s.len() - pos,
{
    if pos < s.len() {
        let step = lexeme_step(s, pos, line_at(s, pos));
        lemma_step_advances(s, pos, line_at(s, pos));
        lemma_step_lines(s, pos);
        lemma_scan_from_end_line(s, step.end);
        lemma_scan_from_ends(s, step.end, step.line);
    }
}

/// Whatever the source, its end token is on line 1 plus the number of
/// newlines in the source.
pub proof fn lemma_scan_end_line(source: Seq<char>)
    ensures
        scan(source).tokens.last() == end_token(
            advance_line(1, count_newlines(source, 0, source.len() as int)),
        ),
{
    lemma_scan_from_end_line(source, 0);
}

} // verus!
