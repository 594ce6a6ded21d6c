//! The lexical grammar, as mathematics.
//!
//! [`scan`] says which tokens and which reports a source text gives. It is
//! built from [`lexeme_step`], which says what one lexeme at a given position
//! is, where it ends and what it produces. The scanner is proved to compute
//! exactly this.

use vstd::prelude::*;
use crate::decimal::{
    digits_end, is_digit, is_numeral, lemma_digits_end, lemma_digits_end_is, numeral_of,
};
use crate::reporter::DiagnosticView;
use crate::token::{ObjectView, TokenType, TokenView};

verus! {

/// The character at position `i` of `s`, if there is one.
pub open spec fn char_at(s: Seq<char>, i: int) -> Option<char> {
    if 0 <= i < s.len() {
        Some(s[i])
    } else {
        None
    }
}

/// The first position at or after `from` that holds `c`, or the length of
/// `s` if there is none.
pub open spec fn find_char(s: Seq<char>, from: int, c: char) -> int
    decreases s.len() - from,
{
    if 0 <= from < s.len() && s[from] != c {
        find_char(s, from + 1, c)
    } else {
        from
    }
}

/// `find_char` stays inside `s`, passes over nothing that is `c`, and stops
/// at `c` unless it reaches the end.
pub proof fn lemma_find_char(s: Seq<char>, from: int, c: char)
    requires
        0 <= from <= s.len(),
    ensures
        from <= find_char(s, from, c) <= s.len(),
        forall|i: int| from <= i < find_char(s, from, c) ==> #[trigger] s[i] != c,
        find_char(s, from, c) < s.len() ==> s[find_char(s, from, c)] == c,
    decreases s.len() - from,
{
    if from < s.len() && s[from] != c {
        lemma_find_char(s, from + 1, c);
    }
}

/// A position reached from `from` without passing `c`, which holds `c` or is
/// the end of `s`, is the one `find_char` names.
pub proof fn lemma_find_char_is(s: Seq<char>, from: int, c: char, at: int)
    requires
        0 <= from <= at <= s.len(),
        forall|i: int| from <= i < at ==> #[trigger] s[i] != c,
        at < s.len() ==> s[at] == c,
    ensures
        find_char(s, from, c) == at,
    decreases at - from,
{
    if from < at {
        lemma_find_char_is(s, from + 1, c, at);
    }
}

/// How many newline characters `s[from..to]` holds.
pub open spec fn count_newlines(s: Seq<char>, from: int, to: int) -> nat
    decreases to - from,
{
    if from < to {
        count_newlines(s, from, to - 1) + if s[to - 1] == '\n' {
            1nat
        } else {
            0nat
        }
    } else {
        0
    }
}

/// The line reached from `line` after `count` more newlines. Lines are
/// counted up to `u32::MAX` and no further.
pub open spec fn advance_line(line: nat, count: nat) -> nat {
    if line + count <= u32::MAX {
        line + count
    } else {
        u32::MAX as nat
    }
}

/// The line of position `pos`: line 1 and one more for each newline before
/// `pos`.
pub open spec fn line_at(s: Seq<char>, pos: int) -> nat {
    advance_line(1, count_newlines(s, 0, pos))
}

/// The kind of token that `c` is by itself, whatever follows it.
pub open spec fn punctuation(c: char) -> Option<TokenType> {
    if c == '(' {
        Some(TokenType::LeftParen)
    } else if c == ')' {
        Some(TokenType::RightParen)
    } else if c == '{' {
        Some(TokenType::LeftBrace)
    } else if c == '}' {
        Some(TokenType::RightBrace)
    } else if c == ',' {
        Some(TokenType::Comma)
    } else if c == '.' {
        Some(TokenType::Dot)
    } else if c == '-' {
        Some(TokenType::Minus)
    } else if c == '+' {
        Some(TokenType::Plus)
    } else if c == ';' {
        Some(TokenType::Semicolon)
    } else if c == '*' {
        Some(TokenType::Star)
    } else {
        None
    }
}

/// The kind of operator that starts with `c`: the two-character one where an
/// `=` follows, the one-character one where none does.
pub open spec fn operator(c: char, equal_follows: bool) -> Option<TokenType> {
    if c == '!' {
        Some(if equal_follows { TokenType::BangEqual } else { TokenType::Bang })
    } else if c == '=' {
        Some(if equal_follows { TokenType::EqualEqual } else { TokenType::Equal })
    } else if c == '<' {
        Some(if equal_follows { TokenType::LessEqual } else { TokenType::Less })
    } else if c == '>' {
        Some(if equal_follows { TokenType::GreaterEqual } else { TokenType::Greater })
    } else {
        None
    }
}

/// Whether `c` is blank space within a line.
pub open spec fn is_blank(c: char) -> bool {
    c == ' ' || c == '\r' || c == '\t'
}

/// What the scanner reports for a character that starts no lexeme.
pub open spec fn unexpected_character() -> Seq<char> {
    "Unexpected character."@
}

/// What the scanner reports for a string that is never closed.
pub open spec fn unterminated_string() -> Seq<char> {
    "Unterminated string."@
}

/// What one lexeme gives.
pub enum Outcome {
    /// A token.
    Token(TokenView),
    /// A report, and no token.
    Error(DiagnosticView),
    /// Neither: blank space, a newline or a comment.
    Nothing,
}

/// One step of scanning: the lexeme that starts at a position.
pub struct Step {
    /// Where the lexeme ends, which is where the next one starts.
    pub end: int,
    /// The line that the scanner is on after the lexeme.
    pub line: nat,
    /// What the lexeme gives.
    pub outcome: Outcome,
}

impl Step {
    /// The tokens of this step: one or none.
    pub open spec fn tokens(self) -> Seq<TokenView> {
        match self.outcome {
            Outcome::Token(t) => seq![t],
            _ => Seq::empty(),
        }
    }

    /// The reports of this step: one or none.
    pub open spec fn errors(self) -> Seq<DiagnosticView> {
        match self.outcome {
            Outcome::Error(e) => seq![e],
            _ => Seq::empty(),
        }
    }
}

/// The step for a lexeme `s[start..end]` that is a token of `kind` with no
/// literal and holds no newline.
pub open spec fn plain_step(s: Seq<char>, start: int, end: int, line: nat, kind: TokenType) -> Step {
    Step {
        end,
        line,
        outcome: Outcome::Token(
            TokenView { kind, lexeme: s.subrange(start, end), literal: None, line },
        ),
    }
}

/// The step for a lexeme `s[start..end]` that gives nothing and holds no
/// newline.
pub open spec fn silent_step(end: int, line: nat) -> Step {
    Step { end, line, outcome: Outcome::Nothing }
}

/// The step at an opening quote. The string runs to the next quote, newlines
/// included, and its literal is what stands between the two. Where no quote
/// follows, the rest of the source is consumed and the opening line is
/// reported.
pub open spec fn string_step(s: Seq<char>, start: int, line: nat) -> Step {
    let close = find_char(s, start + 1, '"');
    let line_after = advance_line(line, count_newlines(s, start + 1, close));
    if close < s.len() {
        Step {
            end: close + 1,
            line: line_after,
            outcome: Outcome::Token(
                TokenView {
                    kind: TokenType::String,
                    lexeme: s.subrange(start, close + 1),
                    literal: Some(ObjectView::Str(s.subrange(start + 1, close))),
                    line,
                },
            ),
        }
    } else {
        Step {
            end: s.len() as int,
            line: line_after,
            outcome: Outcome::Error(DiagnosticView { line, message: unterminated_string() }),
        }
    }
}

/// Where the number that starts at `start` ends: after its digits, and after
/// a point and further digits where a point and a digit follow them.
pub open spec fn number_end(s: Seq<char>, start: int) -> int {
    let whole_end = digits_end(s, start);
    if char_at(s, whole_end) == Some('.') && whole_end + 1 < s.len() && is_digit(s[whole_end + 1]) {
        digits_end(s, whole_end + 1)
    } else {
        whole_end
    }
}

/// The text of a number is a numeral.
pub proof fn lemma_number_lexeme(s: Seq<char>, start: int)
    requires
        0 <= start < s.len(),
        is_digit(s[start]),
    ensures
        start < number_end(s, start) <= s.len(),
        is_numeral(s.subrange(start, number_end(s, start))),
{
    let whole_end = digits_end(s, start);
    let end = number_end(s, start);
    lemma_digits_end(s, start);
    if end != whole_end {
        lemma_digits_end(s, whole_end + 1);
    }
    let lexeme = s.subrange(start, end);
    lemma_digits_end_is(lexeme, 0, whole_end - start);
    if end != whole_end {
        lemma_digits_end_is(lexeme, whole_end + 1 - start, end - start);
    }
}

/// The step at a digit: a number token whose literal is the numeral that the
/// lexeme spells.
pub open spec fn number_step(s: Seq<char>, start: int, line: nat) -> Step {
    let end = number_end(s, start);
    let lexeme = s.subrange(start, end);
    Step {
        end,
        line,
        outcome: Outcome::Token(
            TokenView {
                kind: TokenType::Number,
                lexeme,
                literal: Some(ObjectView::Num(numeral_of(lexeme))),
                line,
            },
        ),
    }
}

/// The lexeme that starts at `start`, with the scanner on `line`: where it
/// ends, which line the scanner is on after it, and what it gives.
pub open spec fn lexeme_step(s: Seq<char>, start: int, line: nat) -> Step
    recommends
        0 <= start < s.len(),
{
    let c = s[start];
    let next = char_at(s, start + 1);
    if punctuation(c) is Some {
        plain_step(s, start, start + 1, line, punctuation(c)->0)
    } else if operator(c, false) is Some {
        if next == Some('=') {
            plain_step(s, start, start + 2, line, operator(c, true)->0)
        } else {
            plain_step(s, start, start + 1, line, operator(c, false)->0)
        }
    } else if c == '/' {
        if next == Some('/') {
            silent_step(find_char(s, start + 2, '\n'), line)
        } else {
            plain_step(s, start, start + 1, line, TokenType::Slash)
        }
    } else if is_blank(c) {
        silent_step(start + 1, line)
    } else if c == '\n' {
        silent_step(start + 1, advance_line(line, 1))
    } else if c == '"' {
        string_step(s, start, line)
    } else if is_digit(c) {
        number_step(s, start, line)
    } else {
        Step {
            end: start + 1,
            line,
            outcome: Outcome::Error(DiagnosticView { line, message: unexpected_character() }),
        }
    }
}

/// Every lexeme is at least one character long and ends inside the source.
pub proof fn lemma_step_advances(s: Seq<char>, start: int, line: nat)
    requires
        0 <= start < s.len(),
    ensures
        start < lexeme_step(s, start, line).end <= s.len(),
{
    let c = s[start];
    if c == '/' && char_at(s, start + 1) == Some('/') {
        lemma_find_char(s, start + 2, '\n');
    } else if c == '"' {
        lemma_find_char(s, start + 1, '"');
    } else if is_digit(c) {
        lemma_digits_end(s, start);
        let whole_end = digits_end(s, start);
        if whole_end + 1 < s.len() {
            lemma_digits_end(s, whole_end + 1);
        }
    }
}

/// What a source text gives: its tokens and the reports made on the way.
pub struct Scan {
    pub tokens: Seq<TokenView>,
    pub errors: Seq<DiagnosticView>,
}

/// The token that ends every scan: no text, no literal, and the line that
/// the scanner was on when the source ended.
pub open spec fn end_token(line: nat) -> TokenView {
    TokenView { kind: TokenType::Eof, lexeme: Seq::empty(), literal: None, line }
}

/// What the source gives from position `pos` on, with the scanner on `line`:
/// lexeme after lexeme, and the end token last.
pub open spec fn scan_from(s: Seq<char>, pos: int, line: nat) -> Scan
    decreases s.len() - pos,
    via scan_from_decreases
{
    if 0 <= pos < s.len() {
        let step = lexeme_step(s, pos, line);
        let rest = scan_from(s, step.end, step.line);
        Scan { tokens: step.tokens() + rest.tokens, errors: step.errors() + rest.errors }
    } else {
        Scan { tokens: seq![end_token(line)], errors: Seq::empty() }
    }
}

#[via_fn]
proof fn scan_from_decreases(s: Seq<char>, pos: int, line: nat) {
    if 0 <= pos < s.len() {
        lemma_step_advances(s, pos, line);
    }
}

/// What a whole source text gives: scanning starts at its first character,
/// on line 1.
pub open spec fn scan(source: Seq<char>) -> Scan {
    scan_from(source, 0, 1)
}

} // verus!
