//! The scanner: one pass over the source, lexeme by lexeme.

use vstd::prelude::*;
use crate::decimal::{digits_end, is_digit, lemma_digits_end_is, Decimal};
use crate::grammar::{
    advance_line, char_at, count_newlines, end_token, lemma_find_char_is, lemma_number_lexeme,
    lexeme_step, number_step, scan_from, string_step, Step,
};
use crate::reporter::{DiagnosticView, Lox};
use crate::text::{collect_chars, substring};
use crate::token::{literal_view, token_views, Object, Token, TokenType, TokenView};

verus! {

/// A scanner over one source text.
#[derive(Debug)]
pub struct Scanner {
    source_chars: Vec<char>,
    source: String,
    tokens: Vec<Token>,
    lox: Lox,
    start: usize,
    start_line: u32,
    current: usize,
    line: u32,
}

/// The mathematical content of a [`Scanner`].
pub struct ScannerView {
    /// The characters of the source, one per code point.
    pub source: Seq<char>,
    /// The tokens found so far, in source order.
    pub tokens: Seq<TokenView>,
    /// The reports made so far, in the order they were made.
    pub errors: Seq<DiagnosticView>,
    /// Where the lexeme being scanned starts.
    pub start: int,
    /// The line on which the lexeme being scanned starts.
    pub start_line: nat,
    /// The position of the next unread character.
    pub current: int,
    /// The line of the next unread character, counted from 1.
    pub line: nat,
}

impl ScannerView {
    /// The cursors are in order and inside the source, and lines count from 1.
    pub open spec fn wf(self) -> bool {
        &&& 0 <= self.start <= self.current <= self.source.len() <= usize::MAX
        &&& 1 <= self.start_line <= self.line <= u32::MAX
    }

    /// This state, moved on by `step` from the start of a lexeme.
    pub open spec fn after(self, step: Step) -> ScannerView {
        ScannerView {
            current: step.end,
            line: step.line,
            tokens: self.tokens + step.tokens(),
            errors: self.errors + step.errors(),
            ..self
        }
    }
}

impl View for Scanner {
    type V = ScannerView;

    closed spec fn view(&self) -> ScannerView {
        ScannerView {
            source: self.source_chars@,
            tokens: token_views(self.tokens@),
            errors: self.lox@,
            start: self.start as int,
            start_line: self.start_line as nat,
            current: self.current as int,
            line: self.line as nat,
        }
    }
}

impl Scanner {
    /// Whether the scanner is in a state that scanning can go on from.
    pub closed spec fn wf(&self) -> bool {
        &&& self@.wf()
        &&& self.source@ == self.source_chars@
    }

    /// A scanner at the start of `source`: on line 1, with no token and no
    /// report yet.
    pub fn new(source: &str) -> (out: Self)
        ensures
            out.wf(),
            out@ == (ScannerView {
                source: source@,
                tokens: Seq::empty(),
                errors: Seq::empty(),
                start: 0,
                start_line: 1,
                current: 0,
                line: 1,
            }),
    {
        let source_str = source.to_owned();
        let source_chars = collect_chars(source);
        let out = Self {
            source: source_str,
            source_chars,
            tokens: Vec::new(),
            lox: Lox::new(),
            start: 0,
            start_line: 1,
            current: 0,
            line: 1,
        };
        assert(out@.tokens =~= Seq::empty());
        assert(out.source_chars.len() <= usize::MAX);
        out
    }

    fn is_at_end(&self) -> (out: bool)
        ensures
            out == (self@.current >= self@.source.len()),
    {
        self.current >= self.source_chars.len()
    }

    /// Scans what is left of the source and adds the end token. Returns all
    /// tokens found so far.
    pub fn scan_tokens(&mut self) -> (out: &Vec<Token>)
        requires
            old(self).wf(),
        ensures
            final(self).wf(),
            final(self)@.source == old(self)@.source,
            final(self)@.current == old(self)@.source.len(),
            final(self)@.tokens == old(self)@.tokens + scan_from(
                old(self)@.source,
                old(self)@.current,
                old(self)@.line,
            ).tokens,
            final(self)@.errors == old(self)@.errors + scan_from(
                old(self)@.source,
                old(self)@.current,
                old(self)@.line,
            ).errors,
            final(self)@.tokens.len() > 0,
            final(self)@.tokens.last() == end_token(final(self)@.line),
            token_views(out@) == final(self)@.tokens,
    {
        let ghost source = self@.source;
        let ghost whole = scan_from(source, self@.current, self@.line);
        while !self.is_at_end()
            invariant
                self.wf(),
                self@.source == source,
                old(self)@.tokens + whole.tokens == self@.tokens + scan_from(
                    source,
                    self@.current,
                    self@.line,
                ).tokens,
                old(self)@.errors + whole.errors == self@.errors + scan_from(
                    source,
                    self@.current,
                    self@.line,
                ).errors,
            decreases self@.source.len() - self@.current,
        {
            // We are at the beginning of the next lexeme.
            self.start = self.current;
            self.start_line = self.line;
            self.scan_token();
        }
        let line = self.line;
        self.tokens.push(Token::new(TokenType::Eof, String::new(), None, line));
        &self.tokens
    }

    /// The tokens found so far, in source order.
    pub fn tokens(&self) -> (out: &Vec<Token>)
        ensures
            token_views(out@) == self@.tokens,
    {
        &self.tokens
    }

    /// The front end that this scanner reports to, with the reports made so
    /// far.
    pub fn lox(&self) -> (out: &Lox)
        ensures
            out@ == self@.errors,
    {
        &self.lox
    }

    /// The source text that this scanner reads.
    pub fn source(&self) -> (out: &str)
        requires
            self.wf(),
        ensures
            out@ == self@.source,
    {
        self.source.as_str()
    }

    /// The line of the next unread character, counted from 1.
    pub fn line(&self) -> (out: u32)
        ensures
            out == self@.line,
    {
        self.line
    }

    /// Gives up the scanner for what it has found: the tokens and the
    /// reports.
    pub fn finish(self) -> (out: (Vec<Token>, Lox))
        ensures
            token_views(out.0@) == self@.tokens,
            out.1@ == self@.errors,
    {
        (self.tokens, self.lox)
    }

    fn scan_token(&mut self)
        requires
            old(self).wf(),
            old(self)@.start == old(self)@.current,
            old(self)@.start_line == old(self)@.line,
            old(self)@.current < old(self)@.source.len(),
        ensures
            final(self).wf(),
            final(self)@ == old(self)@.after(
                lexeme_step(old(self)@.source, old(self)@.start, old(self)@.line),
            ),
            old(self)@.current < final(self)@.current,
    {
        let c = self.advance();
        match c {
            '(' => self.add_token(TokenType::LeftParen, None),
            ')' => self.add_token(TokenType::RightParen, None),
            '{' => self.add_token(TokenType::LeftBrace, None),
            '}' => self.add_token(TokenType::RightBrace, None),
            ',' => self.add_token(TokenType::Comma, None),
            '.' => self.add_token(TokenType::Dot, None),
            '-' => self.add_token(TokenType::Minus, None),
            '+' => self.add_token(TokenType::Plus, None),
            ';' => self.add_token(TokenType::Semicolon, None),
            '*' => self.add_token(TokenType::Star, None),
            '!' => {
                let token_type = if self.match_char('=') {
                    TokenType::BangEqual
                } else {
                    TokenType::Bang
                };
                self.add_token(token_type, None);
            },
            '=' => {
                let token_type = if self.match_char('=') {
                    TokenType::EqualEqual
                } else {
                    TokenType::Equal
                };
                self.add_token(token_type, None);
            },
            '<' => {
                let token_type = if self.match_char('=') {
                    TokenType::LessEqual
                } else {
                    TokenType::Less
                };
                self.add_token(token_type, None);
            },
            '>' => {
                let token_type = if self.match_char('=') {
                    TokenType::GreaterEqual
                } else {
                    TokenType::Greater
                };
                self.add_token(token_type, None);
            },
            '/' => {
                if self.match_char('/') {
                    // A comment goes until the end of the line.
                    while !self.is_at_end() && !self.next_is('\n')
                        invariant
                            self.wf(),
                            self@ == (ScannerView { current: self@.current, ..old(self)@ }),
                            old(self)@.current + 2 <= self@.current,
                            forall|i: int|
                                old(self)@.current + 2 <= i < self@.current ==> #[trigger] self@.source[i]
                                    != '\n',
                        decreases self@.source.len() - self@.current,
                    {
                        self.advance();
                    }
                    proof {
                        lemma_find_char_is(
                            self@.source,
                            old(self)@.current + 2,
                            '\n',
                            self@.current,
                        );
                    }
                } else {
                    self.add_token(TokenType::Slash, None);
                }
            },
            ' ' | '\r' | '\t' => {},
            '\n' => {
                self.next_line();
            },
            '"' => {
                self.string();
            },
            '0'..='9' => {
                self.number();
            },
            _ => {
                let line = self.line;
                self.lox.error(line, "Unexpected character.".to_owned());
            },
        }
        proof {
            let want = old(self)@.after(
                lexeme_step(old(self)@.source, old(self)@.start, old(self)@.line),
            );
            assert(self@.tokens =~= want.tokens);
            assert(self@.errors =~= want.errors);
        }
    }

    fn is_digit(&self, c: &char) -> (out: bool)
        ensures
            out == is_digit(*c),
    {
        *c >= '0' && *c <= '9'
    }

    /// Moves to the next line. The count stops at the largest line number.
    fn next_line(&mut self)
        requires
            old(self).wf(),
        ensures
            final(self).wf(),
            final(self)@ == (ScannerView { line: advance_line(old(self)@.line, 1), ..old(self)@ }),
    {
        if self.line < u32::MAX {
            self.line += 1;
        }
    }

    /// Consumes digits as long as there are any.
    fn digits(&mut self)
        requires
            old(self).wf(),
        ensures
            final(self).wf(),
            final(self)@ == (ScannerView {
                current: digits_end(old(self)@.source, old(self)@.current),
                ..old(self)@
            }),
    {
        loop
            invariant
                self.wf(),
                self@ == (ScannerView { current: self@.current, ..old(self)@ }),
                old(self)@.current <= self@.current,
                forall|i: int|
                    old(self)@.current <= i < self@.current ==> is_digit(#[trigger] self@.source[i]),
            ensures
                self@.current < self@.source.len() ==> !is_digit(self@.source[self@.current]),
            decreases self@.source.len() - self@.current,
        {
            match self.peek() {
                Some(c) => {
                    if self.is_digit(&c) {
                        self.advance();
                    } else {
                        break ;
                    }
                },
                None => {
                    break ;
                },
            }
        }
        proof {
            lemma_digits_end_is(self@.source, old(self)@.current, self@.current);
        }
    }

    fn number(&mut self)
        requires
            old(self).wf(),
            old(self)@.current == old(self)@.start + 1,
            old(self)@.line == old(self)@.start_line,
            is_digit(old(self)@.source[old(self)@.start]),
        ensures
            final(self).wf(),
            final(self)@ == old(self)@.after(
                number_step(old(self)@.source, old(self)@.start, old(self)@.start_line),
            ),
            old(self)@.current <= final(self)@.current,
    {
        let ghost source = self@.source;
        let ghost start = self@.start;
        self.digits();

        // Look for a fractional part.
        let after_point = match self.peek_next() {
            Some(c) => self.is_digit(&c),
            None => false,
        };
        if self.next_is('.') && after_point {
            // Consume the "."
            self.advance();
            self.digits();
        }
        proof {
            lemma_number_lexeme(source, start);
        }
        let value = Decimal::from_chars(&self.source_chars, self.start, self.current).unwrap();
        self.add_token(TokenType::Number, Some(Object::Num(value)));
        proof {
            let want = old(self)@.after(number_step(source, start, old(self)@.start_line));
            assert(self@.tokens =~= want.tokens);
        }
    }

    fn string(&mut self)
        requires
            old(self).wf(),
            old(self)@.current == old(self)@.start + 1,
            old(self)@.line == old(self)@.start_line,
            old(self)@.source[old(self)@.start] == '"',
        ensures
            final(self).wf(),
            final(self)@ == old(self)@.after(
                string_step(old(self)@.source, old(self)@.start, old(self)@.start_line),
            ),
            old(self)@.current <= final(self)@.current,
    {
        let ghost source = self@.source;
        let ghost start = self@.start;
        let ghost line = self@.start_line;
        while !self.is_at_end() && !self.next_is('"')
            invariant
                self.wf(),
                self@ == (ScannerView { current: self@.current, line: self@.line, ..old(self)@ }),
                source == old(self)@.source,
                start == old(self)@.start,
                line == old(self)@.start_line,
                start + 1 <= self@.current,
                forall|i: int| start + 1 <= i < self@.current ==> #[trigger] source[i] != '"',
                self@.line == advance_line(line, count_newlines(source, start + 1, self@.current)),
            decreases self@.source.len() - self@.current,
        {
            if self.next_is('\n') {
                self.next_line();
            }
            self.advance();
        }
        proof {
            lemma_find_char_is(source, start + 1, '"', self@.current);
        }

        if self.is_at_end() {
            let start_line = self.start_line;
            self.lox.error(start_line, "Unterminated string.".to_owned());
            proof {
                let want = old(self)@.after(string_step(source, start, line));
                assert(self@.errors =~= want.errors);
            }
            return ;
        }
        // The closing ".

        self.advance();

        // Trim the surrounding quotes.
        let value = substring(&self.source_chars, self.start + 1, self.current - 1);
        self.add_token(TokenType::String, Some(Object::Str(value)));
        proof {
            let want = old(self)@.after(string_step(source, start, line));
            assert(self@.tokens =~= want.tokens);
        }
    }

    fn peek(&self) -> (out: Option<char>)
        ensures
            out == char_at(self@.source, self@.current),
    {
        if self.is_at_end() {
            return None;
        }
        Some(self.source_chars[self.current])
    }

    /// Whether the next unread character is `expected`.
    fn next_is(&self, expected: char) -> (out: bool)
        ensures
            out == (char_at(self@.source, self@.current) == Some(expected)),
    {
        match self.peek() {
            Some(c) => c == expected,
            None => false,
        }
    }

    fn peek_next(&self) -> (out: Option<char>)
        ensures
            out == char_at(self@.source, self@.current + 1),
    {
        if self.current >= self.source_chars.len() || self.current + 1 >= self.source_chars.len() {
            return None;
        }
        Some(self.source_chars[self.current + 1])
    }

    fn match_char(&mut self, expected: char) -> (out: bool)
        requires
            old(self).wf(),
        ensures
            final(self).wf(),
            out == (char_at(old(self)@.source, old(self)@.current) == Some(expected)),
            final(self)@ == (ScannerView {
                current: if out {
                    old(self)@.current + 1
                } else {
                    old(self)@.current
                },
                ..old(self)@
            }),
    {
        if self.is_at_end() {
            return false;
        }
        if self.source_chars[self.current] != expected {
            return false;
        }
        self.current += 1;
        true
    }

    fn advance(&mut self) -> (out: char)
        requires
            old(self).wf(),
            old(self)@.current < old(self)@.source.len(),
        ensures
            final(self).wf(),
            out == old(self)@.source[old(self)@.current],
            final(self)@ == (ScannerView { current: old(self)@.current + 1, ..old(self)@ }),
    {
        let n = self.current;
        self.current += 1;
        self.source_chars[n]
    }

    fn add_token(&mut self, ttype: TokenType, literal: Option<Object>)
        requires
            old(self).wf(),
        ensures
            final(self).wf(),
            final(self)@ == (ScannerView {
                tokens: old(self)@.tokens.push(
                    TokenView {
                        kind: ttype,
                        lexeme: old(self)@.source.subrange(old(self)@.start, old(self)@.current),
                        literal: literal_view(literal),
                        line: old(self)@.start_line,
                    },
                ),
                ..old(self)@
            }),
    {
        let text = substring(&self.source_chars, self.start, self.current);
        let line = self.start_line;
        self.tokens.push(Token::new(ttype, text, literal, line));
        assert(self@.tokens == old(self)@.tokens.push(
            TokenView {
                kind: ttype,
                lexeme: old(self)@.source.subrange(old(self)@.start, old(self)@.current),
                literal: literal_view(literal),
                line: old(self)@.start_line,
            },
        ));
    }
}

} // verus!
