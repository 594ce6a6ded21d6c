//! The token model: what kinds of lexeme there are, what a literal carries,
//! and the record that the scanner produces for each lexeme.

use vstd::prelude::*;
use vstd::string::StringExecFns;
use crate::decimal::{Decimal, DecimalView};

verus! {

/// The kinds of lexeme.
#[derive(Clone, Copy, Debug, PartialEq, Eq, Hash, Structural)]
pub enum TokenType {
    LeftParen,
    RightParen,
    LeftBrace,
    RightBrace,
    Comma,
    Dot,
    Minus,
    Plus,
    Semicolon,
    Slash,
    Star,
    Bang,
    BangEqual,
    Equal,
    EqualEqual,
    Greater,
    GreaterEqual,
    Less,
    LessEqual,
    String,
    Number,
    Eof,
}

/// The name under which a kind of token is shown.
pub open spec fn kind_name(kind: TokenType) -> Seq<char> {
    match kind {
        TokenType::LeftParen => "LeftParen"@,
        TokenType::RightParen => "RightParen"@,
        TokenType::LeftBrace => "LeftBrace"@,
        TokenType::RightBrace => "RightBrace"@,
        TokenType::Comma => "Comma"@,
        TokenType::Dot => "Dot"@,
        TokenType::Minus => "Minus"@,
        TokenType::Plus => "Plus"@,
        TokenType::Semicolon => "Semicolon"@,
        TokenType::Slash => "Slash"@,
        TokenType::Star => "Star"@,
        TokenType::Bang => "Bang"@,
        TokenType::BangEqual => "BangEqual"@,
        TokenType::Equal => "Equal"@,
        TokenType::EqualEqual => "EqualEqual"@,
        TokenType::Greater => "Greater"@,
        TokenType::GreaterEqual => "GreaterEqual"@,
        TokenType::Less => "Less"@,
        TokenType::LessEqual => "LessEqual"@,
        TokenType::String => "String"@,
        TokenType::Number => "Number"@,
        TokenType::Eof => "Eof"@,
    }
}

impl TokenType {
    /// The name under which this kind is shown.
    pub fn name(&self) -> (out: &'static str)
        ensures
            out@ == kind_name(*self),
    {
        match self {
            TokenType::LeftParen => "LeftParen",
            TokenType::RightParen => "RightParen",
            TokenType::LeftBrace => "LeftBrace",
            TokenType::RightBrace => "RightBrace",
            TokenType::Comma => "Comma",
            TokenType::Dot => "Dot",
            TokenType::Minus => "Minus",
            TokenType::Plus => "Plus",
            TokenType::Semicolon => "Semicolon",
            TokenType::Slash => "Slash",
            TokenType::Star => "Star",
            TokenType::Bang => "Bang",
            TokenType::BangEqual => "BangEqual",
            TokenType::Equal => "Equal",
            TokenType::EqualEqual => "EqualEqual",
            TokenType::Greater => "Greater",
            TokenType::GreaterEqual => "GreaterEqual",
            TokenType::Less => "Less",
            TokenType::LessEqual => "LessEqual",
            TokenType::String => "String",
            TokenType::Number => "Number",
            TokenType::Eof => "Eof",
        }
    }
}

/// A literal value: a string, a number, or nothing.
#[derive(Debug, PartialEq, Eq)]
pub enum Object {
    Str(String),
    Num(Decimal),
    Nil,
}

/// The mathematical content of an [`Object`].
pub enum ObjectView {
    Str(Seq<char>),
    Num(DecimalView),
    Nil,
}

impl ObjectView {
    /// How the value is shown: a string as it is, a number in its shortest
    /// decimal spelling, and nothing as `nil`.
    pub open spec fn text(self) -> Seq<char> {
        match self {
            ObjectView::Str(s) => s,
            ObjectView::Num(d) => d.text(),
            ObjectView::Nil => "nil"@,
        }
    }
}

impl View for Object {
    type V = ObjectView;

    open spec fn view(&self) -> ObjectView {
        match self {
            Object::Str(s) => ObjectView::Str(s@),
            Object::Num(d) => ObjectView::Num(d@),
            Object::Nil => ObjectView::Nil,
        }
    }
}

impl Clone for Object {
    fn clone(&self) -> (out: Self)
        ensures
            out@ == self@,
    {
        match self {
            Object::Str(s) => Object::Str(s.clone()),
            Object::Num(d) => Object::Num(d.clone()),
            Object::Nil => Object::Nil,
        }
    }
}

impl Object {
    /// Appends the way this value is shown to `out`.
    pub fn write_to(&self, out: &mut String)
        ensures
            final(out)@ == old(out)@ + self@.text(),
    {
        match self {
            Object::Str(s) => out.append(s.as_str()),
            Object::Num(d) => d.write_to(out),
            Object::Nil => out.append("nil"),
        }
    }

    /// The way this value is shown.
    pub fn to_string(&self) -> (out: String)
        ensures
            out@ == self@.text(),
    {
        let mut out = String::new();
        self.write_to(&mut out);
        out
    }
}

/// The view of a literal that may be absent.
pub open spec fn literal_view(literal: Option<Object>) -> Option<ObjectView> {
    match literal {
        Some(value) => Some(value@),
        None => None,
    }
}

/// How a literal that may be absent is shown: an absent one as `nil`.
pub open spec fn literal_text(literal: Option<ObjectView>) -> Seq<char> {
    match literal {
        Some(value) => value.text(),
        None => "nil"@,
    }
}

/// One lexeme of the source, classified.
#[derive(Debug, PartialEq, Eq)]
pub struct Token {
    /// The kind of lexeme.
    pub token_type: TokenType,
    /// The exact text that was matched.
    pub lexeme: String,
    /// The value of a string or number literal; `None` for every other kind.
    pub literal: Option<Object>,
    /// The line, counted from 1, on which the lexeme starts.
    pub line: u32,
}

/// The mathematical content of a [`Token`].
pub struct TokenView {
    pub kind: TokenType,
    pub lexeme: Seq<char>,
    pub literal: Option<ObjectView>,
    pub line: nat,
}

impl TokenView {
    /// Whether the literal is what the kind calls for: a string for a string
    /// token, a well-formed numeral for a number token, and none for any
    /// other.
    pub open spec fn literal_fits(self) -> bool {
        match self.kind {
            TokenType::String => self.literal matches Some(ObjectView::Str(_)),
            TokenType::Number => self.literal matches Some(ObjectView::Num(d)) && d.wf(),
            _ => self.literal is None,
        }
    }

    /// How the token is shown: its kind, its lexeme and its literal, with a
    /// space between them.
    pub open spec fn text(self) -> Seq<char> {
        kind_name(self.kind) + seq![' '] + self.lexeme + seq![' '] + literal_text(self.literal)
    }
}

impl View for Token {
    type V = TokenView;

    open spec fn view(&self) -> TokenView {
        TokenView {
            kind: self.token_type,
            lexeme: self.lexeme@,
            literal: literal_view(self.literal),
            line: self.line as nat,
        }
    }
}

impl Clone for Token {
    fn clone(&self) -> (out: Self)
        ensures
            out@ == self@,
    {
        let literal = match &self.literal {
            Some(value) => Some(value.clone()),
            None => None,
        };
        Token { token_type: self.token_type, lexeme: self.lexeme.clone(), literal, line: self.line }
    }
}

impl Token {
    /// A token with the given kind, lexeme, literal and line.
    pub fn new(token_type: TokenType, lexeme: String, literal: Option<Object>, line: u32) -> (out:
        Token)
        ensures
            out@ == (TokenView {
                kind: token_type,
                lexeme: lexeme@,
                literal: literal_view(literal),
                line: line as nat,
            }),
    {
        Token { token_type, lexeme, literal, line }
    }

    /// The token as a line of text: kind, lexeme and literal.
    pub fn to_string(&self) -> (out: String)
        ensures
            out@ == self@.text(),
    {
        let mut out = String::new();
        out.append(self.token_type.name());
        out.push(' ');
        out.append(self.lexeme.as_str());
        out.push(' ');
        match &self.literal {
            Some(value) => value.write_to(&mut out),
            None => out.append("nil"),
        }
        out
    }
}

/// The views of a sequence of tokens, in the same order.
pub open spec fn token_views(tokens: Seq<Token>) -> Seq<TokenView> {
    tokens.map_values(|t: Token| t@)
}

} // verus!
