//! Where the front end reports what is wrong with a source text.
//!
//! Nothing is printed here: each report is kept, in the order it was made,
//! and the caller decides how to show it.

use vstd::prelude::*;
use crate::grammar::scan;
use crate::scanner::Scanner;
use crate::token::{token_views, Token};

verus! {

/// One report: a line of the source and what is wrong there.
#[derive(Debug, PartialEq, Eq)]
pub struct Diagnostic {
    /// The line, counted from 1.
    pub line: u32,
    /// What is wrong, in words.
    pub message: String,
}

/// The mathematical content of a [`Diagnostic`].
pub struct DiagnosticView {
    pub line: nat,
    pub message: Seq<char>,
}

impl View for Diagnostic {
    type V = DiagnosticView;

    open spec fn view(&self) -> DiagnosticView {
        DiagnosticView { line: self.line as nat, message: self.message@ }
    }
}

/// The views of a sequence of reports, in the same order.
pub open spec fn diagnostic_views(diagnostics: Seq<Diagnostic>) -> Seq<DiagnosticView> {
    diagnostics.map_values(|d: Diagnostic| d@)
}

/// The interpreter's front end, as far as its callers see it: it collects the
/// errors that were reported while a source text was read.
#[derive(Debug)]
pub struct Lox {
    diagnostics: Vec<Diagnostic>,
}

impl View for Lox {
    type V = Seq<DiagnosticView>;

    closed spec fn view(&self) -> Seq<DiagnosticView> {
        diagnostic_views(self.diagnostics@)
    }
}

impl Lox {
    /// A front end to which nothing has been reported.
    pub fn new() -> (out: Lox)
        ensures
            out@ == Seq::<DiagnosticView>::empty(),
    {
        Lox { diagnostics: Vec::new() }
    }

    /// Reports `message` for `line`: the report is added after those made
    /// before.
    pub fn error(&mut self, line: u32, message: String)
        ensures
            final(self)@ == old(self)@.push(
                DiagnosticView { line: line as nat, message: message@ },
            ),
    {
        self.diagnostics.push(Diagnostic { line, message });
    }

    /// Scans `source` from its first character to its end. Returns the
    /// tokens, and the front end with what was reported on the way.
    pub fn run(source: &str) -> (out: (Vec<Token>, Lox))
        ensures
            token_views(out.0@) == scan(source@).tokens,
            out.1@ == scan(source@).errors,
    {
        let mut scanner: Scanner = Scanner::new(source);
        scanner.scan_tokens();
        scanner.finish()
    }

    /// Whether anything has been reported.
    pub fn had_error(&self) -> (out: bool)
        ensures
            out == (self@.len() > 0),
    {
        self.diagnostics.len() > 0
    }

    /// The reports, in the order in which they were made.
    pub fn diagnostics(&self) -> (out: &Vec<Diagnostic>)
        ensures
            diagnostic_views(out@) == self@,
    {
        &self.diagnostics
    }
}

} // verus!
