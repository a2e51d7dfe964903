//! Source positions and diagnostics.
//!
//! Positions count characters of the source text, not bytes.

use vstd::prelude::*;

verus! {

/// A half-open range `[start, end)` of character positions in the source text.
#[derive(Copy, Clone, Debug, PartialEq, Eq, Hash, Structural)]
pub struct Span {
    pub start: usize,
    pub end: usize,
}

impl Span {
    /// The span from `start` up to, but not including, `end`.
    pub open spec fn between(start: int, end: int) -> Span {
        Span { start: start as usize, end: end as usize }
    }

    /// Whether position `pos` lies inside the span.
    pub open spec fn covers(self, pos: int) -> bool {
        self.start <= pos < self.end
    }

    pub fn new(start: usize, end: usize) -> (span: Span)
        ensures
            span == (Span { start, end }),
            span == Span::between(start as int, end as int),
    {
        Span { start, end }
    }

    /// The number of positions the span covers; an inverted span covers none.
    pub fn len(&self) -> (n: usize)
        ensures
            n == if self.start <= self.end {
                self.end - self.start
            } else {
                0
            },
    {
        if self.start <= self.end {
            self.end - self.start
        } else {
            0
        }
    }

    pub fn is_empty(&self) -> (r: bool)
        ensures
            r == (self.end <= self.start),
    {
        self.end <= self.start
    }

    pub fn contains(&self, pos: usize) -> (r: bool)
        ensures
            r == self.covers(pos as int),
    {
        self.start <= pos && pos < self.end
    }
}

/// What went wrong at a place in the source text.
#[derive(Copy, Clone, Debug, PartialEq, Eq, Hash, Structural)]
pub enum ErrorKind {
    /// An escape sequence in a string literal that names no character.
    InvalidUnicodeEscape,
    /// A character that starts no token.
    UnexpectedToken(char),
    /// An integer literal too large for a signed 128-bit integer.
    IntegerOverflow,
    /// A string literal whose closing quote is missing.
    UnterminatedString,
}

impl ErrorKind {
    /// The name of the kind of diagnostic, for people to read.
    pub open spec fn category_text(self) -> Seq<char> {
        match self {
            ErrorKind::InvalidUnicodeEscape => "invalid unicode escape"@,
            ErrorKind::UnexpectedToken(_) => "unexpected token"@,
            ErrorKind::IntegerOverflow => "integer overflow"@,
            ErrorKind::UnterminatedString => "unterminated string"@,
        }
    }

    /// The name of the kind of diagnostic, for people to read.
    pub fn category(&self) -> (r: &'static str)
        ensures
            r@ == self.category_text(),
    {
        match self {
            ErrorKind::InvalidUnicodeEscape => "invalid unicode escape",
            ErrorKind::UnexpectedToken(_) => "unexpected token",
            ErrorKind::IntegerOverflow => "integer overflow",
            ErrorKind::UnterminatedString => "unterminated string",
        }
    }
}

/// A diagnostic: what went wrong, and where.
#[derive(Copy, Clone, Debug, PartialEq, Eq, Hash, Structural)]
pub struct Error {
    pub kind: ErrorKind,
    pub span: Span,
}

impl Error {
    /// The diagnostic of the given kind for the positions `[start, end)`.
    pub open spec fn at(kind: ErrorKind, start: int, end: int) -> Error {
        Error { kind, span: Span::between(start, end) }
    }

    pub fn new(kind: ErrorKind, span: Span) -> (e: Error)
        ensures
            e == (Error { kind, span }),
    {
        Error { kind, span }
    }
}

} // verus!
