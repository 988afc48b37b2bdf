//! Editor-facing diagnostics, and how lexer errors become them.
//!
//! Editor positions are 0-indexed like [`Location`], so coordinates pass
//! through unchanged; they are 32-bit, and a location that does not fit falls
//! back to the empty range at the origin.
use vstd::prelude::*;

use crate::error::Error;
use crate::location::{Location, Range};

verus! {

/// A position as an editor counts it: 0-indexed line and character.
#[derive(Copy, Clone, Debug, PartialEq, Eq, Structural)]
pub struct Position {
    pub line: u32,
    pub character: u32,
}

/// A span between two editor positions; `end` is exclusive.
#[derive(Copy, Clone, Debug, PartialEq, Eq, Structural)]
pub struct TextRange {
    pub start: Position,
    pub end: Position,
}

/// How serious a diagnostic is.
#[derive(Copy, Clone, Debug, PartialEq, Eq, Structural)]
pub enum Severity {
    Error,
    Warning,
    Information,
    Hint,
}

/// A problem to show in the editor.
#[derive(Clone, Debug, PartialEq, Eq)]
pub struct Diagnostic {
    pub range: TextRange,
    pub message: String,
    pub severity: Option<Severity>,
    pub source: Option<String>,
}

/// The empty range at the start of the document.
pub open spec fn origin_range() -> TextRange {
    TextRange { start: Position { line: 0, character: 0 }, end: Position { line: 0, character: 0 } }
}

/// `loc` has an editor position.
pub open spec fn fits_position(loc: Location) -> bool {
    loc.line <= u32::MAX && loc.column <= u32::MAX
}

/// The editor position of `loc`, where it fits.
pub open spec fn position_of(loc: Location) -> Position {
    Position { line: loc.line as u32, character: loc.column as u32 }
}

/// The range that a diagnostic for a point error at `location` covers: the
/// one character there, or the empty range at the origin where there is no
/// location or it does not fit.
pub open spec fn point_range(location: Option<Location>) -> TextRange {
    match location {
        Some(loc) => if fits_position(loc) && loc.column < u32::MAX {
            TextRange {
                start: position_of(loc),
                end: Position { line: loc.line as u32, character: (loc.column + 1) as u32 },
            }
        } else {
            origin_range()
        },
        None => origin_range(),
    }
}

/// The range that a diagnostic for a span error covers: the span itself, or
/// the empty range at the origin where it does not fit.
pub open spec fn span_range(range: Range) -> TextRange {
    if fits_position(range.begin) && fits_position(range.ex_end) {
        TextRange { start: position_of(range.begin), end: position_of(range.ex_end) }
    } else {
        origin_range()
    }
}

/// The range that a diagnostic for `e` covers.
pub open spec fn error_range(e: Error) -> TextRange {
    match e {
        Error::Simple { location, .. } => point_range(location),
        Error::Range { range, .. } => span_range(range),
    }
}

/// The text of an optional string.
pub open spec fn opt_view(s: Option<String>) -> Option<Seq<char>> {
    match s {
        Some(t) => Some(t@),
        None => None,
    }
}

/// `a` and `b` report the same thing.
pub open spec fn same_diagnostic(a: Diagnostic, b: Diagnostic) -> bool {
    &&& a.range == b.range
    &&& a.message@ == b.message@
    &&& a.severity == b.severity
    &&& opt_view(a.source) == opt_view(b.source)
}

impl Diagnostic {
    /// A copy of this diagnostic.
    pub fn duplicate(&self) -> (r: Diagnostic)
        ensures
            same_diagnostic(r, *self),
    {
        let source = match &self.source {
            Some(s) => Some(s.clone()),
            None => None,
        };
        Diagnostic { range: self.range, message: self.message.clone(), severity: self.severity, source }
    }
}

impl Default for Position {
    /// The start of the document.
    fn default() -> (r: Position)
        ensures
            r == (Position { line: 0, character: 0 }),
    {
        Position { line: 0, character: 0 }
    }
}

impl Location {
    /// The editor position of this location, if both coordinates fit.
    pub fn try_into_position(&self) -> (r: Option<Position>)
        ensures
            r == if fits_position(*self) {
                Some(position_of(*self))
            } else {
                None
            },
    {
        if self.line <= u32::MAX as usize && self.column <= u32::MAX as usize {
            Some(Position { line: self.line as u32, character: self.column as u32 })
        } else {
            None
        }
    }
}

impl Error {
    /// The editor range that a diagnostic for this error covers.
    pub fn range(&self) -> (r: TextRange)
        ensures
            r == error_range(*self),
    {
        let origin = TextRange {
            start: Position { line: 0, character: 0 },
            end: Position { line: 0, character: 0 },
        };
        match self {
            Error::Simple { location: Some(loc), .. } => match loc.try_into_position() {
                Some(begin) => {
                    if begin.character < u32::MAX {
                        TextRange {
                            start: begin,
                            end: Position { line: begin.line, character: begin.character + 1 },
                        }
                    } else {
                        origin
                    }
                },
                None => origin,
            },
            Error::Simple { location: None, .. } => origin,
            Error::Range { range, .. } => match (
                range.begin.try_into_position(),
                range.ex_end.try_into_position(),
            ) {
                (Some(start), Some(end)) => TextRange { start, end },
                _ => origin,
            },
        }
    }

    /// The message of the error.
    pub fn msg(&self) -> (r: String)
        ensures
            r@ == self.message_view(),
    {
        match self {
            Error::Simple { message, .. } => message.clone(),
            Error::Range { message, .. } => message.clone(),
        }
    }

    /// The diagnostic that reports this error, with the `severity` and
    /// `source` that the caller chose.
    pub fn into_lsp_diagnostic(self, severity: Option<Severity>, source: Option<String>) -> (r:
        Diagnostic)
        ensures
            r.range == error_range(self),
            r.message@ == self.message_view(),
            r.severity == severity,
            r.source == source,
    {
        Diagnostic { range: self.range(), message: self.msg(), severity, source }
    }
}

} // verus!
