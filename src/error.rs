//! The lexer's error type and its human-readable rendering.
use vstd::prelude::*;
use vstd::string::*;

use crate::location::{Location, Range};
use crate::text::{decimal, push_decimal};

verus! {

/// A failure found while reading a grammar source.
#[derive(Debug, Clone)]
pub enum Error {
    /// A failure at one point, or at no known point yet.
    Simple {
        /// What went wrong.
        message: String,
        /// Where it went wrong, 0-indexed, once known.
        location: Option<Location>,
    },
    /// A failure over a span of the source.
    Range {
        /// What went wrong.
        message: String,
        /// The offending span, 0-indexed.
        range: Range,
    },
}

/// The text of `e` as shown to a person: coordinates are written 1-based.
pub open spec fn display_text(e: Error) -> Seq<char> {
    match e {
        Error::Simple { message, location: Some(loc) } => message@ + "; "@ + decimal(
            loc.line as nat + 1,
        ) + ":"@ + decimal(loc.column as nat + 1) + ": "@,
        Error::Simple { message, location: None } => message@,
        Error::Range { message, range } => message@ + "; "@ + decimal(range.begin.line as nat + 1)
            + ":"@ + decimal(range.begin.column as nat + 1) + " - "@ + decimal(
            range.ex_end.line as nat + 1,
        ) + ":"@ + decimal(range.ex_end.column as nat + 1),
    }
}

impl Error {
    /// The message of the error, whatever its shape.
    pub open spec fn message_view(&self) -> Seq<char> {
        match self {
            Error::Simple { message, .. } => message@,
            Error::Range { message, .. } => message@,
        }
    }

    /// A point error with `message` and no location yet.
    pub fn simple(message: String) -> (e: Error)
        ensures
            e matches Error::Simple { message: m, location: None } && m@ == message@,
    {
        Error::Simple { message, location: None }
    }

    /// Attaches `location` to a point error that has none; any other error is
    /// returned as it is, so a location once set never changes.
    pub fn with_location(self, location: Location) -> (e: Error)
        ensures
            e == match self {
                Error::Simple { message, location: None } => Error::Simple {
                    message,
                    location: Some(location),
                },
                other => other,
            },
    {
        match self {
            Error::Simple { message, location: None } => Error::Simple {
                message,
                location: Some(location),
            },
            other => other,
        }
    }

    /// Renders the error for a person, with 1-based coordinates:
    /// `"{message}; {line}:{column}: "` for a located point error, the bare
    /// message for one without location, and
    /// `"{message}; {line}:{column} - {line}:{column}"` for a span.
    pub fn to_string(&self) -> (s: String)
        ensures
            s@ == display_text(*self),
    {
        match self {
            Error::Simple { message, location: Some(loc) } => {
                let mut s = message.clone();
                s.append("; ");
                push_decimal(&mut s, loc.line as u128 + 1);
                s.append(":");
                push_decimal(&mut s, loc.column as u128 + 1);
                s.append(": ");
                s
            },
            Error::Simple { message, location: None } => message.clone(),
            Error::Range { message, range } => {
                let mut s = message.clone();
                s.append("; ");
                push_decimal(&mut s, range.begin.line as u128 + 1);
                s.append(":");
                push_decimal(&mut s, range.begin.column as u128 + 1);
                s.append(" - ");
                push_decimal(&mut s, range.ex_end.line as u128 + 1);
                s.append(":");
                push_decimal(&mut s, range.ex_end.column as u128 + 1);
                s
            },
        }
    }
}

} // verus!
