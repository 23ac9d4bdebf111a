//! The error taxonomy of the editor: parse failures, range violations,
//! empty-buffer and missing-filename conditions, and wrapped collaborator
//! failures (interactive input, file I/O).

use vstd::prelude::*;
use crate::numerals::{decimal_seq, push_decimal};

verus! {

/// Everything a command can fail with.
///
/// * `InvalidRange` - the first address exceeds the second, an address lies
///   beyond the buffer, or a forbidden zero endpoint was given to a
///   destructive verb.
/// * `EmptyBuffer` - a print or delete was attempted with no lines.
/// * `MissingFilename` - a write with neither an argument nor a remembered
///   file name.
/// * `ParseError` - malformed command syntax; carries the character position
///   where parsing stopped.
/// * `InputModeError` - the interactive line-input collaborator failed; the
///   payload is its report.
/// * `IOError` - an underlying read or write failed; the payload is its
///   report.
#[derive(Debug, PartialEq, Eq, Clone)]
pub enum EdCommandError {
    InvalidRange,
    EmptyBuffer,
    MissingFilename,
    ParseError(usize),
    InputModeError(String),
    IOError(String),
}

impl EdCommandError {
    /// The text `message` renders for each variant.
    pub open spec fn message_view(&self) -> Seq<char> {
        match self {
            EdCommandError::InvalidRange => "Invalid Range"@,
            EdCommandError::EmptyBuffer => "Empty Buffer"@,
            EdCommandError::MissingFilename => "No filename provided"@,
            EdCommandError::ParseError(pos) => "Parse Error at character "@ + decimal_seq(
                *pos as int,
            ),
            EdCommandError::InputModeError(s) => "Input Error: "@ + s@,
            EdCommandError::IOError(s) => "IO Error: "@ + s@,
        }
    }

    /// Renders the error as one line of diagnostic text.
    pub fn message(&self) -> (r: String)
        ensures
            r@ == self.message_view(),
    {
        match self {
            EdCommandError::InvalidRange => String::from_str("Invalid Range"),
            EdCommandError::EmptyBuffer => String::from_str("Empty Buffer"),
            EdCommandError::MissingFilename => String::from_str("No filename provided"),
            EdCommandError::ParseError(pos) => {
                let mut s = String::from_str("Parse Error at character ");
                push_decimal(&mut s, *pos);
                s
            },
            EdCommandError::InputModeError(text) => {
                let mut s = String::from_str("Input Error: ");
                s.append(text.as_str());
                s
            },
            EdCommandError::IOError(text) => {
                let mut s = String::from_str("IO Error: ");
                s.append(text.as_str());
                s
            },
        }
    }
}

} // verus!
