//! Errors of the editor core, and the text shown for them.

use vstd::prelude::*;
use crate::text::{decimal, decimal_text};

verus! {

/// Why an operation of the editor failed.
#[derive(Debug, Clone, PartialEq, Eq)]
pub enum GliError {
    /// No file at the given path.
    FileNotFound(String),
    /// The file could not be read for lack of permission.
    PermissionDenied(String),
    /// The file is not valid UTF-8.
    InvalidEncoding(String),
    /// A line number outside the file: (requested, total).
    LineOutOfBounds(usize, usize),
    /// The file was changed by another process.
    ConcurrentModification(String),
    /// Changes could not be written.
    WriteFailure(String),
    /// A malformed line specification or an inverted range.
    InvalidArguments(String),
    /// Another input/output failure, with its description.
    IoError(String),
}

/// The text shown to the user for an error.
pub open spec fn error_text(e: GliError) -> Seq<char> {
    match e {
        GliError::FileNotFound(path) => "Error: File not found: "@ + path@
            + "\n\nSuggestion: Create the file with:\n  touch .gitleaksignore"@,
        GliError::PermissionDenied(path) => "Error: Permission denied: "@ + path@
            + "\n\nSuggestion: Check file permissions with:\n  ls -l "@ + path@,
        GliError::InvalidEncoding(path) => "Error: File contains invalid UTF-8: "@ + path@,
        GliError::LineOutOfBounds(requested, total) => "Error: Line "@ + decimal(
            requested as nat,
        ) + " is out of bounds (file has "@ + decimal(total as nat)
            + " lines)\n\nValid range: 1-"@ + decimal(total as nat),
        GliError::ConcurrentModification(path) => "Warning: File was modified by another process: "@
            + path@,
        GliError::WriteFailure(msg) => "Error: Unable to save changes: "@ + msg@,
        GliError::InvalidArguments(msg) => "Error: Invalid arguments: "@ + msg@,
        GliError::IoError(msg) => "I/O Error: "@ + msg@,
    }
}

fn joined(prefix: &str, s: &String) -> (r: String)
    ensures
        r@ == prefix@ + s@,
{
    let mut r = String::from_str(prefix);
    r.append(s.as_str());
    r
}

impl GliError {
    /// The text shown to the user for this error.
    pub fn describe(&self) -> (r: String)
        ensures
            r@ == error_text(*self),
    {
        match self {
            GliError::FileNotFound(path) => {
                let mut r = joined("Error: File not found: ", path);
                r.append("\n\nSuggestion: Create the file with:\n  touch .gitleaksignore");
                r
            },
            GliError::PermissionDenied(path) => {
                let mut r = joined("Error: Permission denied: ", path);
                r.append("\n\nSuggestion: Check file permissions with:\n  ls -l ");
                r.append(path.as_str());
                r
            },
            GliError::InvalidEncoding(path) => joined("Error: File contains invalid UTF-8: ", path),
            GliError::LineOutOfBounds(requested, total) => {
                let mut r = String::from_str("Error: Line ");
                r.append(decimal_text(*requested as u64).as_str());
                r.append(" is out of bounds (file has ");
                let t = decimal_text(*total as u64);
                r.append(t.as_str());
                r.append(" lines)\n\nValid range: 1-");
                r.append(t.as_str());
                r
            },
            GliError::ConcurrentModification(path) => joined(
                "Warning: File was modified by another process: ",
                path,
            ),
            GliError::WriteFailure(msg) => joined("Error: Unable to save changes: ", msg),
            GliError::InvalidArguments(msg) => joined("Error: Invalid arguments: ", msg),
            GliError::IoError(msg) => joined("I/O Error: ", msg),
        }
    }
}

} // verus!
