//! The error taxonomy of the library. Every configuration fault is detected
//! eagerly at construction time; commit-time I/O faults are reported through
//! `IoFailure` by the code that performs the commit.

use vstd::prelude::*;

verus! {

/// Errors reported while configuring or committing a renaming run.
#[derive(Debug, PartialEq, Eq)]
pub enum Error {
    /// The format string holds no `%[dse]<digits>%` placeholder.
    NoFormattingPatterns,
    /// A placeholder's type letter is not one of `d`, `s` or `e`; carries the
    /// offending text.
    UnknownFormatType(String),
    /// A placeholder's number is zero or too large for an index; carries the
    /// placeholder text.
    InvalidNumericId(String),
    /// A pattern failed to compile; carries the pattern.
    InvalidPattern(String),
    /// A configuration value is unusable, such as a zero processing cap;
    /// carries a description.
    InvalidConfiguration(String),
    /// A commit-time filesystem failure; carries a description.
    IoFailure(String),
}

} // verus!
