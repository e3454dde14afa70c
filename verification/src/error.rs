//! The two failures that belong to the search itself.

use vstd::prelude::*;

verus! {

/// Why a search produced no report.
#[derive(Debug, Clone, Copy, PartialEq, Eq, Structural)]
pub enum Error {
    /// The pattern was searched in every line and matched none.
    NoMatches,
    /// The file's extension is missing or is not `tsv`.
    NotTsv,
}

impl Error {
    /// The text of the message shown to the user for this failure.
    pub open spec fn message_text(self) -> Seq<char> {
        match self {
            Error::NoMatches => "No matches using the provided pattern"@,
            Error::NotTsv => "Provided file does not have the tsv extension"@,
        }
    }

    /// The message shown to the user for this failure.
    pub fn message(&self) -> (text: String)
        ensures
            text@ == self.message_text(),
    {
        match self {
            Error::NoMatches => "No matches using the provided pattern".to_owned(),
            Error::NotTsv => "Provided file does not have the tsv extension".to_owned(),
        }
    }
}

} // verus!
