//! Why a document could not be built.
use vstd::prelude::*;

verus! {

/// The ways in which building a document from its text fails.
#[derive(Debug, Clone, Copy, PartialEq, Eq, Structural)]
pub enum BuildError {
    /// The text holds no delimiter line.
    MissingStartMarker,
    /// No second delimiter line follows the first.
    MissingEndMarker,
    /// The located offsets do not cut a piece of text out of the document.
    MissingFrontMatterSlice,
    /// The front matter gives no title.
    MissingTitle,
    /// The front matter gives no creation date.
    MissingCreated,
    /// The creation date is not a date and time with an offset from UTC.
    InvalidCreatedFormat,
    /// The front matter gives no update date.
    MissingUpdated,
    /// The update date is not a date and time with an offset from UTC.
    InvalidUpdatedFormat,
}

impl BuildError {
    /// The message of each error, as a sequence of characters.
    pub open spec fn message_text(self) -> Seq<char> {
        match self {
            BuildError::MissingStartMarker => "Could not find front matter start marker"@,
            BuildError::MissingEndMarker => "Could not find end of front matter"@,
            BuildError::MissingFrontMatterSlice => "Could not find front matter"@,
            BuildError::MissingTitle => "Could not find title"@,
            BuildError::MissingCreated => "Could not find created"@,
            BuildError::InvalidCreatedFormat => "Could not parse created date"@,
            BuildError::MissingUpdated => "Could not find updated"@,
            BuildError::InvalidUpdatedFormat => "Could not parse updated date"@,
        }
    }

    /// A short description of the error for display.
    pub fn message(&self) -> (text: &'static str)
        ensures
            text@ == self.message_text(),
    {
        match self {
            BuildError::MissingStartMarker => "Could not find front matter start marker",
            BuildError::MissingEndMarker => "Could not find end of front matter",
            BuildError::MissingFrontMatterSlice => "Could not find front matter",
            BuildError::MissingTitle => "Could not find title",
            BuildError::MissingCreated => "Could not find created",
            BuildError::InvalidCreatedFormat => "Could not parse created date",
            BuildError::MissingUpdated => "Could not find updated",
            BuildError::InvalidUpdatedFormat => "Could not parse updated date",
        }
    }
}

} // verus!
