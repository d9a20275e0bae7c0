//! The failures of the ingestion engine.

use vstd::prelude::*;

verus! {

/// Everything that can go wrong while ingesting.
#[derive(Debug, PartialEq, Eq)]
pub enum Error {
    /// Any persistence failure, with the store's own words.
    DbError(String),
    /// A failure of the feed collector.
    HttpCollectorError(String),
    /// A failure of the chat collector.
    TgCollectorError(String),
    /// A structural update that is never turned into a record; the payload
    /// is the kind's name. Batch operations skip it.
    UpdateNotSupported(String),
    /// A synchronisation was asked of a provider that is not enabled.
    SourceKindConflict(String),
    /// The chat network knows no channel for a chat.
    SourceNotFound,
    /// One logical insert reported more than one new row.
    SourceCreationError,
}

impl Clone for Error {
    fn clone(&self) -> (e: Error)
        ensures
            e == *self,
    {
        match self {
            Error::DbError(s) => Error::DbError(s.clone()),
            Error::HttpCollectorError(s) => Error::HttpCollectorError(s.clone()),
            Error::TgCollectorError(s) => Error::TgCollectorError(s.clone()),
            Error::UpdateNotSupported(s) => Error::UpdateNotSupported(s.clone()),
            Error::SourceKindConflict(s) => Error::SourceKindConflict(s.clone()),
            Error::SourceNotFound => Error::SourceNotFound,
            Error::SourceCreationError => Error::SourceCreationError,
        }
    }
}

impl Error {
    /// The text carried by the error, empty for the two bare variants.
    pub open spec fn detail(self) -> Seq<char> {
        match self {
            Error::DbError(s) => s@,
            Error::HttpCollectorError(s) => s@,
            Error::TgCollectorError(s) => s@,
            Error::UpdateNotSupported(s) => s@,
            Error::SourceKindConflict(s) => s@,
            Error::SourceNotFound => Seq::empty(),
            Error::SourceCreationError => Seq::empty(),
        }
    }

    /// Whether a batch operation passes over this error instead of failing.
    pub open spec fn spec_is_skip(&self) -> bool {
        *self is UpdateNotSupported
    }

    /// Whether a batch operation passes over this error instead of failing.
    #[verifier::when_used_as_spec(spec_is_skip)]
    pub fn is_skip(&self) -> (r: bool)
        ensures
            r == self.spec_is_skip(),
    {
        match self {
            Error::UpdateNotSupported(_) => true,
            _ => false,
        }
    }
}

} // verus!
