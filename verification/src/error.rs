//! The errors that an endpoint can end in.

use vstd::prelude::*;
use crate::db::{DatabaseError, DatabaseErrorView};
use crate::github::{HttpError, HttpErrorView};

verus! {

/// What went wrong while a request was served.
#[derive(Debug, PartialEq, Eq)]
#[allow(inconsistent_fields)]
pub enum ShaftError {
    /// The store failed.
    DatabaseError { source: DatabaseError },
    /// Talking to Github failed.
    GithubError { source: HttpError },
}

/// What a [`ShaftError`] says, as mathematical values.
#[allow(inconsistent_fields)]
pub enum ShaftErrorView {
    DatabaseError { source: DatabaseErrorView },
    GithubError { source: HttpErrorView },
}

impl View for ShaftError {
    type V = ShaftErrorView;

    open spec fn view(&self) -> ShaftErrorView {
        match self {
            ShaftError::DatabaseError { source } => ShaftErrorView::DatabaseError {
                source: source@,
            },
            ShaftError::GithubError { source } => ShaftErrorView::GithubError { source: source@ },
        }
    }
}

impl ShaftError {
    /// What the error says, in words: what its source says.
    pub open spec fn message_text(self) -> Seq<char> {
        match self {
            ShaftError::DatabaseError { source } => source.message_text(),
            ShaftError::GithubError { source } => source.message_text(),
        }
    }

    /// What the error says, in words.
    pub fn message(&self) -> (text: String)
        ensures
            text@ == self.message_text(),
    {
        match self {
            ShaftError::DatabaseError { source } => source.message(),
            ShaftError::GithubError { source } => source.message(),
        }
    }
}

} // verus!
