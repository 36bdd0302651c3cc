//! What can end a run early.

use vstd::prelude::*;

verus! {

/// Why a run was given up.
#[derive(Debug, PartialEq, Eq)]
pub enum Error {
    /// The local filesystem failed; the text says how.
    Request(String),
    /// The catalog failed while listing, streaming or publishing.
    Api(String),
    /// A download took longer than its budget.
    Timeout,
    /// The configuration is malformed or missing.
    Config(String),
    /// The key file could not be read.
    Secret(String),
}

/// An [`Error`] with its texts as sequences of characters.
pub enum ErrorView {
    Request(Seq<char>),
    Api(Seq<char>),
    Timeout,
    Config(Seq<char>),
    Secret(Seq<char>),
}

impl View for Error {
    type V = ErrorView;

    open spec fn view(&self) -> ErrorView {
        match self {
            Error::Request(cause) => ErrorView::Request(cause@),
            Error::Api(cause) => ErrorView::Api(cause@),
            Error::Timeout => ErrorView::Timeout,
            Error::Config(cause) => ErrorView::Config(cause@),
            Error::Secret(cause) => ErrorView::Secret(cause@),
        }
    }
}

impl ErrorView {
    /// The line that tells a user of the error.
    pub open spec fn message(self) -> Seq<char> {
        match self {
            ErrorView::Request(cause) => "Request failed: "@ + cause,
            ErrorView::Api(cause) => cause,
            ErrorView::Timeout => "Backup timed out"@,
            ErrorView::Config(cause) => cause,
            ErrorView::Secret(cause) => cause,
        }
    }
}

impl Clone for Error {
    fn clone(&self) -> (copy: Self)
        ensures
            copy@ == self@,
    {
        match self {
            Error::Request(cause) => Error::Request(cause.clone()),
            Error::Api(cause) => Error::Api(cause.clone()),
            Error::Timeout => Error::Timeout,
            Error::Config(cause) => Error::Config(cause.clone()),
            Error::Secret(cause) => Error::Secret(cause.clone()),
        }
    }
}

impl Error {
    /// The single line that tells a user of the error.
    pub fn message(&self) -> (line: String)
        ensures
            line@ == self@.message(),
    {
        match self {
            Error::Request(cause) => String::from_str("Request failed: ").concat(cause.as_str()),
            Error::Api(cause) => cause.clone(),
            Error::Timeout => String::from_str("Backup timed out"),
            Error::Config(cause) => cause.clone(),
            Error::Secret(cause) => cause.clone(),
        }
    }
}

} // verus!
