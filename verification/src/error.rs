//! Errors.

use crate::text::{join, join3};
use vstd::prelude::*;

verus! {

/// Result of an operation of this crate.
pub type Result<T> = std::result::Result<T, RedFolderError>;

/// Errors of the engine and of the calendar client. Errors of other libraries are held by their
/// messages.
#[derive(Debug, PartialEq, Eq)]
pub enum RedFolderError {
    Http(String),
    Io(String),
    Json(String),
    ParseTime(String),
    InvalidTimestamp(String),
    Service(String),
    Curfew(String),
    Config(String),
    Calendar(String),
}

/// What a [`RedFolderError`] is.
pub ghost enum ErrorModel {
    Http(Seq<char>),
    Io(Seq<char>),
    Json(Seq<char>),
    ParseTime(Seq<char>),
    InvalidTimestamp(Seq<char>),
    Service(Seq<char>),
    Curfew(Seq<char>),
    Config(Seq<char>),
    Calendar(Seq<char>),
}

impl View for RedFolderError {
    type V = ErrorModel;

    open spec fn view(&self) -> ErrorModel {
        match self {
            RedFolderError::Http(s) => ErrorModel::Http(s@),
            RedFolderError::Io(s) => ErrorModel::Io(s@),
            RedFolderError::Json(s) => ErrorModel::Json(s@),
            RedFolderError::ParseTime(s) => ErrorModel::ParseTime(s@),
            RedFolderError::InvalidTimestamp(s) => ErrorModel::InvalidTimestamp(s@),
            RedFolderError::Service(s) => ErrorModel::Service(s@),
            RedFolderError::Curfew(s) => ErrorModel::Curfew(s@),
            RedFolderError::Config(s) => ErrorModel::Config(s@),
            RedFolderError::Calendar(s) => ErrorModel::Calendar(s@),
        }
    }
}

impl Clone for RedFolderError {
    fn clone(&self) -> (r: Self)
        ensures
            r@ == self@,
    {
        match self {
            RedFolderError::Http(s) => RedFolderError::Http(s.clone()),
            RedFolderError::Io(s) => RedFolderError::Io(s.clone()),
            RedFolderError::Json(s) => RedFolderError::Json(s.clone()),
            RedFolderError::ParseTime(s) => RedFolderError::ParseTime(s.clone()),
            RedFolderError::InvalidTimestamp(s) => RedFolderError::InvalidTimestamp(s.clone()),
            RedFolderError::Service(s) => RedFolderError::Service(s.clone()),
            RedFolderError::Curfew(s) => RedFolderError::Curfew(s.clone()),
            RedFolderError::Config(s) => RedFolderError::Config(s.clone()),
            RedFolderError::Calendar(s) => RedFolderError::Calendar(s.clone()),
        }
    }
}

impl ErrorModel {
    /// The message shown to users.
    pub open spec fn text(self) -> Seq<char> {
        match self {
            ErrorModel::Http(s) => "HTTP request error: "@ + s,
            ErrorModel::Io(s) => "IO error: "@ + s,
            ErrorModel::Json(s) => "Serialization / JSON error: "@ + s,
            ErrorModel::ParseTime(s) => "Failed to parse time string '"@ + s
                + "': expected format HH:MM (e.g. '20:30')"@,
            ErrorModel::InvalidTimestamp(s) => "Failed to parse date/timestamp: "@ + s,
            ErrorModel::Service(s) => "Service error: "@ + s,
            ErrorModel::Curfew(s) => "Curfew calculation error: "@ + s,
            ErrorModel::Config(s) => "Configuration error: "@ + s,
            ErrorModel::Calendar(s) => "Calendar error: "@ + s,
        }
    }
}

impl RedFolderError {
    /// The message shown to users.
    #[must_use]
    pub fn to_string(&self) -> (r: String)
        ensures
            r@ == self@.text(),
    {
        match self {
            RedFolderError::Http(s) => join("HTTP request error: ", s.as_str()),
            RedFolderError::Io(s) => join("IO error: ", s.as_str()),
            RedFolderError::Json(s) => join("Serialization / JSON error: ", s.as_str()),
            RedFolderError::ParseTime(s) => join3(
                "Failed to parse time string '",
                s.as_str(),
                "': expected format HH:MM (e.g. '20:30')",
            ),
            RedFolderError::InvalidTimestamp(s) => join(
                "Failed to parse date/timestamp: ",
                s.as_str(),
            ),
            RedFolderError::Service(s) => join("Service error: ", s.as_str()),
            RedFolderError::Curfew(s) => join("Curfew calculation error: ", s.as_str()),
            RedFolderError::Config(s) => join("Configuration error: ", s.as_str()),
            RedFolderError::Calendar(s) => join("Calendar error: ", s.as_str()),
        }
    }
}

/// Every error is shown with its kind and what it is about.
pub proof fn law_errors_tell_their_kind(s: Seq<char>)
    ensures
        ErrorModel::Http(s).text() == "HTTP request error: "@ + s,
        ErrorModel::Io(s).text() == "IO error: "@ + s,
        ErrorModel::Json(s).text() == "Serialization / JSON error: "@ + s,
        ErrorModel::ParseTime(s).text() == "Failed to parse time string '"@ + s
            + "': expected format HH:MM (e.g. '20:30')"@,
        ErrorModel::InvalidTimestamp(s).text() == "Failed to parse date/timestamp: "@ + s,
        ErrorModel::Service(s).text() == "Service error: "@ + s,
        ErrorModel::Curfew(s).text() == "Curfew calculation error: "@ + s,
        ErrorModel::Config(s).text() == "Configuration error: "@ + s,
        ErrorModel::Calendar(s).text() == "Calendar error: "@ + s,
{
}

/// Every error shows its kind and its text.
pub proof fn law_errors_by_kind(s: String)
    ensures
        RedFolderError::Http(s)@ == ErrorModel::Http(s@),
        RedFolderError::Io(s)@ == ErrorModel::Io(s@),
        RedFolderError::Json(s)@ == ErrorModel::Json(s@),
        RedFolderError::ParseTime(s)@ == ErrorModel::ParseTime(s@),
        RedFolderError::InvalidTimestamp(s)@ == ErrorModel::InvalidTimestamp(s@),
        RedFolderError::Service(s)@ == ErrorModel::Service(s@),
        RedFolderError::Curfew(s)@ == ErrorModel::Curfew(s@),
        RedFolderError::Config(s)@ == ErrorModel::Config(s@),
        RedFolderError::Calendar(s)@ == ErrorModel::Calendar(s@),
{
}

} // verus!
