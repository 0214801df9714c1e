//! The ways in which an update can fail.

use vstd::prelude::*;
use vstd::string::StringExecFns;

verus! {

/// Why an update did not go through.
#[derive(Debug)]
pub enum UpdaterError {
    /// The live profile script does not exist.
    MissingScript,
    /// The overrides file does not exist.
    MissingOverrides,
    /// A header or a preference declaration could not be read; the text says
    /// what was wrong.
    ParseError(String),
    /// A file operation failed; the text describes the failure.
    IoError(String),
    /// The upstream script could not be fetched; the text describes the
    /// failure.
    NetworkError(String),
}

/// An `UpdaterError` with its texts as character sequences.
pub enum ErrorView {
    MissingScript,
    MissingOverrides,
    ParseError(Seq<char>),
    IoError(Seq<char>),
    NetworkError(Seq<char>),
}

impl View for UpdaterError {
    type V = ErrorView;

    open spec fn view(&self) -> ErrorView {
        match self {
            UpdaterError::MissingScript => ErrorView::MissingScript,
            UpdaterError::MissingOverrides => ErrorView::MissingOverrides,
            UpdaterError::ParseError(context) => ErrorView::ParseError(context@),
            UpdaterError::IoError(cause) => ErrorView::IoError(cause@),
            UpdaterError::NetworkError(cause) => ErrorView::NetworkError(cause@),
        }
    }
}

/// The sentence shown to the user for an error.
pub open spec fn message_of(e: ErrorView) -> Seq<char> {
    match e {
        ErrorView::MissingScript => "user.js not detected in the current directory."@,
        ErrorView::MissingOverrides => "user-overrides.js not detected in the current directory."@,
        ErrorView::ParseError(context) => "Error parsing input: "@ + context,
        ErrorView::IoError(cause) => "IO Error: "@ + cause,
        ErrorView::NetworkError(cause) => "Network error: "@ + cause,
    }
}

impl UpdaterError {
    /// The sentence shown to the user for this error.
    pub fn message(&self) -> (r: String)
        ensures
            r@ == message_of(self@),
    {
        match self {
            UpdaterError::MissingScript => String::from_str(
                "user.js not detected in the current directory.",
            ),
            UpdaterError::MissingOverrides => String::from_str(
                "user-overrides.js not detected in the current directory.",
            ),
            UpdaterError::ParseError(context) => String::from_str("Error parsing input: ").concat(
                context.as_str(),
            ),
            UpdaterError::IoError(cause) => String::from_str("IO Error: ").concat(cause.as_str()),
            UpdaterError::NetworkError(cause) => String::from_str("Network error: ").concat(
                cause.as_str(),
            ),
        }
    }

}

impl Clone for UpdaterError {
    fn clone(&self) -> (r: UpdaterError)
        ensures
            r@ == self@,
    {
        match self {
            UpdaterError::MissingScript => UpdaterError::MissingScript,
            UpdaterError::MissingOverrides => UpdaterError::MissingOverrides,
            UpdaterError::ParseError(context) => UpdaterError::ParseError(context.clone()),
            UpdaterError::IoError(cause) => UpdaterError::IoError(cause.clone()),
            UpdaterError::NetworkError(cause) => UpdaterError::NetworkError(cause.clone()),
        }
    }
}

impl PartialEq for UpdaterError {
    fn eq(&self, other: &UpdaterError) -> (r: bool) {
        match (self, other) {
            (UpdaterError::MissingScript, UpdaterError::MissingScript) => true,
            (UpdaterError::MissingOverrides, UpdaterError::MissingOverrides) => true,
            (UpdaterError::ParseError(a), UpdaterError::ParseError(b)) => *a == *b,
            (UpdaterError::IoError(a), UpdaterError::IoError(b)) => *a == *b,
            (UpdaterError::NetworkError(a), UpdaterError::NetworkError(b)) => *a == *b,
            _ => false,
        }
    }
}

impl vstd::std_specs::cmp::PartialEqSpecImpl for UpdaterError {
    open spec fn obeys_eq_spec() -> bool {
        true
    }

    open spec fn eq_spec(&self, other: &UpdaterError) -> bool {
        self@ == other@
    }
}

} // verus!
