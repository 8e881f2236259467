//! The errors of the in-app browser, and the text that each one is shown as.
use vstd::prelude::*;
use vstd::string::*;
use crate::text::{decimal, push_decimal};

verus! {

broadcast use vstd::string::group_string_axioms;

/// The ways an in-app browser operation fails.
#[derive(Debug, Clone, PartialEq, Eq)]
pub enum Error {
    /// The system in-app browser does not exist on this platform.
    UnsupportedPlatform,
    /// A URL did not parse, or its scheme is not accepted.
    InvalidUrl,
    /// No browser with this id is known.
    BrowserNotFound(u32),
    /// A browser operation failed for the given reason.
    Browser(String),
}

/// The mathematical content of an [`Error`].
pub enum ErrorView {
    UnsupportedPlatform,
    InvalidUrl,
    BrowserNotFound(u32),
    Browser(Seq<char>),
}

impl View for Error {
    type V = ErrorView;

    open spec fn view(&self) -> ErrorView {
        match self {
            Error::UnsupportedPlatform => ErrorView::UnsupportedPlatform,
            Error::InvalidUrl => ErrorView::InvalidUrl,
            Error::BrowserNotFound(id) => ErrorView::BrowserNotFound(*id),
            Error::Browser(reason) => ErrorView::Browser(reason@),
        }
    }
}

/// The text an error is shown as.
pub open spec fn error_text(e: ErrorView) -> Seq<char> {
    match e {
        ErrorView::UnsupportedPlatform => "in-app browser is not supported on this platform"@,
        ErrorView::InvalidUrl => "invalid url"@,
        ErrorView::BrowserNotFound(id) => "in-app browser "@ + decimal(id as nat) + " not found"@,
        ErrorView::Browser(reason) => "in-app browser error: "@ + reason,
    }
}

impl Error {
    /// The text this error is shown as (also what it serializes to).
    pub fn message(&self) -> (s: String)
        ensures
            s@ == error_text(self@),
    {
        match self {
            Error::UnsupportedPlatform => "in-app browser is not supported on this platform".to_owned(),
            Error::InvalidUrl => "invalid url".to_owned(),
            Error::BrowserNotFound(id) => {
                let mut s = "in-app browser ".to_owned();
                push_decimal(&mut s, *id);
                s.append(" not found");
                s
            },
            Error::Browser(reason) => {
                let mut s = "in-app browser error: ".to_owned();
                s.append(reason.as_str());
                s
            },
        }
    }
}

} // verus!
