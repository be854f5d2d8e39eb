//! The errors that a download can end with.

use vstd::prelude::*;

verus! {

/// An error, with the text that is shown to the user.
#[derive(Debug)]
pub enum GwsError {
    /// The request, or the place where the files go, is not acceptable.
    Validation(String),
    /// No access token could be had.
    Auth(String),
    /// The mail service or the output failed.
    Other(String),
}

/// What a [`GwsError`] says.
pub enum ErrorView {
    Validation(Seq<char>),
    Auth(Seq<char>),
    Other(Seq<char>),
}

impl View for GwsError {
    type V = ErrorView;

    open spec fn view(&self) -> ErrorView {
        match self {
            GwsError::Validation(text) => ErrorView::Validation(text@),
            GwsError::Auth(text) => ErrorView::Auth(text@),
            GwsError::Other(text) => ErrorView::Other(text@),
        }
    }
}

impl ErrorView {
    /// The text of the error.
    pub open spec fn text(self) -> Seq<char> {
        match self {
            ErrorView::Validation(text) => text,
            ErrorView::Auth(text) => text,
            ErrorView::Other(text) => text,
        }
    }
}

impl GwsError {
    /// The text of the error.
    pub fn message(&self) -> (text: String)
        ensures
            text@ == self@.text(),
    {
        match self {
            GwsError::Validation(text) => text.clone(),
            GwsError::Auth(text) => text.clone(),
            GwsError::Other(text) => text.clone(),
        }
    }
}

} // verus!
