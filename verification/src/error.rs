//! What can go wrong while a command is carried out.

use vstd::prelude::*;

verus! {

/// Why a command could not be carried out.
#[derive(Debug)]
pub enum Error {
    /// The command itself is at fault.
    Msg(String),
    /// The system refused an action, for the reason given.
    Io(String),
    /// The client asked for a path that it may not reach.
    PermissionDenied,
}

/// What an [`Error`] stands for.
pub enum ErrorView {
    Msg(Seq<char>),
    Io(Seq<char>),
    PermissionDenied,
}

impl View for Error {
    type V = ErrorView;

    open spec fn view(&self) -> ErrorView {
        match self {
            Error::Msg(text) => ErrorView::Msg(text@),
            Error::Io(text) => ErrorView::Io(text@),
            Error::PermissionDenied => ErrorView::PermissionDenied,
        }
    }
}

impl Error {
    /// The fault of a command, in words.
    pub fn msg(text: &str) -> (error: Error)
        ensures
            error@ == ErrorView::Msg(text@),
    {
        Error::Msg(text.to_string())
    }

    /// The error in words.
    pub fn message(&self) -> (text: String)
        ensures
            text@ == match self@ {
                ErrorView::Msg(text) => text,
                ErrorView::Io(text) => text,
                ErrorView::PermissionDenied => "permission denied"@,
            },
    {
        match self {
            Error::Msg(text) => text.clone(),
            Error::Io(text) => text.clone(),
            Error::PermissionDenied => "permission denied".to_string(),
        }
    }
}

} // verus!
