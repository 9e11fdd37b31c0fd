//! Errors of keyboard operations.

use vstd::prelude::*;

verus! {

/// Why a keyboard operation failed.
#[derive(Debug, Clone, PartialEq, Eq)]
pub enum KeyboardError {
    /// The device does not offer the feature.
    NotSupported(String),
    /// The device answered with something else than asked for.
    UnexpectedResponse(String),
    /// An argument is out of range.
    InvalidParameter(String),
    /// The transport failed.
    Transport(String),
}

/// A [`KeyboardError`] with its message as characters.
pub enum ErrorView {
    NotSupported(Seq<char>),
    UnexpectedResponse(Seq<char>),
    InvalidParameter(Seq<char>),
    Transport(Seq<char>),
}

impl View for KeyboardError {
    type V = ErrorView;

    open spec fn view(&self) -> ErrorView {
        match *self {
            KeyboardError::NotSupported(m) => ErrorView::NotSupported(m@),
            KeyboardError::UnexpectedResponse(m) => ErrorView::UnexpectedResponse(m@),
            KeyboardError::InvalidParameter(m) => ErrorView::InvalidParameter(m@),
            KeyboardError::Transport(m) => ErrorView::Transport(m@),
        }
    }
}

/// Whether `r` failed, and with the error `e`.
pub open spec fn fails<T>(r: Result<T, KeyboardError>, e: ErrorView) -> bool {
    r matches Err(x) && x@ == e
}

/// Shorthand for [`ErrorView::NotSupported`].
pub open spec fn unsupported(m: Seq<char>) -> ErrorView {
    ErrorView::NotSupported(m)
}

/// Shorthand for [`ErrorView::UnexpectedResponse`].
pub open spec fn unexpected(m: Seq<char>) -> ErrorView {
    ErrorView::UnexpectedResponse(m)
}

/// Shorthand for [`ErrorView::InvalidParameter`].
pub open spec fn invalid(m: Seq<char>) -> ErrorView {
    ErrorView::InvalidParameter(m)
}

impl KeyboardError {
    /// The feature is not there.
    pub fn not_supported(m: &str) -> (r: Self)
        ensures
            r@ == unsupported(m@),
    {
        KeyboardError::NotSupported(m.to_owned())
    }

    /// The answer makes no sense.
    pub fn unexpected_response(m: &str) -> (r: Self)
        ensures
            r@ == unexpected(m@),
    {
        KeyboardError::UnexpectedResponse(m.to_owned())
    }

    /// The argument is out of range.
    pub fn invalid_parameter(m: &str) -> (r: Self)
        ensures
            r@ == invalid(m@),
    {
        KeyboardError::InvalidParameter(m.to_owned())
    }

    /// The same error once more.
    pub fn copy(&self) -> (r: Self)
        ensures
            r@ == self@,
    {
        match self {
            KeyboardError::NotSupported(m) => KeyboardError::NotSupported(m.clone()),
            KeyboardError::UnexpectedResponse(m) => KeyboardError::UnexpectedResponse(m.clone()),
            KeyboardError::InvalidParameter(m) => KeyboardError::InvalidParameter(m.clone()),
            KeyboardError::Transport(m) => KeyboardError::Transport(m.clone()),
        }
    }

    /// The message.
    pub fn message(&self) -> (r: &str)
        ensures
            r@ == (match self@ {
                ErrorView::NotSupported(m) => m,
                ErrorView::UnexpectedResponse(m) => m,
                ErrorView::InvalidParameter(m) => m,
                ErrorView::Transport(m) => m,
            }),
    {
        match self {
            KeyboardError::NotSupported(m) => m.as_str(),
            KeyboardError::UnexpectedResponse(m) => m.as_str(),
            KeyboardError::InvalidParameter(m) => m.as_str(),
            KeyboardError::Transport(m) => m.as_str(),
        }
    }
}

} // verus!
