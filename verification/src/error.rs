//! The library's errors.

use vstd::prelude::*;
use vstd::string::StringExecFns;

verus! {

/// What can go wrong in the library. Each variant but one carries a detail:
/// the name or identifier that was not found, or a reason.
#[derive(Debug, PartialEq, Eq)]
pub enum AppError {
    /// A stored or imported document could not be decoded, or does not
    /// describe a valid store.
    Serialization(String),
    /// The remote service answered with a failure.
    Api(String),
    /// No account has this identifier.
    AccountNotFound(String),
    /// No credential is at hand, or the remote service refused it.
    AuthFailed(String),
    /// A file that an operation needs is not there.
    FileOperation(String),
    /// No group or tag has this name.
    NotFound(String),
    /// A group or tag of this name exists already.
    DuplicateName(String),
    /// The call failed for want of authentication, again after the token was
    /// refreshed.
    RetriesExhausted,
    /// An input is malformed.
    Validation(String),
}

/// An error with its detail as plain text.
pub enum ErrorView {
    Serialization(Seq<char>),
    Api(Seq<char>),
    AccountNotFound(Seq<char>),
    AuthFailed(Seq<char>),
    FileOperation(Seq<char>),
    NotFound(Seq<char>),
    DuplicateName(Seq<char>),
    RetriesExhausted,
    Validation(Seq<char>),
}

impl View for AppError {
    type V = ErrorView;

    open spec fn view(&self) -> ErrorView {
        match self {
            AppError::Serialization(s) => ErrorView::Serialization(s@),
            AppError::Api(s) => ErrorView::Api(s@),
            AppError::AccountNotFound(s) => ErrorView::AccountNotFound(s@),
            AppError::AuthFailed(s) => ErrorView::AuthFailed(s@),
            AppError::FileOperation(s) => ErrorView::FileOperation(s@),
            AppError::NotFound(s) => ErrorView::NotFound(s@),
            AppError::DuplicateName(s) => ErrorView::DuplicateName(s@),
            AppError::RetriesExhausted => ErrorView::RetriesExhausted,
            AppError::Validation(s) => ErrorView::Validation(s@),
        }
    }
}

/// The text that an error shows to a user.
pub open spec fn message_spec(e: ErrorView) -> Seq<char> {
    match e {
        ErrorView::Serialization(s) => "Serialization error: "@ + s,
        ErrorView::Api(s) => "API error: "@ + s,
        ErrorView::AccountNotFound(s) => "Account not found: "@ + s,
        ErrorView::AuthFailed(s) => "Authentication failed: "@ + s,
        ErrorView::FileOperation(s) => "File operation error: "@ + s,
        ErrorView::NotFound(s) => "Not found: "@ + s,
        ErrorView::DuplicateName(s) => "Duplicate name: "@ + s,
        ErrorView::RetriesExhausted => "重试次数已用尽"@,
        ErrorView::Validation(s) => "Validation error: "@ + s,
    }
}

/// The detail that an error carries; of the one error without a detail, its
/// whole text.
pub open spec fn detail_spec(e: ErrorView) -> Seq<char> {
    match e {
        ErrorView::Serialization(s) => s,
        ErrorView::Api(s) => s,
        ErrorView::AccountNotFound(s) => s,
        ErrorView::AuthFailed(s) => s,
        ErrorView::FileOperation(s) => s,
        ErrorView::NotFound(s) => s,
        ErrorView::DuplicateName(s) => s,
        ErrorView::RetriesExhausted => "重试次数已用尽"@,
        ErrorView::Validation(s) => s,
    }
}

impl AppError {
    /// The text that this error shows to a user: what kind of error it is,
    /// then its detail.
    pub fn message(&self) -> (text: String)
        ensures
            text@ == message_spec(self@),
    {
        match self {
            AppError::Serialization(s) => String::from_str("Serialization error: ").concat(
                s.as_str(),
            ),
            AppError::Api(s) => String::from_str("API error: ").concat(s.as_str()),
            AppError::AccountNotFound(s) => String::from_str("Account not found: ").concat(
                s.as_str(),
            ),
            AppError::AuthFailed(s) => String::from_str("Authentication failed: ").concat(
                s.as_str(),
            ),
            AppError::FileOperation(s) => String::from_str("File operation error: ").concat(
                s.as_str(),
            ),
            AppError::NotFound(s) => String::from_str("Not found: ").concat(s.as_str()),
            AppError::DuplicateName(s) => String::from_str("Duplicate name: ").concat(s.as_str()),
            AppError::RetriesExhausted => String::from_str("重试次数已用尽"),
            AppError::Validation(s) => String::from_str("Validation error: ").concat(s.as_str()),
        }
    }

    /// The detail alone, without the kind of error before it.
    pub fn detail(&self) -> (text: String)
        ensures
            text@ == detail_spec(self@),
    {
        match self {
            AppError::Serialization(s) => s.clone(),
            AppError::Api(s) => s.clone(),
            AppError::AccountNotFound(s) => s.clone(),
            AppError::AuthFailed(s) => s.clone(),
            AppError::FileOperation(s) => s.clone(),
            AppError::NotFound(s) => s.clone(),
            AppError::DuplicateName(s) => s.clone(),
            AppError::RetriesExhausted => String::from_str("重试次数已用尽"),
            AppError::Validation(s) => s.clone(),
        }
    }
}

} // verus!
