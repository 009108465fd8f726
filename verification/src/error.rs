//! What can go wrong in an adapter, as its callers see it.

use vstd::prelude::*;

verus! {

/// Why a request was not carried out.
#[derive(Debug, PartialEq, Eq)]
pub enum CoreError {
    /// The request itself is wrong, and why.
    InvalidArgument(String),
    /// There is nothing of that name.
    NotFound,
    /// The user may not do this.
    PermissionDenied,
    /// Nobody is logged in.
    Unauthenticated,
    /// There is no such login, or it is over.
    AuthSessionNotFound,
    /// There is no key to sign with.
    SigningKeyUnavailable,
    /// The adapter does not do this.
    Unsupported,
    /// The change could not be recorded, and why.
    AdminAuditFailed(String),
}

/// The view of [`CoreError`].
pub enum CoreErrorView {
    InvalidArgument(Seq<char>),
    NotFound,
    PermissionDenied,
    Unauthenticated,
    AuthSessionNotFound,
    SigningKeyUnavailable,
    Unsupported,
    AdminAuditFailed(Seq<char>),
}

impl View for CoreError {
    type V = CoreErrorView;

    open spec fn view(&self) -> CoreErrorView {
        match self {
            CoreError::InvalidArgument(m) => CoreErrorView::InvalidArgument(m@),
            CoreError::NotFound => CoreErrorView::NotFound,
            CoreError::PermissionDenied => CoreErrorView::PermissionDenied,
            CoreError::Unauthenticated => CoreErrorView::Unauthenticated,
            CoreError::AuthSessionNotFound => CoreErrorView::AuthSessionNotFound,
            CoreError::SigningKeyUnavailable => CoreErrorView::SigningKeyUnavailable,
            CoreError::Unsupported => CoreErrorView::Unsupported,
            CoreError::AdminAuditFailed(m) => CoreErrorView::AdminAuditFailed(m@),
        }
    }
}

/// A result by the views of what it holds.
pub open spec fn outcome<T: View>(r: Result<T, CoreError>) -> Result<T::V, CoreErrorView> {
    match r {
        Ok(v) => Ok(v@),
        Err(e) => Err(e@),
    }
}

/// The error for a wrong request, with its message.
pub fn invalid(message: &str) -> (r: CoreError)
    ensures
        r@ == CoreErrorView::InvalidArgument(message@),
{
    CoreError::InvalidArgument(message.to_owned())
}

} // verus!
