//! The error taxonomy of the auth core. Every rejection a component can make
//! is one of these kinds; the request boundary maps them to uniform responses.

use vstd::prelude::*;

verus! {

#[derive(Clone, Copy, Debug, PartialEq, Eq, Structural)]
pub enum ErrorKind {
    /// No token was presented where one is required.
    MissingCredential,
    /// The token string cannot be parsed as a claim set.
    Malformed,
    /// The token parses but its integrity tag does not match.
    SignatureInvalid,
    /// The current time is at or past the token's embedded expiry.
    Expired,
    /// A token of the wrong namespace was presented (refresh where access is
    /// required, or the other way round).
    InvalidNamespace,
    /// An out-of-band token was presented to the other out-of-band flow.
    WrongPurpose,
    /// The token is valid but the state it was issued against is gone: its
    /// subject no longer exists in the store, or (for a reset token) the
    /// stored credential no longer matches the fingerprint it carries.
    StaleCredential,
    /// The resource or account addressed does not exist.
    NotFound,
    /// The authenticated identity does not own the resource it tries to
    /// mutate, or presented a credential that does not match the account.
    Unauthorized,
    /// The store refused the operation (uniqueness conflict or I/O failure).
    StoreFailure,
}

} // verus!
