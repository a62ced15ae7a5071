//! Error values of the broker and the wrapper that carries a foreign error.

use vstd::prelude::*;
use vstd::std_specs::convert::FromSpecImpl;

verus! {

/// The error type of the `password-hash` crate, opaque to the verifier.
#[verifier::external_type_specification]
#[verifier::external_body]
pub struct ExPasswordHashError(pbkdf2::password_hash::Error);

/// Carries a value that can be shown but is no error type by itself.
#[derive(Debug)]
pub struct DisplayError<T>(pub T);

/// The four ways in which a request to the broker can fail.
#[derive(Clone, Copy, Debug, PartialEq, Eq, Structural)]
pub enum ErrorKind {
    /// The transport failed or was already closed.
    Connection,
    /// A publish payload was malformed or too large.
    Validation,
    /// Credential material or derivation parameters were unusable.
    Credential,
    /// Something that should not happen did.
    Internal,
}

/// Errors of the broker.
#[derive(Debug)]
pub enum SseError {
    /// The key derivation refused its input.
    Pbkdf2Error { source: DisplayError<pbkdf2::password_hash::Error> },
    /// A publish payload was not well-formed JSON, or not a JSON object.
    ParseError,
    /// A publish payload is longer than the configured bound.
    PayloadTooLarge,
    /// The derivation parameters are outside the supported range.
    CredentialError,
    /// The connection handed to the registry was already closed.
    ConnectionError,
    /// An internal invariant did not hold.
    InternalError,
}

impl SseError {
    /// The kind under which this error is reported.
    pub open spec fn spec_kind(&self) -> ErrorKind {
        match self {
            SseError::Pbkdf2Error { .. } => ErrorKind::Credential,
            SseError::ParseError => ErrorKind::Validation,
            SseError::PayloadTooLarge => ErrorKind::Validation,
            SseError::CredentialError => ErrorKind::Credential,
            SseError::ConnectionError => ErrorKind::Connection,
            SseError::InternalError => ErrorKind::Internal,
        }
    }

    /// The kind under which this error is reported.
    #[verifier::when_used_as_spec(spec_kind)]
    pub fn kind(&self) -> (k: ErrorKind)
        ensures
            k == self.spec_kind(),
    {
        match self {
            SseError::Pbkdf2Error { .. } => ErrorKind::Credential,
            SseError::ParseError => ErrorKind::Validation,
            SseError::PayloadTooLarge => ErrorKind::Validation,
            SseError::CredentialError => ErrorKind::Credential,
            SseError::ConnectionError => ErrorKind::Connection,
            SseError::InternalError => ErrorKind::Internal,
        }
    }
}

impl From<pbkdf2::password_hash::Error> for SseError {
    fn from(error: pbkdf2::password_hash::Error) -> (r: Self) {
        SseError::Pbkdf2Error { source: DisplayError(error) }
    }
}

impl FromSpecImpl<pbkdf2::password_hash::Error> for SseError {
    open spec fn obeys_from_spec() -> bool {
        true
    }

    open spec fn from_spec(error: pbkdf2::password_hash::Error) -> Self {
        SseError::Pbkdf2Error { source: DisplayError(error) }
    }
}

} // verus!
