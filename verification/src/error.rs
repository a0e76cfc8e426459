//! The error taxonomy shared by every component of the protocol.

use vstd::prelude::*;

verus! {

/// Every failure a protocol call can surface to its direct caller.
///
/// There is no local recovery or retry anywhere in this protocol: each error
/// is reported immediately as a typed value.
#[derive(Clone, Copy, Debug, PartialEq, Eq, Structural)]
pub enum AttestationsError {
    /// A signed record's embedded entry hash does not match the hash of the
    /// claimed attestation content (or the record carries no entry hash at
    /// all while content was claimed).
    ContentMismatch,
    /// The signature check ran and answered `false`.
    BadSignature,
    /// The signature-check primitive itself failed, e.g. on malformed key
    /// material, so nothing can be said either way.
    VerificationUnavailable,
    /// No locally held nonce matches a fulfillment claim.
    UnknownNonce,
    /// A wire payload or a link tag could not be decoded.
    SerializationError,
    /// A link-validation rule was violated at the network boundary, e.g. the
    /// target of a link to validate is not held in the store.
    StructuralInvalid,
    /// The remote-call transport reported a non-success response.
    RemoteCallFailed,
}

/// The usual result type of the protocol's fallible calls.
pub type AttestationsResult<T> = Result<T, AttestationsError>;

impl AttestationsError {
    /// A human-readable description, for logging at the host boundary.
    pub fn message(&self) -> (r: String)
        ensures
            *self is ContentMismatch ==> r@ == "Failed verification: attestation hash doesn't match"@,
            *self is BadSignature ==> r@ == "Failed verification: signature doesn't match."@,
            *self is VerificationUnavailable ==> r@ == "Failed verification: error checking signature"@,
            *self is UnknownNonce ==> r@ == "No such nonce"@,
            *self is SerializationError ==> r@ == "Failed to decode"@,
            *self is StructuralInvalid ==> r@ == "Link target could not be resolved"@,
            *self is RemoteCallFailed ==> r@ == "Remote call failed"@,
    {
        match self {
            AttestationsError::ContentMismatch => "Failed verification: attestation hash doesn't match".to_string(),
            AttestationsError::BadSignature => "Failed verification: signature doesn't match.".to_string(),
            AttestationsError::VerificationUnavailable => "Failed verification: error checking signature".to_string(),
            AttestationsError::UnknownNonce => "No such nonce".to_string(),
            AttestationsError::SerializationError => "Failed to decode".to_string(),
            AttestationsError::StructuralInvalid => "Link target could not be resolved".to_string(),
            AttestationsError::RemoteCallFailed => "Remote call failed".to_string(),
        }
    }
}

} // verus!
