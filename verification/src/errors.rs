//! Error taxonomy of the issuance engine.
//!
//! Validator and store errors are never exposed verbatim to token-issuance
//! callers: the issuance boundary collapses them into the generic
//! `IssuanceError` envelope, so a caller cannot probe the validation logic.

use vstd::prelude::*;

verus! {

/// Failure to validate an external token against a provider.
#[derive(Debug, Clone, Copy, PartialEq, Eq, Structural)]
pub enum ValidationError {
    /// The token (or the header carrying it) is not structurally valid.
    Malformed,
    /// Signature, issuer, audience or time-bound checks failed.
    Untrusted,
    /// The claim naming the user id is absent or not a string.
    MissingClaim,
}

/// A lookup missed: unknown provider, policy, identity or attachment.
#[derive(Debug, Clone, Copy, PartialEq, Eq, Structural)]
pub struct NotFoundError;

/// A mutation of a backing store failed.
#[derive(Debug, Clone, Copy, PartialEq, Eq, Structural)]
pub struct StoreError;

/// Building a validator from provider settings failed.
#[derive(Debug, Clone, Copy, PartialEq, Eq, Structural)]
pub struct ConfigError;

/// Signing the claim set failed. The in-process HMAC-SHA-256 signer
/// accepts a key of any length and cannot fail, so this library never
/// returns these; they complete the taxonomy for signing backends that
/// can.
#[derive(Debug, Clone, Copy, PartialEq, Eq, Structural)]
pub enum SigningError {
    /// The signing key material was rejected.
    InvalidKey,
    /// The signing operation itself failed.
    Failure,
}

/// The public envelope for token-issuance failures. Its variants carry no
/// internal detail, so the caller cannot distinguish the causes beyond the
/// variant itself.
#[derive(Debug, Clone, Copy, PartialEq, Eq, Structural)]
pub enum IssuanceError {
    /// No validator has ever been installed for the requested provider.
    UnknownProvider,
    /// The external token failed validation.
    Unauthorized,
    /// An attached policy id had no stored policy when it was read.
    PolicyNotFound,
    /// The claim set could not be signed. The in-process HMAC signer
    /// cannot fail, so issuance never returns this; it completes the
    /// envelope for signing backends that can.
    SigningFailed,
}

} // verus!
