//! Token-exchange and policy-issuance engine.
//!
//! The library validates externally issued identity tokens through
//! per-provider validators, resolves the policies attached to the resulting
//! identity, and issues a compact, signed internal token that downstream
//! services can trust without re-validating the external token.

pub mod codec;
pub mod errors;
pub mod external_identity_validator;
pub mod identity;
pub mod identity_validator_provider;
pub mod internal_token;
pub mod policy_repository;
pub mod provider;
pub mod stores;
pub mod token;
pub mod token_service;
