//! Validation of external identity tokens.
//!
//! One validator exists per provider; it checks a bearer token against that
//! provider's trust material and extracts the canonical identity. The
//! cryptographic check itself happens behind the `ExternalIdentityValidator`
//! capability; the claim-reading step that turns a validated claim set into
//! an identity is `extract_user_id`.

use crate::errors::ValidationError;
use crate::identity::{lower_of, ExternalIdentity};
use crate::token::ExternalToken;
use vstd::prelude::*;

verus! {

/// Validator for external identity: validates a bearer token against one
/// provider's trust material and returns the canonical identity.
pub trait ExternalIdentityValidator {
    /// Validates the external token. What is accepted is the
    /// implementation's affair; this library promises nothing of it and
    /// treats every outcome.
    fn validate(&self, token: ExternalToken) -> Result<ExternalIdentity, ValidationError>;
}

/// A claim value as the validator sees it: either a JSON string or some
/// other JSON value (numbers, arrays, objects, booleans, null), which never
/// yields a user id.
pub enum ClaimValue {
    Text(String),
    Other,
}

/// A collection of dynamic claims, as pairs of claim name and value.
pub struct DynamicClaimsCollection {
    pub entries: Vec<(String, ClaimValue)>,
}

/// The first value stored under the claim named `name`, if any.
pub open spec fn spec_claim_lookup(entries: Seq<(String, ClaimValue)>, name: Seq<char>) -> Option<
    ClaimValue,
>
    decreases entries.len(),
{
    if entries.len() == 0 {
        None
    } else if entries.first().0@ == name {
        Some(entries.first().1)
    } else {
        spec_claim_lookup(entries.drop_first(), name)
    }
}

/// Reads the claim named by `user_id_claim` out of a validated claim set
/// and builds the canonical identity from it: present string claims yield
/// the normalized identity, everything else yields nothing.
pub fn extract_user_id(
    claims: &DynamicClaimsCollection,
    user_id_claim: &str,
    identity_provider: String,
) -> (r: Option<ExternalIdentity>)
    ensures
        match r {
            Some(id) => (spec_claim_lookup(claims.entries@, user_id_claim@) matches Some(
                ClaimValue::Text(s),
            ) && id.user_id@ == lower_of(s@) && id.identity_provider@ == lower_of(
                identity_provider@,
            )),
            None => !(spec_claim_lookup(claims.entries@, user_id_claim@) matches Some(
                ClaimValue::Text(_),
            )),
        },
{
    let needle = user_id_claim.to_owned();
    let ghost all = claims.entries@;
    let mut i: usize = 0;
    proof {
        assert(all.skip(0) =~= all);
    }
    while i < claims.entries.len()
        invariant
            i <= claims.entries@.len(),
            all == claims.entries@,
            needle@ == user_id_claim@,
            spec_claim_lookup(all, user_id_claim@) == spec_claim_lookup(
                all.skip(i as int),
                user_id_claim@,
            ),
        decreases claims.entries@.len() - i,
    {
        proof {
            assert(all.skip(i as int).first() == all[i as int]);
            assert(all.skip(i as int).drop_first() =~= all.skip(i + 1));
        }
        if claims.entries[i].0.eq(&needle) {
            proof {
                assert(all[i as int].0@ == user_id_claim@);
                assert(spec_claim_lookup(all, user_id_claim@) == Some(all[i as int].1));
            }
            match &claims.entries[i].1 {
                ClaimValue::Text(user_id) => {
                    return Some(ExternalIdentity::new(identity_provider, user_id.clone()));
                },
                ClaimValue::Other => {
                    return None;
                },
            }
        }
        i += 1;
    }
    proof {
        assert(all.skip(i as int).len() == 0);
    }
    None
}

} // verus!
