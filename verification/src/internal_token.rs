//! The internal token and its claim encoding and signing.
//!
//! An `InternalToken` carries the merged policy content and the identity
//! metadata of one validated caller. Encoding maps it deterministically to a
//! `ClaimSet`: namespaced private claims for the schema version, the
//! compressed-and-encoded policy, the user id and the provider, plus the
//! registered issuer, audience and expiration (issue time plus one hour).
//! Signing produces the compact token string with an HMAC-SHA-256 keyed MAC.

use crate::codec::{b64_of, encode_policy_claim, zlib_of};
use crate::identity::Policy;
use crate::provider::ExternalIdentityProvider;
use vstd::prelude::*;

verus! {

/// Identity metadata carried by an internal token.
pub struct TokenMetadata {
    pub user_id: String,
    pub identity_provider: ExternalIdentityProvider,
}

/// An internal token issued by this service, prior to encoding and signing.
pub struct InternalToken {
    pub policy: Policy,
    pub metadata: TokenMetadata,
    /// The claim schema version; an explicit string so future claim layouts
    /// can coexist.
    pub version: String,
}

/// The claim set of an internal token: named private claims plus the
/// registered issuer, audience and expiration.
pub struct ClaimSet {
    pub private: Vec<(String, String)>,
    pub issuer: String,
    pub audience: String,
    pub expiration: u64,
}

/// The views of a sequence of named claims.
pub open spec fn claims_view(private: Seq<(String, String)>) -> Seq<(Seq<char>, Seq<char>)> {
    private.map_values(|p: (String, String)| (p.0@, p.1@))
}

/// The private claims of a token carrying the given policy content, user id,
/// provider name and schema version, under their namespaced claim keys; the
/// policy travels compressed and base64-encoded.
pub open spec fn spec_private_claims(
    policy: Seq<char>,
    user_id: Seq<char>,
    provider: Seq<char>,
    version: Seq<char>,
) -> Seq<(Seq<char>, Seq<char>)> {
    seq![
        ("boxer.sneaksanddata.com/api-version"@, version),
        ("boxer.sneaksanddata.com/policy"@, b64_of(zlib_of(policy))),
        ("boxer.sneaksanddata.com/user-id"@, user_id),
        ("boxer.sneaksanddata.com/identity-provider"@, provider),
    ]
}

/// Expiration of a token issued at `now_secs`: one hour later, clamped to
/// the largest representable time.
pub open spec fn expiry_of(now_secs: u64) -> u64 {
    if now_secs + 3600 <= u64::MAX {
        (now_secs + 3600) as u64
    } else {
        u64::MAX
    }
}

/// Names the compact token that signing a claim set with an HMAC-SHA-256
/// key produces: a function of the claims and the key alone.
pub uninterp spec fn hs256_token_of(
    private: Seq<(Seq<char>, Seq<char>)>,
    issuer: Seq<char>,
    audience: Seq<char>,
    expiration: u64,
    key: Seq<u8>,
) -> Seq<char>;

/// Relies on the jwt crate's `SignWithKey` for `jwt::Claims`, with hmac's
/// `Hmac<Sha256>` as the signing algorithm: the compact token depends on
/// the claims and the key material alone. Signing always succeeds: HMAC
/// accepts a key of any length, and string claims always serialize.
#[verifier::external_body]
pub(crate) fn sign_claim_set(claims: &ClaimSet, key: &[u8]) -> (r: String)
    ensures
        r@ == hs256_token_of(
            claims_view(claims.private@),
            claims.issuer@,
            claims.audience@,
            claims.expiration,
            key@,
        ),
{
    let mac: hmac::Hmac<sha2::Sha256> =
        hmac::Mac::new_from_slice(key).expect("HMAC accepts a key of any length");
    let mut jwt_claims = jwt::Claims::default();
    for (name, value) in claims.private.iter() {
        jwt_claims.private.insert(name.clone(), serde_json::Value::String(value.clone()));
    }
    jwt_claims.registered.issuer = Some(claims.issuer.clone());
    jwt_claims.registered.audience = Some(claims.audience.clone());
    jwt_claims.registered.expiration = Some(claims.expiration);
    jwt::SignWithKey::sign_with_key(jwt_claims, &mac).expect("string claims always serialize")
}

impl InternalToken {
    /// Creates an internal token for the current claim schema.
    pub fn new(policy: Policy, user_id: String, external_identity_provider: String) -> (r: Self)
        ensures
            r.policy.content@ == policy.content@,
            r.metadata.user_id@ == user_id@,
            r.metadata.identity_provider.name_view() == external_identity_provider@,
            r.version@ == "v1"@,
    {
        InternalToken {
            policy,
            metadata: TokenMetadata {
                user_id,
                identity_provider: ExternalIdentityProvider::from_name(external_identity_provider),
            },
            version: "v1".to_owned(),
        }
    }

    /// Encodes this token's claims: compress and base64 the policy, attach
    /// the namespaced private claims, set issuer and audience to the fixed
    /// service identifier and the expiration to `now_secs` plus one hour.
    pub fn to_claims(&self, now_secs: u64) -> (r: ClaimSet)
        ensures
            claims_view(r.private@) == spec_private_claims(
                self.policy.content@,
                self.metadata.user_id@,
                self.metadata.identity_provider.name_view(),
                self.version@,
            ),
            r.issuer@ == "boxer.sneaksanddata.com"@,
            r.audience@ == "boxer.sneaksanddata.com"@,
            r.expiration == expiry_of(now_secs),
    {
        let policy_claim = encode_policy_claim(self.policy.content.as_str());
        let mut private: Vec<(String, String)> = Vec::new();
        private.push(("boxer.sneaksanddata.com/api-version".to_owned(), self.version.clone()));
        private.push(("boxer.sneaksanddata.com/policy".to_owned(), policy_claim));
        private.push(("boxer.sneaksanddata.com/user-id".to_owned(), self.metadata.user_id.clone()));
        private.push(
            (
                "boxer.sneaksanddata.com/identity-provider".to_owned(),
                self.metadata.identity_provider.name(),
            ),
        );
        let expiration = if now_secs <= u64::MAX - 3600 {
            now_secs + 3600
        } else {
            u64::MAX
        };
        proof {
            assert(claims_view(private@) =~= spec_private_claims(
                self.policy.content@,
                self.metadata.user_id@,
                self.metadata.identity_provider.name_view(),
                self.version@,
            ));
        }
        ClaimSet {
            private,
            issuer: "boxer.sneaksanddata.com".to_owned(),
            audience: "boxer.sneaksanddata.com".to_owned(),
            expiration,
        }
    }
}

} // verus!
