//! The token issuance service.
//!
//! Orchestrates the end-to-end exchange of an external token for a signed
//! internal token: look up the provider's validator, validate the bearer
//! token into a canonical identity, merge the policies attached to that
//! identity, encode the claim set and sign it. The caller-visible error is
//! the generic `IssuanceError` envelope; no validator or store detail
//! crosses the boundary.

use crate::errors::IssuanceError;
use crate::external_identity_validator::ExternalIdentityValidator;
use crate::identity::{lower_of, ExternalIdentity, Policy};
use crate::identity_validator_provider::{
    ExternalIdentityValidationService, ExternalIdentityValidatorProvider,
};
use crate::internal_token::{
    expiry_of, hs256_token_of, sign_claim_set, spec_private_claims, InternalToken,
};
use crate::provider::ExternalIdentityProvider;
use crate::stores::{PolicyAttachmentStore, PolicyStore, UpsertRepository};
use crate::token::ExternalToken;
use vstd::prelude::*;

verus! {

/// The merged content of the policies stored under `ids`, folded
/// left-to-right with `Policy` merging from the empty policy.
pub open spec fn merged_content_of(ids: Seq<Seq<char>>, policies: Map<Seq<char>, Seq<char>>) -> Seq<
    char,
>
    decreases ids.len(),
{
    if ids.len() == 0 {
        Seq::empty()
    } else {
        Policy::spec_merge(merged_content_of(ids.drop_last(), policies), policies[ids.last()])
    }
}

/// Issues internal tokens in exchange for validated external tokens.
pub trait TokenProvider: Sized {
    spec fn inv(&self) -> bool;

    /// Exchanges an external token presented for `provider` for a signed
    /// internal token, issued at `now_secs` (seconds since the epoch).
    fn issue_token(
        &self,
        provider: ExternalIdentityProvider,
        external_token: ExternalToken,
        now_secs: u64,
    ) -> (r: Result<String, IssuanceError>)
        requires
            self.inv(),
    ;

    /// Issues a signed internal token for an already-validated identity,
    /// at `now_secs` (seconds since the epoch).
    fn generate_token(&self, identity: ExternalIdentity, now_secs: u64) -> (r: Result<
        String,
        IssuanceError,
    >)
        requires
            self.inv(),
    ;
}

/// The token issuance service: owns the validator registry, the policy and
/// attachment stores, and the signing secret.
pub struct TokenService<V> {
    pub validators: ExternalIdentityValidationService<V>,
    pub policy_repository: PolicyStore,
    pub policy_attachment_repository: PolicyAttachmentStore,
    /// The process-wide signing secret, shared read-only for the service's
    /// lifetime. Secret material: carried, never logged or echoed.
    pub sign_secret: Vec<u8>,
}

impl<V> TokenService<V> {
    /// The service invariant: every owned store is well-formed.
    pub open spec fn wf(self) -> bool {
        &&& self.validators.wf()
        &&& self.policy_repository.wf()
        &&& self.policy_attachment_repository.wf()
    }

    /// Creates the issuance service over the given registry, stores and
    /// signing secret.
    pub fn new(
        validators: ExternalIdentityValidationService<V>,
        policy_repository: PolicyStore,
        policy_attachment_repository: PolicyAttachmentStore,
        sign_secret: Vec<u8>,
    ) -> (r: Self)
        ensures
            r.validators == validators,
            r.policy_repository == policy_repository,
            r.policy_attachment_repository == policy_attachment_repository,
            r.sign_secret@ == sign_secret@,
    {
        TokenService { validators, policy_repository, policy_attachment_repository, sign_secret }
    }

    /// The policy ids attached to `identity`, in attachment order; an
    /// identity without an attachment record has none.
    pub open spec fn attached_ids(self, identity: ExternalIdentity) -> Seq<Seq<char>> {
        if self.policy_attachment_repository.contents().contains_key(identity.key()) {
            self.policy_attachment_repository.contents()[identity.key()]
        } else {
            Seq::empty()
        }
    }

    /// Whether every policy id attached to `identity` has a stored policy.
    pub open spec fn all_policies_present(self, identity: ExternalIdentity) -> bool {
        forall|i: int|
            0 <= i < self.attached_ids(identity).len()
                ==> self.policy_repository.contents().contains_key(
                #[trigger] self.attached_ids(identity)[i],
            )
    }

    /// The merged policy content for `identity`: its attached policies,
    /// folded in attachment order.
    pub open spec fn merged_content(self, identity: ExternalIdentity) -> Seq<char> {
        merged_content_of(self.attached_ids(identity), self.policy_repository.contents())
    }

    /// The token string issued to `identity` at `now_secs`: the signed
    /// claim set carrying the merged policy content. A function of the
    /// service state, the identity and the issue time alone, so issuing
    /// twice without intervening mutation gives identical tokens.
    pub open spec fn token_string_of(self, identity: ExternalIdentity, now_secs: u64) -> Seq<
        char,
    > {
        hs256_token_of(
            spec_private_claims(
                self.merged_content(identity),
                identity.user_id@,
                identity.identity_provider@,
                "v1"@,
            ),
            "boxer.sneaksanddata.com"@,
            "boxer.sneaksanddata.com"@,
            expiry_of(now_secs),
            self.sign_secret@,
        )
    }
}

/// Merge ordering is deterministic per run: two issuances for the same
/// identity against the same service state and issue time yield the same
/// token string (and thereby the same merged policy content).
pub proof fn lemma_issue_deterministic<V>(
    service: TokenService<V>,
    identity: ExternalIdentity,
    now_secs: u64,
    token1: Seq<char>,
    token2: Seq<char>,
)
    requires
        token1 == service.token_string_of(identity, now_secs),
        token2 == service.token_string_of(identity, now_secs),
    ensures
        token1 == token2,
{
}

impl<V: ExternalIdentityValidator> TokenProvider for TokenService<V> {
    open spec fn inv(&self) -> bool {
        self.wf()
    }

    /// Exchanges an external token for a signed internal token: the
    /// provider's validator decides whether the token is trusted; an
    /// unknown provider is rejected exactly when no validator was ever
    /// installed for it; every issued token is the signed claim set of
    /// some identity under the current store state.
    fn issue_token(
        &self,
        provider: ExternalIdentityProvider,
        external_token: ExternalToken,
        now_secs: u64,
    ) -> (r: Result<String, IssuanceError>)
        ensures
            (r == Err::<String, IssuanceError>(IssuanceError::UnknownProvider))
                <==> !self.validators.contents().contains_key(lower_of(provider.name_view())),
            r matches Ok(t) ==> exists|identity: ExternalIdentity|
                t@ == #[trigger] self.token_string_of(identity, now_secs)
                    && self.all_policies_present(identity),
    {
        let validator = match self.validators.get(&provider) {
            Ok(v) => v,
            Err(_) => {
                return Err(IssuanceError::UnknownProvider);
            },
        };
        match validator.validate(external_token) {
            Ok(identity) => self.generate_token(identity, now_secs),
            Err(_) => Err(IssuanceError::Unauthorized),
        }
    }

    /// Issues a signed internal token for a validated identity: resolves
    /// the attached policy ids (none is a valid, empty attachment), reads
    /// and merges the policies in attachment order, and signs the encoded
    /// claim set. Succeeds exactly when every attached policy id has a
    /// stored policy, and fails with `PolicyNotFound` otherwise.
    fn generate_token(&self, identity: ExternalIdentity, now_secs: u64) -> (r: Result<
        String,
        IssuanceError,
    >)
        ensures
            r is Ok <==> self.all_policies_present(identity),
            r matches Ok(t) ==> t@ == self.token_string_of(identity, now_secs),
            r is Err ==> r == Err::<String, IssuanceError>(IssuanceError::PolicyNotFound),
    {
        let key_copy = ExternalIdentity {
            user_id: identity.user_id.clone(),
            identity_provider: identity.identity_provider.clone(),
        };
        let attached: Vec<String> = match self.policy_attachment_repository.get(key_copy) {
            Ok(attachment) => attachment.policies,
            Err(_) => Vec::new(),
        };
        let ghost ids = self.attached_ids(identity);
        proof {
            assert(attached.deep_view() =~= ids);
        }

        let mut merged = Policy::empty();
        let mut i: usize = 0;
        while i < attached.len()
            invariant
                self.wf(),
                i <= attached@.len(),
                ids == attached.deep_view(),
                ids == self.attached_ids(identity),
                merged.content@ == merged_content_of(
                    ids.take(i as int),
                    self.policy_repository.contents(),
                ),
                forall|j: int|
                    0 <= j < i ==> self.policy_repository.contents().contains_key(
                        #[trigger] ids[j],
                    ),
            decreases attached@.len() - i,
        {
            proof {
                assert(ids[i as int] == attached@[i as int]@);
                assert(ids.take(i + 1).drop_last() =~= ids.take(i as int));
                assert(ids.take(i + 1).last() == ids[i as int]);
            }
            let policy = match self.policy_repository.get(attached[i].clone()) {
                Ok(p) => p,
                Err(_) => {
                    assert(!self.all_policies_present(identity));
                    return Err(IssuanceError::PolicyNotFound);
                },
            };
            merged = merged.merge(policy);
            i += 1;
        }
        proof {
            assert(ids.take(attached@.len() as int) =~= ids);
            assert(self.all_policies_present(identity));
        }

        let token = InternalToken::new(merged, identity.user_id, identity.identity_provider);
        let claims = token.to_claims(now_secs);
        Ok(sign_claim_set(&claims, self.sign_secret.as_slice()))
    }
}

} // verus!
