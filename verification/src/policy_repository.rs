//! Direct identity-to-policy resolution.
//!
//! An older repository shape that maps an identity straight to one policy
//! text, kept alongside the id-keyed stores. Its in-memory implementation
//! holds a single fixed placeholder record.

use crate::errors::NotFoundError;
use crate::identity::{lower_of, ExternalIdentity};
use crate::stores::{
    assoc_has, assoc_map, assoc_unique, lemma_assoc_at_match, lemma_assoc_push,
};
use vstd::prelude::*;

verus! {

/// Represents a repository that resolves the policy text attached to an
/// external identity.
pub trait PolicyRepository: Sized {
    spec fn inv(&self) -> bool;

    /// Retrieves the policy for the given external identity.
    fn get_policy(&self, external_identity: &ExternalIdentity) -> Result<String, NotFoundError>
        requires
            self.inv(),
    ;
}

/// Fixed in-memory implementation of a policy repository.
pub struct InMemoryPolicyRepository {
    policies: Vec<(ExternalIdentity, String)>,
}

impl InMemoryPolicyRepository {
    /// The stored entries: pairs of identity key and policy text.
    pub closed spec fn entries_view(self) -> Seq<((Seq<char>, Seq<char>), Seq<char>)> {
        self.policies@.map_values(|p: (ExternalIdentity, String)| (p.0.key(), p.1@))
    }

    /// The repository invariant: each identity is stored at most once.
    pub open spec fn wf(self) -> bool {
        assoc_unique(self.entries_view())
    }

    /// The stored records as a map from identity key to policy text.
    pub open spec fn contents(self) -> Map<(Seq<char>, Seq<char>), Seq<char>> {
        assoc_map(self.entries_view())
    }

    /// Creates the repository, holding one placeholder identity bound to
    /// the empty policy text.
    pub fn new() -> (r: Self)
        ensures
            r.wf(),
            r.contents() == Map::<(Seq<char>, Seq<char>), Seq<char>>::empty().insert(
                (lower_of("user@example.com"@), lower_of("provider"@)),
                Seq::<char>::empty(),
            ),
    {
        let policy = String::new();
        let dummy_identity = ExternalIdentity::new("user@example.com".to_owned(), "provider".to_owned());

        let mut map: Vec<(ExternalIdentity, String)> = Vec::new();
        let ghost ev0 = map@.map_values(|p: (ExternalIdentity, String)| (p.0.key(), p.1@));
        proof {
            assert(forall|k: (Seq<char>, Seq<char>)| !assoc_has(ev0, k));
            assert(assoc_map(ev0) =~= Map::<(Seq<char>, Seq<char>), Seq<char>>::empty());
            lemma_assoc_push(ev0, dummy_identity.key(), policy@);
        }
        map.push((dummy_identity, policy));
        let r = InMemoryPolicyRepository { policies: map };
        proof {
            assert(r.entries_view() =~= ev0.push((dummy_identity.key(), policy@)));
        }
        r
    }
}

impl PolicyRepository for InMemoryPolicyRepository {
    open spec fn inv(&self) -> bool {
        self.wf()
    }

    /// Retrieves the policy text stored for the identity; fails exactly
    /// when the identity has no record.
    fn get_policy(&self, external_identity: &ExternalIdentity) -> (r: Result<
        String,
        NotFoundError,
    >)
        ensures
            match r {
                Ok(p) => self.contents().contains_key(external_identity.key()) && p@
                    == self.contents()[external_identity.key()],
                Err(_) => !self.contents().contains_key(external_identity.key()),
            },
    {
        let mut i: usize = 0;
        while i < self.policies.len()
            invariant
                self.wf(),
                i <= self.policies@.len(),
                forall|j: int| 0 <= j < i ==> self.entries_view()[j].0 != external_identity.key(),
            decreases self.policies@.len() - i,
        {
            if self.policies[i].0.eq(external_identity) {
                proof {
                    assert(self.entries_view()[i as int].0 == external_identity.key());
                    lemma_assoc_at_match(self.entries_view(), i as int, external_identity.key());
                }
                return Ok(self.policies[i].1.clone());
            }
            assert(self.entries_view()[i as int].0 == self.policies@[i as int].0.key());
            i += 1;
        }
        Err(NotFoundError)
    }
}

} // verus!
