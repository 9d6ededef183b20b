//! Key/value stores with upsert semantics.
//!
//! Every store is an association list with unique keys, modelled as a
//! `Map` from key view to value view. The policy store replaces content
//! wholesale on upsert; the attachment store upserts additively (the new
//! policy-id set is unioned into the existing one); the identity store
//! replaces like the policy store. Each mutation is a single list
//! operation, so no partial-failure state is possible.

use crate::errors::StoreError;
use crate::identity::{id_union, ExternalIdentity, Policy, PolicyAttachment};
use vstd::prelude::*;

verus! {

/// Whether the association list `s` holds an entry with key `k`.
pub open spec fn assoc_has<K, V>(s: Seq<(K, V)>, k: K) -> bool {
    exists|i: int| 0 <= i < s.len() && s[i].0 == k
}

/// The value that the association list `s` holds under key `k`.
pub open spec fn assoc_at<K, V>(s: Seq<(K, V)>, k: K) -> V {
    s[choose|i: int| 0 <= i < s.len() && s[i].0 == k].1
}

/// Whether the keys of the association list `s` are pairwise distinct.
pub open spec fn assoc_unique<K, V>(s: Seq<(K, V)>) -> bool {
    forall|i: int, j: int| 0 <= i < j < s.len() ==> s[i].0 != s[j].0
}

/// The map that the association list `s` stands for.
pub open spec fn assoc_map<K, V>(s: Seq<(K, V)>) -> Map<K, V> {
    Map::new(|k: K| assoc_has(s, k), |k: K| assoc_at(s, k))
}

pub proof fn lemma_assoc_at_match<K, V>(s: Seq<(K, V)>, i: int, k: K)
    requires
        assoc_unique(s),
        0 <= i < s.len(),
        s[i].0 == k,
    ensures
        assoc_has(s, k),
        assoc_at(s, k) == s[i].1,
{
    assert(assoc_has(s, k));
    let j = choose|j: int| 0 <= j < s.len() && s[j].0 == k;
    if i != j {
        assert(s[i].0 == s[j].0);
        assert(false);
    }
}

pub proof fn lemma_assoc_update<K, V>(s: Seq<(K, V)>, i: int, k: K, v: V)
    requires
        assoc_unique(s),
        0 <= i < s.len(),
        s[i].0 == k,
    ensures
        assoc_unique(s.update(i, (k, v))),
        assoc_map(s.update(i, (k, v))) == assoc_map(s).insert(k, v),
{
    let t = s.update(i, (k, v));
    assert forall|a: int| 0 <= a < s.len() implies t[a].0 == s[a].0 by {}
    assert(assoc_unique(t));
    assert forall|k2: K| assoc_has(t, k2) implies assoc_has(s, k2) by {
        let a = choose|a: int| 0 <= a < t.len() && t[a].0 == k2;
        assert(s[a].0 == k2);
    }
    assert forall|k2: K| assoc_has(s, k2) implies assoc_has(t, k2) by {
        let a = choose|a: int| 0 <= a < s.len() && s[a].0 == k2;
        assert(t[a].0 == k2);
    }
    assert forall|k2: K| #[trigger] assoc_has(t, k2) implies assoc_at(t, k2) == assoc_map(
        s,
    ).insert(k, v)[k2] by {
        if k2 == k {
            lemma_assoc_at_match(t, i, k);
        } else {
            let a = choose|a: int| 0 <= a < s.len() && s[a].0 == k2;
            lemma_assoc_at_match(s, a, k2);
            lemma_assoc_at_match(t, a, k2);
        }
    }
    assert(assoc_map(t) =~= assoc_map(s).insert(k, v));
}

pub proof fn lemma_assoc_push<K, V>(s: Seq<(K, V)>, k: K, v: V)
    requires
        assoc_unique(s),
        !assoc_has(s, k),
    ensures
        assoc_unique(s.push((k, v))),
        assoc_map(s.push((k, v))) == assoc_map(s).insert(k, v),
{
    let t = s.push((k, v));
    assert forall|a: int, b: int| 0 <= a < b < t.len() implies t[a].0 != t[b].0 by {
        if b < s.len() {
        } else {
            assert(t[b].0 == k);
            assert(t[a].0 == s[a].0);
            if s[a].0 == k {
                assert(assoc_has(s, k));
            }
        }
    }
    assert forall|k2: K| assoc_has(t, k2) implies assoc_has(s, k2) || k2 == k by {
        let a = choose|a: int| 0 <= a < t.len() && t[a].0 == k2;
        if a < s.len() {
            assert(s[a].0 == k2);
        }
    }
    assert forall|k2: K| assoc_has(s, k2) implies assoc_has(t, k2) by {
        let a = choose|a: int| 0 <= a < s.len() && s[a].0 == k2;
        assert(t[a].0 == k2);
    }
    assert(t[s.len() as int].0 == k);
    assert(assoc_has(t, k));
    assert forall|k2: K| #[trigger] assoc_has(t, k2) implies assoc_at(t, k2) == assoc_map(
        s,
    ).insert(k, v)[k2] by {
        if k2 == k {
            lemma_assoc_at_match(t, s.len() as int, k);
        } else {
            let a = choose|a: int| 0 <= a < s.len() && s[a].0 == k2;
            lemma_assoc_at_match(s, a, k2);
            lemma_assoc_at_match(t, a, k2);
        }
    }
    assert(assoc_map(t) =~= assoc_map(s).insert(k, v));
}

pub proof fn lemma_assoc_remove<K, V>(s: Seq<(K, V)>, i: int)
    requires
        assoc_unique(s),
        0 <= i < s.len(),
    ensures
        assoc_unique(s.remove(i)),
        assoc_map(s.remove(i)) == assoc_map(s).remove(s[i].0),
{
    let t = s.remove(i);
    assert forall|a: int, b: int| 0 <= a < b < t.len() implies t[a].0 != t[b].0 by {
        let a2 = if a < i {
            a
        } else {
            a + 1
        };
        let b2 = if b < i {
            b
        } else {
            b + 1
        };
        assert(t[a].0 == s[a2].0 && t[b].0 == s[b2].0);
    }
    assert forall|k2: K| assoc_has(t, k2) implies assoc_has(s, k2) && k2 != s[i].0 by {
        let a = choose|a: int| 0 <= a < t.len() && t[a].0 == k2;
        let a2 = if a < i {
            a
        } else {
            a + 1
        };
        assert(s[a2].0 == k2);
        if k2 == s[i].0 {
            assert(s[a2].0 == s[i].0 && a2 != i);
            assert(false);
        }
    }
    assert forall|k2: K| assoc_has(s, k2) && k2 != s[i].0 implies assoc_has(t, k2) by {
        let a = choose|a: int| 0 <= a < s.len() && s[a].0 == k2;
        let a2 = if a < i {
            a
        } else {
            a - 1
        };
        assert(t[a2].0 == k2);
    }
    assert forall|k2: K| #[trigger] assoc_has(t, k2) implies assoc_at(t, k2) == assoc_at(
        s,
        k2,
    ) by {
        let a = choose|a: int| 0 <= a < t.len() && t[a].0 == k2;
        let a2 = if a < i {
            a
        } else {
            a + 1
        };
        assert(s[a2].0 == k2 && s[a2].1 == t[a].1);
        lemma_assoc_at_match(s, a2, k2);
        lemma_assoc_at_match(t, a, k2);
    }
    assert(assoc_map(t) =~= assoc_map(s).remove(s[i].0));
}

/// A repository for entities addressed by a key, with upsert semantics.
/// `inv` is the repository's invariant, established by its constructor and
/// preserved by every operation; `entity_inv` is what the repository asks
/// of every entity handed to `upsert`.
pub trait UpsertRepository<Entity, Key>: Sized {
    type Error;

    spec fn inv(&self) -> bool;

    spec fn entity_inv(entity: Entity) -> bool;

    /// Retrieves the entity stored under `key`.
    fn get(&self, key: Key) -> Result<Entity, Self::Error>
        requires
            self.inv(),
    ;

    /// Updates or inserts the entity stored under `key`.
    fn upsert(&mut self, key: Key, entity: Entity) -> (r: Result<(), Self::Error>)
        requires
            old(self).inv(),
            Self::entity_inv(entity),
        ensures
            final(self).inv(),
    ;

    /// Deletes whatever is stored under `key`.
    fn delete(&mut self, key: Key) -> (r: Result<(), Self::Error>)
        requires
            old(self).inv(),
        ensures
            final(self).inv(),
    ;
}

/// In-memory policy store: policy ids to policies, replacement on upsert.
pub struct PolicyStore {
    entries: Vec<(String, Policy)>,
}

impl PolicyStore {
    /// The stored entries: pairs of policy id and policy content.
    pub closed spec fn entries_view(self) -> Seq<(Seq<char>, Seq<char>)> {
        self.entries@.map_values(|p: (String, Policy)| (p.0@, p.1.content@))
    }

    /// The store invariant: each policy id is stored at most once.
    pub open spec fn wf(self) -> bool {
        assoc_unique(self.entries_view())
    }

    /// The stored policies as a map from policy id to content.
    pub open spec fn contents(self) -> Map<Seq<char>, Seq<char>> {
        assoc_map(self.entries_view())
    }

    /// Creates an empty policy store.
    pub fn new() -> (r: Self)
        ensures
            r.wf(),
            r.contents() == Map::<Seq<char>, Seq<char>>::empty(),
    {
        let r = PolicyStore { entries: Vec::new() };
        proof {
            assert(forall|k: Seq<char>| !assoc_has(r.entries_view(), k));
            assert(r.contents() =~= Map::<Seq<char>, Seq<char>>::empty());
        }
        r
    }

    /// The index of the entry stored under `key`, if any.
    fn find(&self, key: &String) -> (r: Option<usize>)
        ensures
            match r {
                Some(i) => i < self.entries@.len() && self.entries_view()[i as int].0 == key@,
                None => !assoc_has(self.entries_view(), key@),
            },
    {
        let mut i: usize = 0;
        while i < self.entries.len()
            invariant
                i <= self.entries@.len(),
                forall|j: int| 0 <= j < i ==> self.entries_view()[j].0 != key@,
            decreases self.entries@.len() - i,
        {
            if self.entries[i].0.eq(key) {
                assert(self.entries_view()[i as int].0 == key@);
                return Some(i);
            }
            assert(self.entries_view()[i as int].0 == self.entries@[i as int].0@);
            i += 1;
        }
        None
    }

}

impl UpsertRepository<Policy, String> for PolicyStore {
    type Error = StoreError;

    open spec fn inv(&self) -> bool {
        self.wf()
    }

    open spec fn entity_inv(entity: Policy) -> bool {
        true
    }

    /// Retrieves the policy stored under `key`; fails exactly when no
    /// policy is stored under it.
    fn get(&self, key: String) -> (r: Result<Policy, StoreError>)
        ensures
            match r {
                Ok(p) => self.contents().contains_key(key@) && p.content@ == self.contents()[key@],
                Err(_) => !self.contents().contains_key(key@),
            },
    {
        match self.find(&key) {
            Some(i) => {
                proof {
                    lemma_assoc_at_match(self.entries_view(), i as int, key@);
                }
                Ok(Policy { content: self.entries[i].1.content.clone() })
            },
            None => Err(StoreError),
        }
    }

    /// Stores `entity` under `key`, replacing any previous policy
    /// wholesale.
    fn upsert(&mut self, key: String, entity: Policy) -> (r: Result<(), StoreError>)
        ensures
            r is Ok,
            final(self).contents() == old(self).contents().insert(key@, entity.content@),
    {
        match self.find(&key) {
            Some(i) => {
                proof {
                    lemma_assoc_update(self.entries_view(), i as int, key@, entity.content@);
                }
                self.entries[i] = (key, entity);
                proof {
                    assert(self.entries_view() =~= old(self).entries_view().update(
                        i as int,
                        (self.entries_view()[i as int].0, self.entries_view()[i as int].1),
                    ));
                }
            },
            None => {
                proof {
                    lemma_assoc_push(self.entries_view(), key@, entity.content@);
                }
                self.entries.push((key, entity));
                proof {
                    assert(self.entries_view() =~= old(self).entries_view().push(
                        (self.entries_view().last().0, self.entries_view().last().1),
                    ));
                }
            },
        }
        Ok(())
    }

    /// Removes whatever policy is stored under `key`; removing an absent
    /// key leaves the store unchanged.
    fn delete(&mut self, key: String) -> (r: Result<(), StoreError>)
        ensures
            r is Ok,
            final(self).contents() == old(self).contents().remove(key@),
    {
        match self.find(&key) {
            Some(i) => {
                proof {
                    lemma_assoc_remove(self.entries_view(), i as int);
                }
                self.entries.remove(i);
                proof {
                    assert(self.entries_view() =~= old(self).entries_view().remove(i as int));
                }
            },
            None => {
                proof {
                    assert forall|k2: Seq<char>| assoc_has(self.entries_view(), k2) implies k2
                        != key@ by {}
                    assert(self.contents() =~= old(self).contents().remove(key@));
                }
            },
        }
        Ok(())
    }
}

/// In-memory policy-attachment store: identity keys to attached policy-id
/// lists. Upsert is additive: the new ids are unioned into the existing
/// attachment instead of replacing it.
pub struct PolicyAttachmentStore {
    entries: Vec<(ExternalIdentity, PolicyAttachment)>,
}

impl PolicyAttachmentStore {
    /// The stored entries: pairs of identity key and attached policy ids.
    pub closed spec fn entries_view(self) -> Seq<((Seq<char>, Seq<char>), Seq<Seq<char>>)> {
        self.entries@.map_values(|p: (ExternalIdentity, PolicyAttachment)| (p.0.key(), p.1.ids()))
    }

    /// The store invariant: each identity is stored at most once, and no
    /// stored attachment repeats a policy id.
    pub open spec fn wf(self) -> bool {
        &&& assoc_unique(self.entries_view())
        &&& forall|i: int|
            0 <= i < self.entries_view().len() ==> (#[trigger] self.entries_view()[i].1).no_duplicates()
    }

    /// The stored attachments as a map from identity key to policy ids.
    pub open spec fn contents(self) -> Map<(Seq<char>, Seq<char>), Seq<Seq<char>>> {
        assoc_map(self.entries_view())
    }

    /// Creates an empty attachment store.
    pub fn new() -> (r: Self)
        ensures
            r.wf(),
            r.contents() == Map::<(Seq<char>, Seq<char>), Seq<Seq<char>>>::empty(),
    {
        let r = PolicyAttachmentStore { entries: Vec::new() };
        proof {
            assert(forall|k: (Seq<char>, Seq<char>)| !assoc_has(r.entries_view(), k));
            assert(r.contents() =~= Map::<(Seq<char>, Seq<char>), Seq<Seq<char>>>::empty());
        }
        r
    }

    /// The index of the entry stored under `key`, if any.
    fn find(&self, key: &ExternalIdentity) -> (r: Option<usize>)
        ensures
            match r {
                Some(i) => i < self.entries@.len() && self.entries_view()[i as int].0 == key.key(),
                None => !assoc_has(self.entries_view(), key.key()),
            },
    {
        let mut i: usize = 0;
        while i < self.entries.len()
            invariant
                i <= self.entries@.len(),
                forall|j: int| 0 <= j < i ==> self.entries_view()[j].0 != key.key(),
            decreases self.entries@.len() - i,
        {
            if self.entries[i].0.eq(key) {
                assert(self.entries_view()[i as int].0 == key.key());
                return Some(i);
            }
            assert(self.entries_view()[i as int].0 == self.entries@[i as int].0.key());
            i += 1;
        }
        None
    }

}

impl UpsertRepository<PolicyAttachment, ExternalIdentity> for PolicyAttachmentStore {
    type Error = StoreError;

    open spec fn inv(&self) -> bool {
        self.wf()
    }

    open spec fn entity_inv(entity: PolicyAttachment) -> bool {
        entity.wf()
    }

    /// Retrieves the attachment stored under the identity; fails exactly
    /// when the identity has no attachment. The returned attachment never
    /// repeats a policy id.
    fn get(&self, key: ExternalIdentity) -> (r: Result<PolicyAttachment, StoreError>)
        ensures
            match r {
                Ok(a) => self.contents().contains_key(key.key()) && a.ids() == self.contents()[key.key()]
                    && a.wf(),
                Err(_) => !self.contents().contains_key(key.key()),
            },
    {
        match self.find(&key) {
            Some(i) => {
                proof {
                    lemma_assoc_at_match(self.entries_view(), i as int, key.key());
                }
                Ok(PolicyAttachment { policies: crate::identity::clone_ids(&self.entries[i].1.policies) })
            },
            None => Err(StoreError),
        }
    }

    /// Attaches the policy ids of `entity` to the identity: if an
    /// attachment already exists, the new ids are unioned into it; if none
    /// exists, `entity` is inserted as-is.
    fn upsert(&mut self, key: ExternalIdentity, entity: PolicyAttachment) -> (r: Result<
        (),
        StoreError,
    >)
        ensures
            r is Ok,
            final(self).contents() == (if old(self).contents().contains_key(key.key()) {
                old(self).contents().insert(
                    key.key(),
                    id_union(old(self).contents()[key.key()], entity.ids()),
                )
            } else {
                old(self).contents().insert(key.key(), entity.ids())
            }),
    {
        match self.find(&key) {
            Some(i) => {
                proof {
                    lemma_assoc_at_match(self.entries_view(), i as int, key.key());
                }
                let merged = self.entries[i].1.union(&entity);
                proof {
                    lemma_assoc_update(self.entries_view(), i as int, key.key(), merged.ids());
                }
                self.entries[i] = (key, merged);
                proof {
                    assert(self.entries_view() =~= old(self).entries_view().update(
                        i as int,
                        (self.entries_view()[i as int].0, self.entries_view()[i as int].1),
                    ));
                }
            },
            None => {
                proof {
                    lemma_assoc_push(self.entries_view(), key.key(), entity.ids());
                }
                self.entries.push((key, entity));
                proof {
                    assert(self.entries_view() =~= old(self).entries_view().push(
                        (self.entries_view().last().0, self.entries_view().last().1),
                    ));
                }
            },
        }
        Ok(())
    }

    /// Removes the whole attachment record of the identity, not a single
    /// policy id; removing an absent identity leaves the store unchanged.
    fn delete(&mut self, key: ExternalIdentity) -> (r: Result<(), StoreError>)
        ensures
            r is Ok,
            final(self).contents() == old(self).contents().remove(key.key()),
    {
        match self.find(&key) {
            Some(i) => {
                proof {
                    lemma_assoc_remove(self.entries_view(), i as int);
                }
                self.entries.remove(i);
                proof {
                    assert(self.entries_view() =~= old(self).entries_view().remove(i as int));
                }
            },
            None => {
                proof {
                    assert forall|k2: (Seq<char>, Seq<char>)|
                        assoc_has(self.entries_view(), k2) implies k2 != key.key() by {}
                    assert(self.contents() =~= old(self).contents().remove(key.key()));
                }
            },
        }
        Ok(())
    }
}

/// In-memory identity store: `(provider, id)` path keys to identities,
/// replacement on upsert.
pub struct IdentityStore {
    entries: Vec<((String, String), ExternalIdentity)>,
}

impl IdentityStore {
    /// The stored entries: pairs of path key and identity key.
    pub closed spec fn entries_view(self) -> Seq<((Seq<char>, Seq<char>), (Seq<char>, Seq<char>))> {
        self.entries@.map_values(
            |p: ((String, String), ExternalIdentity)| ((p.0.0@, p.0.1@), p.1.key()),
        )
    }

    /// The store invariant: each path key is stored at most once.
    pub open spec fn wf(self) -> bool {
        assoc_unique(self.entries_view())
    }

    /// The stored identities as a map from path key to identity key.
    pub open spec fn contents(self) -> Map<(Seq<char>, Seq<char>), (Seq<char>, Seq<char>)> {
        assoc_map(self.entries_view())
    }

    /// Creates an empty identity store.
    pub fn new() -> (r: Self)
        ensures
            r.wf(),
            r.contents() == Map::<(Seq<char>, Seq<char>), (Seq<char>, Seq<char>)>::empty(),
    {
        let r = IdentityStore { entries: Vec::new() };
        proof {
            assert(forall|k: (Seq<char>, Seq<char>)| !assoc_has(r.entries_view(), k));
            assert(r.contents() =~= Map::<(Seq<char>, Seq<char>), (Seq<char>, Seq<char>)>::empty());
        }
        r
    }

    /// The index of the entry stored under `key`, if any.
    fn find(&self, key: &(String, String)) -> (r: Option<usize>)
        ensures
            match r {
                Some(i) => i < self.entries@.len() && self.entries_view()[i as int].0 == (key.0@, key.1@),
                None => !assoc_has(self.entries_view(), (key.0@, key.1@)),
            },
    {
        let mut i: usize = 0;
        while i < self.entries.len()
            invariant
                i <= self.entries@.len(),
                forall|j: int| 0 <= j < i ==> self.entries_view()[j].0 != (key.0@, key.1@),
            decreases self.entries@.len() - i,
        {
            if self.entries[i].0.0.eq(&key.0) && self.entries[i].0.1.eq(&key.1) {
                assert(self.entries_view()[i as int].0 == (key.0@, key.1@));
                return Some(i);
            }
            assert(self.entries_view()[i as int].0 == (
                self.entries@[i as int].0.0@,
                self.entries@[i as int].0.1@,
            ));
            i += 1;
        }
        None
    }

}

impl UpsertRepository<ExternalIdentity, (String, String)> for IdentityStore {
    type Error = StoreError;

    open spec fn inv(&self) -> bool {
        self.wf()
    }

    open spec fn entity_inv(entity: ExternalIdentity) -> bool {
        true
    }

    /// Retrieves the identity stored under `key`; fails exactly when none
    /// is stored under it.
    fn get(&self, key: (String, String)) -> (r: Result<ExternalIdentity, StoreError>)
        ensures
            match r {
                Ok(e) => self.contents().contains_key((key.0@, key.1@)) && e.key() == self.contents()[(key.0@, key.1@)],
                Err(_) => !self.contents().contains_key((key.0@, key.1@)),
            },
    {
        match self.find(&key) {
            Some(i) => {
                proof {
                    lemma_assoc_at_match(self.entries_view(), i as int, (key.0@, key.1@));
                }
                Ok(
                    ExternalIdentity {
                        user_id: self.entries[i].1.user_id.clone(),
                        identity_provider: self.entries[i].1.identity_provider.clone(),
                    },
                )
            },
            None => Err(StoreError),
        }
    }

    /// Stores `entity` under `key`, replacing any previous identity.
    fn upsert(&mut self, key: (String, String), entity: ExternalIdentity) -> (r: Result<
        (),
        StoreError,
    >)
        ensures
            r is Ok,
            final(self).contents() == old(self).contents().insert((key.0@, key.1@), entity.key()),
    {
        match self.find(&key) {
            Some(i) => {
                proof {
                    lemma_assoc_update(
                        self.entries_view(),
                        i as int,
                        (key.0@, key.1@),
                        entity.key(),
                    );
                }
                self.entries[i] = (key, entity);
                proof {
                    assert(self.entries_view() =~= old(self).entries_view().update(
                        i as int,
                        (self.entries_view()[i as int].0, self.entries_view()[i as int].1),
                    ));
                }
            },
            None => {
                proof {
                    lemma_assoc_push(self.entries_view(), (key.0@, key.1@), entity.key());
                }
                self.entries.push((key, entity));
                proof {
                    assert(self.entries_view() =~= old(self).entries_view().push(
                        (self.entries_view().last().0, self.entries_view().last().1),
                    ));
                }
            },
        }
        Ok(())
    }

    /// Removes whatever identity is stored under `key`; removing an absent
    /// key leaves the store unchanged.
    fn delete(&mut self, key: (String, String)) -> (r: Result<(), StoreError>)
        ensures
            r is Ok,
            final(self).contents() == old(self).contents().remove((key.0@, key.1@)),
    {
        match self.find(&key) {
            Some(i) => {
                proof {
                    lemma_assoc_remove(self.entries_view(), i as int);
                }
                self.entries.remove(i);
                proof {
                    assert(self.entries_view() =~= old(self).entries_view().remove(i as int));
                }
            },
            None => {
                proof {
                    assert forall|k2: (Seq<char>, Seq<char>)|
                        assoc_has(self.entries_view(), k2) implies k2 != (key.0@, key.1@) by {}
                    assert(self.contents() =~= old(self).contents().remove((key.0@, key.1@)));
                }
            },
        }
        Ok(())
    }
}

} // verus!
