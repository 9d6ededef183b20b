//! The identity validator registry.
//!
//! A mutable map from provider to validator instance. Keys are the
//! provider names normalized to lower case, so provider identity is
//! case-insensitive. `put` installs a validator for a provider, replacing
//! any prior one (the last completed `put` for a given id wins); `get`
//! returns the current validator and fails exactly for providers that never
//! had one installed.

use crate::errors::{ConfigError, NotFoundError};
use crate::identity::{lower_of, to_lowercase};
use crate::provider::ExternalIdentityProvider;
use crate::stores::{
    assoc_has, assoc_map, assoc_unique, lemma_assoc_at_match, lemma_assoc_push, lemma_assoc_update,
};
use vstd::prelude::*;

verus! {

/// Write-only interface for managing external identity validators.
pub trait ExternalIdentityValidatorManager<V>: Sized {
    spec fn inv(&self) -> bool;

    /// Installs `validator` for `provider`, replacing any prior validator
    /// for that provider.
    fn put(&mut self, provider: ExternalIdentityProvider, validator: V) -> (r: Result<
        (),
        ConfigError,
    >)
        requires
            old(self).inv(),
        ensures
            final(self).inv(),
    ;
}

/// Read-only interface for looking up external identity validators.
pub trait ExternalIdentityValidatorProvider<V>: Sized {
    spec fn inv(&self) -> bool;

    /// Returns the current validator for `provider`.
    fn get(&self, provider: &ExternalIdentityProvider) -> (r: Result<&V, NotFoundError>)
        requires
            self.inv(),
    ;
}

/// The registry of per-provider validators, keyed by normalized provider
/// name.
pub struct ExternalIdentityValidationService<V> {
    validators: Vec<(String, V)>,
}

/// Creates a new external identity validation service with no providers
/// installed.
pub fn new<V>() -> (r: ExternalIdentityValidationService<V>)
    ensures
        r.wf(),
        r.contents() == Map::<Seq<char>, V>::empty(),
{
    ExternalIdentityValidationService::empty()
}

impl<V> ExternalIdentityValidationService<V> {
    /// The stored entries: pairs of normalized provider name and validator.
    pub closed spec fn entries_view(self) -> Seq<(Seq<char>, V)> {
        self.validators@.map_values(|p: (String, V)| (p.0@, p.1))
    }

    /// The registry invariant: each provider name is stored at most once.
    pub open spec fn wf(self) -> bool {
        assoc_unique(self.entries_view())
    }

    /// The installed validators as a map from normalized provider name to
    /// validator.
    pub open spec fn contents(self) -> Map<Seq<char>, V> {
        assoc_map(self.entries_view())
    }

    fn empty() -> (r: Self)
        ensures
            r.wf(),
            r.contents() == Map::<Seq<char>, V>::empty(),
    {
        let r = ExternalIdentityValidationService { validators: Vec::new() };
        proof {
            assert(forall|k: Seq<char>| !assoc_has(r.entries_view(), k));
            assert(r.contents() =~= Map::<Seq<char>, V>::empty());
        }
        r
    }

    /// The index of the validator installed under the normalized name, if
    /// any.
    fn find(&self, normalized: &String) -> (r: Option<usize>)
        ensures
            match r {
                Some(i) => i < self.validators@.len() && self.entries_view()[i as int].0
                    == normalized@,
                None => !assoc_has(self.entries_view(), normalized@),
            },
    {
        let mut i: usize = 0;
        while i < self.validators.len()
            invariant
                i <= self.validators@.len(),
                forall|j: int| 0 <= j < i ==> self.entries_view()[j].0 != normalized@,
            decreases self.validators@.len() - i,
        {
            if self.validators[i].0.eq(normalized) {
                assert(self.entries_view()[i as int].0 == normalized@);
                return Some(i);
            }
            assert(self.entries_view()[i as int].0 == self.validators@[i as int].0@);
            i += 1;
        }
        None
    }
}

impl<V> ExternalIdentityValidatorProvider<V> for ExternalIdentityValidationService<V> {
    open spec fn inv(&self) -> bool {
        self.wf()
    }

    /// Returns the current validator for `provider`; fails exactly for
    /// providers that never had a validator installed.
    fn get(&self, provider: &ExternalIdentityProvider) -> (r: Result<&V, NotFoundError>)
        ensures
            match r {
                Ok(v) => self.contents().contains_key(lower_of(provider.name_view())) && *v
                    == self.contents()[lower_of(provider.name_view())],
                Err(_) => !self.contents().contains_key(lower_of(provider.name_view())),
            },
    {
        let name = provider.name();
        let normalized = to_lowercase(name.as_str());
        match self.find(&normalized) {
            Some(i) => {
                proof {
                    lemma_assoc_at_match(
                        self.entries_view(),
                        i as int,
                        lower_of(provider.name_view()),
                    );
                }
                Ok(&self.validators[i].1)
            },
            None => Err(NotFoundError),
        }
    }
}

impl<V> ExternalIdentityValidatorManager<V> for ExternalIdentityValidationService<V> {
    open spec fn inv(&self) -> bool {
        self.wf()
    }

    /// Installs `validator` under the provider's normalized name; the last
    /// completed `put` for a given provider wins.
    fn put(&mut self, provider: ExternalIdentityProvider, validator: V) -> (r: Result<
        (),
        ConfigError,
    >)
        ensures
            r is Ok,
            final(self).contents() == old(self).contents().insert(
                lower_of(provider.name_view()),
                validator,
            ),
    {
        let name = provider.name();
        let normalized = to_lowercase(name.as_str());
        match self.find(&normalized) {
            Some(i) => {
                proof {
                    lemma_assoc_update(
                        self.entries_view(),
                        i as int,
                        lower_of(provider.name_view()),
                        validator,
                    );
                }
                self.validators[i] = (normalized, validator);
                proof {
                    assert(self.entries_view() =~= old(self).entries_view().update(
                        i as int,
                        (self.entries_view()[i as int].0, self.entries_view()[i as int].1),
                    ));
                }
            },
            None => {
                proof {
                    lemma_assoc_push(
                        self.entries_view(),
                        lower_of(provider.name_view()),
                        validator,
                    );
                }
                self.validators.push((normalized, validator));
                proof {
                    assert(self.entries_view() =~= old(self).entries_view().push(
                        (self.entries_view().last().0, self.entries_view().last().1),
                    ));
                }
            },
        }
        Ok(())
    }
}

} // verus!
