//! External identity providers and their OIDC trust configuration.

use vstd::prelude::*;

verus! {

/// An external identity provider, named by its configuration.
#[derive(Debug, Clone)]
pub struct ExternalIdentityProvider {
    name: String,
}

impl ExternalIdentityProvider {
    /// The provider's name.
    pub closed spec fn name_view(self) -> Seq<char> {
        self.name@
    }

    /// Wraps a name into an external identity provider.
    pub fn from_name(name: String) -> (r: Self)
        ensures
            r.name_view() == name@,
    {
        ExternalIdentityProvider { name }
    }

    /// Copies the name of the external identity provider.
    pub fn name(&self) -> (r: String)
        ensures
            r@ == self.name_view(),
    {
        self.name.clone()
    }
}

impl From<String> for ExternalIdentityProvider {
    fn from(name: String) -> (r: Self) {
        ExternalIdentityProvider { name }
    }
}

impl vstd::std_specs::convert::FromSpecImpl<String> for ExternalIdentityProvider {
    open spec fn obeys_from_spec() -> bool {
        true
    }

    closed spec fn from_spec(name: String) -> Self {
        ExternalIdentityProvider { name }
    }
}

/// OIDC trust configuration for one provider. All four fields are required
/// for strict validation; the issuer and audience lists must be non-empty to
/// accept any token at all.
#[derive(Debug, Clone)]
pub struct OidcExternalIdentityProviderSettings {
    /// The claim that contains the user id (or name) in the external token.
    /// It decides which claim value becomes the user id of the issued
    /// internal token.
    pub user_id_claim: String,

    /// The well-known URI of the identity provider, used to obtain the
    /// public keys that validate tokens.
    pub discovery_url: String,

    /// The list of issuers that are allowed to issue tokens.
    pub issuers: Vec<String>,

    /// The list of audiences that are allowed to consume tokens.
    pub audiences: Vec<String>,
}

} // verus!
