use base64::Engine;
use boxer_issuer::codec::decode_policy_claim;
use boxer_issuer::errors::{IssuanceError, ValidationError};
use boxer_issuer::identity::{ExternalIdentity, Policy, PolicyAttachment};
use boxer_issuer::identity_validator_provider::{
    new, ExternalIdentityValidationService, ExternalIdentityValidatorManager,
    ExternalIdentityValidatorProvider,
};
use boxer_issuer::external_identity_validator::ExternalIdentityValidator;
use boxer_issuer::provider::ExternalIdentityProvider;
use boxer_issuer::stores::{PolicyAttachmentStore, PolicyStore, UpsertRepository};
use boxer_issuer::token::ExternalToken;
use boxer_issuer::token_service::{TokenProvider, TokenService};

const NOW: u64 = 1_700_000_000;
const SECRET: &[u8] = b"test-signing-secret";

/// A validator that accepts exactly one bearer token and maps it to one
/// fixed user.
struct SingleUserValidator {
    accepted_token: String,
    user_id: String,
    provider_name: String,
}

impl ExternalIdentityValidator for SingleUserValidator {
    fn validate(&self, token: ExternalToken) -> Result<ExternalIdentity, ValidationError> {
        if token.token == self.accepted_token {
            Ok(ExternalIdentity::new(
                self.provider_name.clone(),
                self.user_id.clone(),
            ))
        } else {
            Err(ValidationError::Untrusted)
        }
    }
}

fn acme_validator() -> SingleUserValidator {
    SingleUserValidator {
        accepted_token: "good-token".to_string(),
        user_id: "alice".to_string(),
        provider_name: "acme".to_string(),
    }
}

fn service_with_acme() -> TokenService<SingleUserValidator> {
    let mut validators = new();
    validators
        .put(
            ExternalIdentityProvider::from("acme".to_string()),
            acme_validator(),
        )
        .expect("put succeeds");

    let mut policies = PolicyStore::new();
    policies
        .upsert("p1".to_string(), Policy::new("allow: *".to_string()))
        .expect("upsert succeeds");

    let mut attachments = PolicyAttachmentStore::new();
    attachments
        .upsert(
            ExternalIdentity::new("acme".to_string(), "alice".to_string()),
            PolicyAttachment::single("p1".to_string()),
        )
        .expect("upsert succeeds");

    TokenService::new(validators, policies, attachments, SECRET.to_vec())
}

fn payload_json(token: &str) -> serde_json::Value {
    let parts: Vec<&str> = token.split('.').collect();
    assert_eq!(parts.len(), 3, "a compact token has three segments");
    let payload = base64::engine::general_purpose::URL_SAFE_NO_PAD
        .decode(parts[1])
        .expect("payload is base64url");
    serde_json::from_slice(&payload).expect("payload is JSON")
}

#[test]
fn unknown_provider_always_fails_with_unknown_provider() {
    let validators: ExternalIdentityValidationService<SingleUserValidator> = new();
    let service = TokenService::new(
        validators,
        PolicyStore::new(),
        PolicyAttachmentStore::new(),
        SECRET.to_vec(),
    );
    for token in ["", "good-token", "anything at all"] {
        let r = service.issue_token(
            ExternalIdentityProvider::from("nonexistent".to_string()),
            ExternalToken::from(token.to_string()),
            NOW,
        );
        assert_eq!(r.expect_err("provider is unknown"), IssuanceError::UnknownProvider);
    }
}

#[test]
fn end_to_end_issues_decodable_signed_token() {
    let service = service_with_acme();
    let token = service
        .issue_token(
            ExternalIdentityProvider::from("acme".to_string()),
            ExternalToken::from("good-token".to_string()),
            NOW,
        )
        .expect("issuance succeeds");

    let claims = payload_json(token.as_str());
    assert_eq!(
        claims["boxer.sneaksanddata.com/api-version"].as_str(),
        Some("v1")
    );
    assert_eq!(claims["boxer.sneaksanddata.com/user-id"].as_str(), Some("alice"));
    assert_eq!(
        claims["boxer.sneaksanddata.com/identity-provider"].as_str(),
        Some("acme")
    );
    assert_eq!(claims["iss"].as_str(), Some("boxer.sneaksanddata.com"));
    assert_eq!(claims["aud"].as_str(), Some("boxer.sneaksanddata.com"));
    assert_eq!(claims["exp"].as_u64(), Some(NOW + 3600));

    let policy_claim = claims["boxer.sneaksanddata.com/policy"]
        .as_str()
        .expect("policy claim is a string");
    assert_eq!(
        decode_policy_claim(policy_claim).expect("policy claim decodes"),
        "allow: *"
    );
}

#[test]
fn issued_token_matches_independent_signing() {
    let service = service_with_acme();
    let token = service
        .issue_token(
            ExternalIdentityProvider::from("acme".to_string()),
            ExternalToken::from("good-token".to_string()),
            NOW,
        )
        .expect("issuance succeeds");

    let mut expected_claims = jwt::Claims::default();
    let compressed = {
        let mut encoder =
            flate2::write::ZlibEncoder::new(Vec::new(), flate2::Compression::default());
        std::io::Write::write_all(&mut encoder, b"allow: *").expect("write succeeds");
        encoder.finish().expect("compression succeeds")
    };
    let policy_claim = base64::engine::general_purpose::STANDARD.encode(&compressed);
    expected_claims.private.insert(
        "boxer.sneaksanddata.com/api-version".to_string(),
        serde_json::Value::String("v1".to_string()),
    );
    expected_claims.private.insert(
        "boxer.sneaksanddata.com/policy".to_string(),
        serde_json::Value::String(policy_claim),
    );
    expected_claims.private.insert(
        "boxer.sneaksanddata.com/user-id".to_string(),
        serde_json::Value::String("alice".to_string()),
    );
    expected_claims.private.insert(
        "boxer.sneaksanddata.com/identity-provider".to_string(),
        serde_json::Value::String("acme".to_string()),
    );
    expected_claims.registered.issuer = Some("boxer.sneaksanddata.com".to_string());
    expected_claims.registered.audience = Some("boxer.sneaksanddata.com".to_string());
    expected_claims.registered.expiration = Some(NOW + 3600);
    let mac: hmac::Hmac<sha2::Sha256> =
        hmac::Mac::new_from_slice(SECRET).expect("key material is accepted");
    let expected =
        jwt::SignWithKey::sign_with_key(expected_claims, &mac).expect("signing succeeds");

    assert_eq!(token, expected);
}

#[test]
fn issuing_twice_is_deterministic() {
    let service = service_with_acme();
    let issue = || {
        service
            .issue_token(
                ExternalIdentityProvider::from("acme".to_string()),
                ExternalToken::from("good-token".to_string()),
                NOW,
            )
            .expect("issuance succeeds")
    };
    assert_eq!(issue(), issue());
}

#[test]
fn rejected_token_fails_with_unauthorized() {
    let service = service_with_acme();
    let r = service.issue_token(
        ExternalIdentityProvider::from("acme".to_string()),
        ExternalToken::from("bad-token".to_string()),
        NOW,
    );
    assert_eq!(r.expect_err("token is rejected"), IssuanceError::Unauthorized);
}

#[test]
fn provider_lookup_is_case_insensitive() {
    let service = service_with_acme();
    let token = service.issue_token(
        ExternalIdentityProvider::from("ACME".to_string()),
        ExternalToken::from("good-token".to_string()),
        NOW,
    );
    assert!(token.is_ok());
}

#[test]
fn missing_attached_policy_fails_with_policy_not_found() {
    let mut service = service_with_acme();
    service
        .policy_repository
        .delete("p1".to_string())
        .expect("delete succeeds");
    let r = service.issue_token(
        ExternalIdentityProvider::from("acme".to_string()),
        ExternalToken::from("good-token".to_string()),
        NOW,
    );
    assert_eq!(r.expect_err("policy is missing"), IssuanceError::PolicyNotFound);
}

#[test]
fn identity_without_attachment_gets_empty_policy_token() {
    let mut validators = new();
    validators
        .put(
            ExternalIdentityProvider::from("acme".to_string()),
            acme_validator(),
        )
        .expect("put succeeds");
    let service = TokenService::new(
        validators,
        PolicyStore::new(),
        PolicyAttachmentStore::new(),
        SECRET.to_vec(),
    );
    let token = service
        .issue_token(
            ExternalIdentityProvider::from("acme".to_string()),
            ExternalToken::from("good-token".to_string()),
            NOW,
        )
        .expect("an identity with no attachment is still issued a token");
    let claims = payload_json(token.as_str());
    let policy_claim = claims["boxer.sneaksanddata.com/policy"]
        .as_str()
        .expect("policy claim is a string");
    assert_eq!(decode_policy_claim(policy_claim).expect("decodes"), "");
}

#[test]
fn later_put_replaces_validator() {
    let mut validators = new();
    let provider = || ExternalIdentityProvider::from("acme".to_string());
    validators
        .put(provider(), acme_validator())
        .expect("put succeeds");
    validators
        .put(
            provider(),
            SingleUserValidator {
                accepted_token: "other-token".to_string(),
                user_id: "bob".to_string(),
                provider_name: "acme".to_string(),
            },
        )
        .expect("put succeeds");
    let current = validators.get(&provider()).expect("validator installed");
    assert!(current
        .validate(ExternalToken::from("other-token".to_string()))
        .is_ok());
    assert!(current
        .validate(ExternalToken::from("good-token".to_string()))
        .is_err());
}
