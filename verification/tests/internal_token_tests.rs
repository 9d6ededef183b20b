use boxer_issuer::codec::decode_policy_claim;
use boxer_issuer::identity::Policy;
use boxer_issuer::internal_token::InternalToken;

#[test]
fn internal_token_new_records_current_schema() {
    let t = InternalToken::new(
        Policy::new("allow: *".to_string()),
        "alice".to_string(),
        "acme".to_string(),
    );
    assert_eq!(t.version, "v1");
    assert_eq!(t.policy.content, "allow: *");
    assert_eq!(t.metadata.user_id, "alice");
    assert_eq!(t.metadata.identity_provider.name(), "acme");
}

#[test]
fn to_claims_builds_namespaced_claims_with_one_hour_expiry() {
    let now: u64 = 1_700_000_000;
    let t = InternalToken::new(
        Policy::new("allow: a\nallow: b".to_string()),
        "alice".to_string(),
        "acme".to_string(),
    );
    let claims = t.to_claims(now);

    assert_eq!(claims.issuer, "boxer.sneaksanddata.com");
    assert_eq!(claims.audience, "boxer.sneaksanddata.com");
    assert_eq!(claims.expiration, now + 3600);

    let names: Vec<&str> = claims.private.iter().map(|p| p.0.as_str()).collect();
    assert_eq!(
        names,
        vec![
            "boxer.sneaksanddata.com/api-version",
            "boxer.sneaksanddata.com/policy",
            "boxer.sneaksanddata.com/user-id",
            "boxer.sneaksanddata.com/identity-provider",
        ]
    );
    assert_eq!(claims.private[0].1, "v1");
    assert_eq!(
        decode_policy_claim(claims.private[1].1.as_str()).expect("policy claim decodes"),
        "allow: a\nallow: b"
    );
    assert_eq!(claims.private[2].1, "alice");
    assert_eq!(claims.private[3].1, "acme");
}

#[test]
fn to_claims_clamps_expiry_near_the_maximum() {
    let t = InternalToken::new(
        Policy::empty(),
        "alice".to_string(),
        "acme".to_string(),
    );
    let claims = t.to_claims(u64::MAX - 10);
    assert_eq!(claims.expiration, u64::MAX);
}
