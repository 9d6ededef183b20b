use boxer_issuer::external_identity_validator::{
    extract_user_id, ClaimValue, DynamicClaimsCollection,
};

fn claims(entries: Vec<(&str, ClaimValue)>) -> DynamicClaimsCollection {
    DynamicClaimsCollection {
        entries: entries
            .into_iter()
            .map(|(name, value)| (name.to_string(), value))
            .collect(),
    }
}

#[test]
fn extract_user_id_reads_string_claim_and_normalizes() {
    let c = claims(vec![
        ("aud", ClaimValue::Other),
        ("upn", ClaimValue::Text("John.Doe".to_string())),
    ]);
    let id = extract_user_id(&c, "upn", "Contoso".to_string()).expect("claim is present");
    assert_eq!(id.user_id, "john.doe");
    assert_eq!(id.identity_provider, "contoso");
}

#[test]
fn extract_user_id_misses_absent_claim() {
    let c = claims(vec![("aud", ClaimValue::Other)]);
    assert!(extract_user_id(&c, "upn", "contoso".to_string()).is_none());
}

#[test]
fn extract_user_id_rejects_non_string_claim() {
    let c = claims(vec![("upn", ClaimValue::Other)]);
    assert!(extract_user_id(&c, "upn", "contoso".to_string()).is_none());
}

#[test]
fn extract_user_id_takes_first_matching_claim() {
    let c = claims(vec![
        ("upn", ClaimValue::Text("first".to_string())),
        ("upn", ClaimValue::Text("second".to_string())),
    ]);
    let id = extract_user_id(&c, "upn", "contoso".to_string()).expect("claim is present");
    assert_eq!(id.user_id, "first");
}
