use boxer_issuer::identity::{ExternalIdentity, Policy, PolicyAttachment};

#[test]
fn identity_new_lowercases_both_fields() {
    let id = ExternalIdentity::new("ACME".to_string(), "Alice".to_string());
    assert_eq!(id.identity_provider, "acme");
    assert_eq!(id.user_id, "alice");
}

#[test]
fn identity_case_variants_are_equal() {
    let a = ExternalIdentity::new("Acme".to_string(), "ALICE".to_string());
    let b = ExternalIdentity::new("aCmE".to_string(), "alice".to_string());
    assert_eq!(a, b);
}

#[test]
fn identity_different_users_differ() {
    let a = ExternalIdentity::new("acme".to_string(), "alice".to_string());
    let b = ExternalIdentity::new("acme".to_string(), "bob".to_string());
    assert!(a != b);
}

#[test]
fn attachment_new_drops_duplicates() {
    let a = PolicyAttachment::new(vec![
        "p1".to_string(),
        "p2".to_string(),
        "p1".to_string(),
    ]);
    assert_eq!(a.policies, vec!["p1".to_string(), "p2".to_string()]);
}

#[test]
fn attachment_single_holds_one_id() {
    let a = PolicyAttachment::single("p1".to_string());
    assert_eq!(a.policies, vec!["p1".to_string()]);
}

#[test]
fn attachment_union_is_additive_and_ordered() {
    let a = PolicyAttachment::new(vec!["p1".to_string(), "p2".to_string()]);
    let b = PolicyAttachment::new(vec!["p2".to_string(), "p3".to_string()]);
    let u = a.union(&b);
    assert_eq!(
        u.policies,
        vec!["p1".to_string(), "p2".to_string(), "p3".to_string()]
    );
}

#[test]
fn attachment_union_with_itself_is_identity() {
    let a = PolicyAttachment::new(vec!["p1".to_string(), "p2".to_string()]);
    let u = a.union(&a);
    assert_eq!(u.policies, a.policies);
}

#[test]
fn policy_merge_concatenates_with_newline() {
    let a = Policy::new("allow: a".to_string());
    let b = Policy::new("allow: b".to_string());
    assert_eq!(a.merge(b).content, "allow: a\nallow: b");
}

#[test]
fn policy_merge_from_empty_adds_no_separator() {
    let b = Policy::new("allow: *".to_string());
    assert_eq!(Policy::empty().merge(b).content, "allow: *");
}

#[test]
fn policy_empty_has_empty_content() {
    assert_eq!(Policy::empty().content, "");
}
