use boxer_issuer::identity::{ExternalIdentity, Policy, PolicyAttachment};
use boxer_issuer::policy_repository::{InMemoryPolicyRepository, PolicyRepository};
use boxer_issuer::stores::{IdentityStore, PolicyAttachmentStore, PolicyStore, UpsertRepository};

#[test]
fn policy_store_upsert_then_get() {
    let mut store = PolicyStore::new();
    store
        .upsert("p1".to_string(), Policy::new("allow: a".to_string()))
        .expect("upsert succeeds");
    let p = store.get("p1".to_string()).expect("policy is present");
    assert_eq!(p.content, "allow: a");
}

#[test]
fn policy_store_get_missing_fails() {
    let store = PolicyStore::new();
    assert!(store.get("nope".to_string()).is_err());
}

#[test]
fn policy_store_upsert_replaces_wholesale() {
    let mut store = PolicyStore::new();
    store
        .upsert("p1".to_string(), Policy::new("old".to_string()))
        .expect("upsert succeeds");
    store
        .upsert("p1".to_string(), Policy::new("new".to_string()))
        .expect("upsert succeeds");
    assert_eq!(store.get("p1".to_string()).expect("present").content, "new");
}

#[test]
fn policy_store_delete_removes_and_tolerates_absent() {
    let mut store = PolicyStore::new();
    store
        .upsert("p1".to_string(), Policy::new("x".to_string()))
        .expect("upsert succeeds");
    store.delete("p1".to_string()).expect("delete succeeds");
    assert!(store.get("p1".to_string()).is_err());
    store.delete("p1".to_string()).expect("absent delete succeeds");
}

fn alice() -> ExternalIdentity {
    ExternalIdentity::new("acme".to_string(), "alice".to_string())
}

#[test]
fn attachment_store_upsert_unions_sets() {
    let mut store = PolicyAttachmentStore::new();
    let a = PolicyAttachment::new(vec!["p1".to_string(), "p2".to_string()]);
    let b = PolicyAttachment::new(vec!["p2".to_string(), "p3".to_string()]);
    store.upsert(alice(), a).expect("upsert succeeds");
    store.upsert(alice(), b).expect("upsert succeeds");
    let got = store.get(alice()).expect("attachment present");
    assert_eq!(
        got.policies,
        vec!["p1".to_string(), "p2".to_string(), "p3".to_string()]
    );
}

#[test]
fn attachment_store_repeated_upsert_is_idempotent() {
    let mut store = PolicyAttachmentStore::new();
    let a = PolicyAttachment::new(vec!["p1".to_string(), "p2".to_string()]);
    store.upsert(alice(), a.clone()).expect("upsert succeeds");
    store.upsert(alice(), a).expect("upsert succeeds");
    let got = store.get(alice()).expect("attachment present");
    assert_eq!(got.policies, vec!["p1".to_string(), "p2".to_string()]);
}

#[test]
fn attachment_store_delete_removes_whole_record() {
    let mut store = PolicyAttachmentStore::new();
    store
        .upsert(alice(), PolicyAttachment::single("p1".to_string()))
        .expect("upsert succeeds");
    store.delete(alice()).expect("delete succeeds");
    assert!(store.get(alice()).is_err());
}

#[test]
fn attachment_store_keys_are_case_insensitive() {
    let mut store = PolicyAttachmentStore::new();
    store
        .upsert(
            ExternalIdentity::new("ACME".to_string(), "Alice".to_string()),
            PolicyAttachment::single("p1".to_string()),
        )
        .expect("upsert succeeds");
    let got = store.get(alice()).expect("attachment present");
    assert_eq!(got.policies, vec!["p1".to_string()]);
}

#[test]
fn identity_store_upsert_get_delete() {
    let mut store = IdentityStore::new();
    let key = ("acme".to_string(), "alice".to_string());
    store
        .upsert(key.clone(), ExternalIdentity::new(key.0.clone(), key.1.clone()))
        .expect("upsert succeeds");
    let got = store.get(key.clone()).expect("identity present");
    assert_eq!(got, alice());
    store.delete(key.clone()).expect("delete succeeds");
    assert!(store.get(key).is_err());
}

#[test]
fn in_memory_policy_repository_holds_placeholder() {
    let repo = InMemoryPolicyRepository::new();
    let placeholder = ExternalIdentity::new("user@example.com".to_string(), "provider".to_string());
    assert_eq!(repo.get_policy(&placeholder).expect("record present"), "");
    let missing = ExternalIdentity::new("acme".to_string(), "alice".to_string());
    assert!(repo.get_policy(&missing).is_err());
}
