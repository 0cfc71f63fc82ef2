use plexus_auth_core::{Anonymous, ForwardPolicy, IdentityOnly, PassThrough};
use plexus_core::plexus::forward_registry::ForwardPolicyRegistry;
use std::sync::Arc;

type Registry = ForwardPolicyRegistry<Arc<dyn ForwardPolicy>>;

#[test]
fn empty_registry_returns_none_for_any_key() {
    let r: Registry = ForwardPolicyRegistry::new();
    assert!(r.is_empty());
    assert!(r.get("solar").is_none());
    assert!(r.get("nonexistent").is_none());
}

#[test]
fn register_then_lookup_returns_arc() {
    let mut r: Registry = ForwardPolicyRegistry::new();
    r.register("solar".into(), Arc::new(PassThrough));
    r.register("echo".into(), Arc::new(Anonymous));
    assert_eq!(r.len(), 2);
    assert_eq!(r.get("solar").unwrap().name().as_str(), "pass_through");
    assert_eq!(r.get("echo").unwrap().name().as_str(), "anonymous");
    assert!(r.get("missing").is_none());
}

#[test]
fn register_replaces_existing_entry() {
    let mut r: Registry = ForwardPolicyRegistry::new();
    r.register("solar".into(), Arc::new(IdentityOnly));
    r.register("solar".into(), Arc::new(PassThrough));
    assert_eq!(r.len(), 1);
    assert_eq!(r.get("solar").unwrap().name().as_str(), "pass_through");
}

#[test]
fn default_is_empty() {
    let r: Registry = ForwardPolicyRegistry::default();
    assert!(r.is_empty());
}

#[test]
fn debug_lists_keys_alphabetically() {
    let mut r: Registry = ForwardPolicyRegistry::new();
    r.register("solar".into(), Arc::new(PassThrough));
    r.register("echo".into(), Arc::new(Anonymous));
    let dbg = format!("{:?}", r.callees());
    assert!(dbg.contains("echo"));
    assert!(dbg.contains("solar"));
    let echo_pos = dbg.find("echo").unwrap();
    let solar_pos = dbg.find("solar").unwrap();
    assert!(echo_pos < solar_pos);
    assert_eq!(r.callees(), vec!["echo", "solar"]);
}
