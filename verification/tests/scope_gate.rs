use plexus_auth_core::{MethodPath, Scope, ScopeRegistry};
use plexus_core::auth::AuthContext;
use plexus_core::json::Json;
use plexus_core::plexus::error::{AuthzDenyReason, PlexusError};
use plexus_core::plexus::scope_gate::{enforce, AuditDecision, MethodGateInfo};

fn somebody(roles: Vec<&str>) -> AuthContext {
    AuthContext::new("u1".into(), "s1".into(), roles.into_iter().map(String::from).collect(), Json::Null)
}

fn info(public: bool, scopes: Vec<&str>) -> MethodGateInfo {
    MethodGateInfo { public, scopes: scopes.into_iter().map(String::from).collect() }
}

fn missing(outcome: Result<(), PlexusError>) -> String {
    match outcome {
        Err(PlexusError::Forbidden { reason: AuthzDenyReason::MissingScope { scope } }) => scope,
        _ => panic!("expected a missing scope"),
    }
}

#[test]
fn a_public_method_is_open_to_nobody_in_particular() {
    let registry = ScopeRegistry::default();
    for deny in [false, true] {
        let v = enforce(&registry, deny, "a.b", Some(&info(true, vec!["x.y"])), None);
        assert!(v.outcome.is_ok());
        let audit = v.audit.unwrap();
        assert_eq!(audit.decision, AuditDecision::Allow);
        assert!(audit.scope_required.is_empty());
        assert_eq!(audit.originator, None);
    }
    let declared = ScopeRegistry::builder().public_method(MethodPath::try_new("a.b").unwrap()).build().unwrap();
    assert!(enforce(&declared, true, "a.b", None, None).outcome.is_ok());
    assert!(enforce(&declared, true, "a.c", None, None).outcome.is_err());
}

#[test]
fn what_declares_nothing_passes_unless_denied() {
    let registry = ScopeRegistry::default();
    let v = enforce(&registry, false, "a.b", None, None);
    assert!(v.outcome.is_ok());
    assert!(v.audit.is_none());
    assert_eq!(missing(enforce(&registry, true, "a.b", None, Some(&somebody(vec![]))).outcome), "a.b");
}

#[test]
fn a_name_outside_the_grammar_fails_closed() {
    let registry = ScopeRegistry::default();
    for name in ["nodots", "A.b", "a..b", ""] {
        let v = enforce(&registry, false, name, None, None);
        assert!(v.outcome.is_ok());
        assert!(v.audit.is_none());
        let v = enforce(&registry, true, name, None, Some(&somebody(vec![])));
        assert!(v.audit.is_none());
        assert_eq!(missing(v.outcome), name);
    }
}

#[test]
fn signing_in_comes_before_scopes() {
    let registry = ScopeRegistry::default();
    let demands = info(false, vec!["x.y"]);
    let nobody = AuthContext::anonymous();
    for auth in [None, Some(&nobody)] {
        let v = enforce(&registry, false, "a.b", Some(&demands), auth);
        match v.outcome {
            Err(PlexusError::Unauthenticated(m)) => assert_eq!(m, "method 'a.b' requires authentication"),
            _ => panic!("expected Unauthenticated"),
        }
        let audit = v.audit.unwrap();
        assert_eq!(audit.decision, AuditDecision::DenyUnauthenticated);
        assert_eq!(audit.scope_required, vec!["x.y"]);
        assert_eq!(audit.session_id, None);
    }
}

#[test]
fn a_refusal_names_the_first_missing_scope() {
    let registry = ScopeRegistry::builder().role("half", &["x.*"]).build().unwrap();
    let demands = info(false, vec!["x.y", "z.a", "z.b"]);
    let v = enforce(&registry, false, "a.b", Some(&demands), Some(&somebody(vec!["half"])));
    let audit = v.audit.unwrap();
    assert_eq!(audit.decision, AuditDecision::DenyMissingScope);
    assert_eq!(audit.originator, Some("u1".to_string()));
    assert_eq!(audit.session_id, Some("s1".to_string()));
    assert_eq!(audit.roles, vec!["half"]);
    assert_eq!(missing(v.outcome), "z.a");
}

#[test]
fn a_deployment_overrules_the_schema() {
    let registry = ScopeRegistry::builder()
        .role("ops", &["ops.run"])
        .method_scopes(MethodPath::try_new("a.b").unwrap(), &[Scope::new("ops.run")])
        .build()
        .unwrap();
    let demands = info(false, vec!["x.y"]);
    let v = enforce(&registry, false, "a.b", Some(&demands), Some(&somebody(vec!["ops"])));
    assert!(v.outcome.is_ok());
    assert_eq!(v.audit.unwrap().scope_required, vec!["ops.run"]);
}

#[test]
fn more_roles_reach_no_less() {
    let registry = ScopeRegistry::builder().role("one", &["x.y"]).role("all", &["*"]).build().unwrap();
    let demands = info(false, vec!["x.y", "z.a"]);
    let reaches = |roles: Vec<&str>| {
        enforce(&registry, false, "a.b", Some(&demands), Some(&somebody(roles))).outcome.is_ok()
    };
    assert!(!reaches(vec![]));
    assert!(!reaches(vec!["one"]));
    assert!(!reaches(vec!["unknown"]));
    assert!(reaches(vec!["all"]));
    assert!(reaches(vec!["one", "all"]));
}
