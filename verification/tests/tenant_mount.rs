use plexus_core::ir::{ActivationIr, ChildEdge, StopKind};
use plexus_core::json::Json;
use plexus_core::plexus::error::PlexusError;
use plexus_core::plexus::tenant_mount::{
    mount_segment_is_safe, MountRefusal, MountStep, TenantMount, TenantMountGate, TenantMountMethods,
};

fn mount() -> TenantMount {
    TenantMount::new(ActivationIr::new("tenant".into(), "1.0.0".into()))
}

fn gate(tenant: Option<&str>) -> TenantMountGate {
    TenantMountGate::new(tenant.map(String::from))
}

#[test]
fn segments_that_mean_something_elsewhere_are_unsafe() {
    for bad in ["", "list", "schema", "connectome", ".", "..", "a/b", "a\\b", "a.b", "a:b", "a b", "a\0", "\u{7f}", "a\n"] {
        assert!(!mount_segment_is_safe(bad));
    }
    for good in ["acme", "ACME-1", "t_9", "caf\u{e9}", "lists"] {
        assert!(mount_segment_is_safe(good));
    }
    assert!(mount_segment_is_safe(&"a".repeat(256)));
    assert!(!mount_segment_is_safe(&"a".repeat(257)));
    assert!(!mount_segment_is_safe(&"\u{e9}".repeat(129)));
}

#[test]
fn a_caller_enters_their_own_tenant_only() {
    assert_eq!(gate(Some("acme")).admit_segment("acme").unwrap().id(), "acme");
    assert_eq!(gate(Some("acme")).admit_segment("other").unwrap_err(), MountRefusal::NoSuchTenant);
    assert_eq!(gate(None).admit_segment("acme").unwrap_err(), MountRefusal::Unauthenticated);
    assert_eq!(gate(None).admit_segment("a/b").unwrap_err(), MountRefusal::UnsafeSegment);
    assert_eq!(gate(Some("acme")).admit_segment("..").unwrap_err(), MountRefusal::UnsafeSegment);
    assert_eq!(gate(Some("acme")).caller_tenant(), Some("acme"));
}

#[test]
fn a_refusal_is_a_refused_stop() {
    for r in [MountRefusal::Unauthenticated, MountRefusal::NoSuchTenant, MountRefusal::UnsafeSegment] {
        let stop = r.stop_reason();
        assert_eq!(stop.kind(), StopKind::Refused);
        assert!(stop.error().is_none());
        assert_eq!(stop.detail().unwrap().code, r.code());
    }
    assert_eq!(MountRefusal::Unauthenticated.code(), "tenant_mount:unauthenticated");
    assert_eq!(MountRefusal::NoSuchTenant.code(), "tenant_mount:no_such_tenant");
    assert_eq!(MountRefusal::UnsafeSegment.code(), "tenant_mount:unsafe_segment");
}

#[test]
fn refusals_have_their_hub_errors() {
    assert_eq!(
        PlexusError::from(MountRefusal::Unauthenticated),
        PlexusError::Unauthenticated("tenant_mount:unauthenticated".into())
    );
    assert_eq!(
        PlexusError::from(MountRefusal::NoSuchTenant),
        PlexusError::MethodNotFound { activation: "tenants".into(), method: "tenant_mount:no_such_tenant".into() }
    );
    match PlexusError::from(MountRefusal::UnsafeSegment) {
        PlexusError::InvalidParams(m) => assert!(m.starts_with("tenant_mount:unsafe_segment: ")),
        _ => panic!("expected InvalidParams"),
    }
}

#[test]
fn another_tenant_is_answered_like_none() {
    let m = mount();
    let cross = m.dispatch("other.echo.say", &gate(Some("acme"))).err().unwrap();
    let missing = m.entered(false).unwrap_err();
    assert_eq!(cross, missing);
    assert!(m.entered(true).is_ok());
}

#[test]
fn calls_are_dispatched_by_tenant() {
    let m = mount();
    assert!(matches!(m.dispatch("list", &gate(None)), Ok(MountStep::List)));
    match m.dispatch("acme.echo.say", &gate(Some("acme"))) {
        Ok(MountStep::Enter { tenant, rest }) => {
            assert_eq!(tenant.id(), "acme");
            assert_eq!(rest, "echo.say");
        }
        _ => panic!("expected to enter"),
    }
    match m.dispatch("acme", &gate(Some("acme"))) {
        Err(PlexusError::MethodNotFound { activation, method }) => {
            assert_eq!(activation, "tenants");
            assert_eq!(
                method,
                "acme: a tenant mount is addressed as 'tenants.<tenant>.<activation>.<method>'"
            );
        }
        _ => panic!("expected MethodNotFound"),
    }
    assert!(m.dispatch("acme.echo.say", &gate(None)).is_err());
}

#[test]
fn a_listing_shows_the_own_tenant_only() {
    let listing = mount().list(&gate(Some("acme")));
    match listing.get("tenants") {
        Some(Json::Array(items)) => {
            assert_eq!(items.len(), 1);
            assert_eq!(items[0].get("tenant_id"), Some(&Json::Text("acme".into())));
        }
        _ => panic!("expected a list"),
    }
    assert_eq!(mount().list(&gate(None)).get("tenants"), Some(&Json::Array(vec![])));
}

#[test]
fn the_mount_shows_as_an_indexed_edge() {
    match mount().indexed_edge() {
        ChildEdge::Indexed { namespace, list_method, search_method, id_field, path_template, template, .. } => {
            assert_eq!(namespace, "tenants");
            assert_eq!(list_method, "tenants.list");
            assert_eq!(search_method, None);
            assert_eq!(id_field, "tenant_id");
            assert_eq!(path_template, "tenants/{id}");
            assert_eq!(template.namespace, "tenant");
        }
        _ => panic!("expected an indexed edge"),
    }
    assert_eq!(mount().method_help("list"), Some("List the tenants the caller belongs to".to_string()));
    assert_eq!(mount().method_help("other"), None);
    assert_eq!(mount().version, "1.0.0");
    assert_eq!(mount().description, "Per-tenant mounts, gated on the caller's resolved tenant");
}

#[test]
fn the_mount_has_one_method_of_its_own() {
    assert_eq!(TenantMountMethods::method_names(), vec!["list"]);
    let schema = TenantMountMethods::schema_with_consts();
    assert_eq!(schema.get("type"), Some(&Json::Text("object".into())));
    assert_eq!(
        schema.get("properties").unwrap().get("method").unwrap().get("const"),
        Some(&Json::Text("list".into()))
    );
}

#[test]
fn tenants_are_what_the_tenant_type_accepts() {
    for s in ["acme", "t-1", "caf\u{e9}"] {
        assert!(plexus_auth_core::TenantId::try_new(s).is_ok());
        assert!(gate(Some(s)).admit_segment(s).is_ok());
    }
}

#[test]
fn an_unsafe_segment_is_refused_whoever_calls() {
    for caller in [None, Some("acme")] {
        match mount().dispatch("a/b.health.check", &gate(caller)) {
            Err(PlexusError::InvalidParams(m)) => assert!(m.starts_with("tenant_mount:unsafe_segment: ")),
            _ => panic!("expected InvalidParams"),
        }
    }
}
