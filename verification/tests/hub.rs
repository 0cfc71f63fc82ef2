use plexus_core::auth::AuthContext;
use plexus_core::ir::{ActivationIr, ChildEdge, MethodIr};
use plexus_core::json::Json;
use plexus_core::plexus::capabilities::{AuthMechanism, BackendAuthCapabilities};
use plexus_core::plexus::credential_envelope::AttachmentSite;
use plexus_core::plexus::error::{plexus_error_code, AuthzDenyReason, PlexusError};
use plexus_core::plexus::hub::{ActivationRecord, ChildCapabilities, DynamicHub, HashEvent, PLEXUS_NOTIF_METHOD};
use plexus_core::plexus::registry::{plugin_id, PluginRegistry};
use plexus_core::plexus::routing::{
    fill_site_hints_in_item, hub_dropped, is_schema_content, route_to_child, schema_content, ChildStep, Destination,
};
use plexus_core::plexus::rpc::{
    call_error_item, child_names_stream, connectome_error_item, error_item, register_child_capability_methods,
    respond_reply, Answer, ConnectomeAnswer, Delivered,
};
use plexus_core::plexus::schema::{MethodHelp, MethodSchema, PluginSchema, RequiredCredential, Schema, SchemaResult};
use plexus_core::plexus::scope_gate::AuditDecision;
use plexus_core::plexus::streaming::{PlexusStreamItem, StreamMetadata};
use plexus_auth_core::{
    AuthMechanism as Mechanism, BackendAuthCapabilities as Capabilities, CookieName, HeaderName, MethodPath, Scope,
    ScopeRegistry,
};

type Hub = DynamicHub<()>;

fn help(name: &str, text: &str) -> MethodHelp {
    MethodHelp { name: name.into(), help: Some(text.into()) }
}

fn record(namespace: &str, version: &str, methods: Vec<MethodHelp>) -> ActivationRecord {
    match ActivationRecord::described(
        namespace.into(),
        version.into(),
        "an activation".into(),
        None,
        methods,
        Schema::object(),
    ) {
        Ok(r) => r,
        Err(_) => panic!("names clash"),
    }
}

fn health() -> ActivationRecord {
    record("health", "1.0.0", vec![help("check", "Check the health")])
}

fn echo() -> ActivationRecord {
    record("echo", "1.2.0", vec![help("echo", "Echo a message"), help("once", "Echo once")])
}

fn somebody(roles: Vec<&str>) -> AuthContext {
    AuthContext::new("u1".into(), "s1".into(), roles.into_iter().map(String::from).collect(), Json::Null)
}

#[test]
fn dynamic_hub_methods() {
    let hub = Hub::new("test".into());
    let methods = hub.methods();
    assert!(methods.contains(&"call".to_string()));
    assert!(methods.contains(&"hash".to_string()));
    assert!(methods.contains(&"schema".to_string()));
}

#[test]
fn dynamic_hub_hash_stable() {
    let h1 = Hub::new("test".into());
    let h2 = Hub::new("test".into());
    assert_eq!(h1.compute_hash(), h2.compute_hash());
}

#[test]
fn dynamic_hub_is_hub() {
    let hub = Hub::new("test".into()).register(health());
    let schema = hub.plugin_schema();
    assert!(schema.is_hub());
    assert!(!schema.is_leaf());
    let children = schema.children.unwrap();
    assert!(!children.is_empty());
    let health = children.iter().find(|c| c.namespace == "health").unwrap();
    assert!(!health.hash.is_empty());
}

#[test]
fn dynamic_hub_shadow_error_names_collision_and_fix() {
    let hub = Hub::new("health".into());
    let msg = hub.root_shadow("health").unwrap();
    assert!(msg.contains("'health'"));
    assert!(msg.contains("hub root namespace"));
    assert!(msg.contains("rename the hub root"));
    assert!(msg.contains("Z2H-8"));
    assert!(msg.contains("activation namespace 'health' collides with the hub root namespace 'health'"));
    assert!(hub.root_shadow("echo").is_none());
}

#[test]
fn dynamic_hub_non_colliding_registration_unaffected() {
    let hub = Hub::new("health_hub".into()).register(health());
    assert_eq!(hub.runtime_namespace(), "health_hub");
    let schema = hub.plugin_schema();
    let children = schema.children.unwrap();
    assert!(children.iter().any(|c| c.namespace == "health"));
    assert!(hub.list_methods().iter().any(|m| m.starts_with("health.")));
}

#[test]
fn dynamic_hub_schema_structure() {
    let hub = Hub::new("test".into()).register(health());
    let schema = hub.plugin_schema();
    assert_eq!(schema.namespace, "test");
    assert!(schema.methods.iter().any(|m| m.name == "call"));
    assert!(schema.children.is_some());
}

#[test]
fn the_order_of_registration_does_not_show() {
    let a = Hub::new("test".into()).register(health()).register(echo());
    let b = Hub::new("test".into()).register(echo()).register(health());
    assert_eq!(a.compute_hash(), b.compute_hash());
    assert_eq!(a.list_methods(), b.list_methods());
    let names: Vec<String> = a.plugin_children().into_iter().map(|c| c.namespace).collect();
    assert_eq!(names, vec!["echo", "health"]);
    assert_eq!(
        a.list_methods(),
        vec![
            "echo.echo",
            "echo.once",
            "health.check",
            "test.call",
            "test.hash",
            "test.hashes",
            "test.schema"
        ]
    );
}

#[test]
fn registering_moves_the_hash() {
    let bare = Hub::new("test".into());
    let full = Hub::new("test".into()).register(health());
    assert_ne!(bare.compute_hash(), full.compute_hash());
    let HashEvent::Hash { value } = full.hash();
    assert_eq!(value, full.compute_hash());
    let hashes = full.hashes();
    assert_eq!(hashes.hash, full.compute_hash());
    assert_eq!(hashes.children.unwrap()[0].namespace, "health");
    assert_eq!(hashes.namespace, "test");
}

#[test]
fn listings_start_with_the_hub_itself() {
    let hub = Hub::new("app".into()).register(health()).register(echo());
    let infos = hub.list_activations_info();
    let names: Vec<&str> = infos.iter().map(|i| i.namespace.as_str()).collect();
    assert_eq!(names, vec!["app", "echo", "health"]);
    assert_eq!(infos[0].version, "1.0.0");
    assert_eq!(infos[0].description, "Central routing and introspection");
    assert_eq!(infos[1].methods, vec!["echo", "once"]);
    for schemas in [hub.list_plugin_schemas(), hub.list_full_schemas()] {
        let names: Vec<&str> = schemas.iter().map(|s| s.namespace.as_str()).collect();
        assert_eq!(names, vec!["app", "echo", "health"]);
        let methods: Vec<&str> = schemas[1].methods.iter().map(|m| m.name.as_str()).collect();
        assert_eq!(methods, vec!["echo", "once"]);
        assert_eq!(schemas[1].to_json(), echo().plugin_schema.to_json());
        assert_eq!(schemas[2].to_json(), health().plugin_schema.to_json());
    }
}

#[test]
fn the_parameters_of_a_call_are_described() {
    let own = Hub::new("app".into()).plugin_schema();
    assert_eq!(own.methods[0].name, "call");
    let params = own.methods[0].params.as_ref().unwrap();
    assert_eq!(params.get("type"), Some(&Json::Text("object".into())));
    assert_eq!(params.get("required"), Some(&Json::Array(vec![Json::Text("method".into())])));
    let properties = params.get("properties").unwrap();
    let method = properties.get("method").unwrap();
    assert_eq!(method.get("type"), Some(&Json::Text("string".into())));
    assert_eq!(
        method.get("description"),
        Some(&Json::Text("The method to call (format: namespace.method)".into()))
    );
    let passed = properties.get("params").unwrap();
    assert_eq!(passed.get("type"), None);
    assert_eq!(
        passed.get("description"),
        Some(&Json::Text("Parameters to pass to the method (optional, defaults to {})".into()))
    );
    assert!(own.methods[1..].iter().all(|m| m.params.is_none()));
}

#[test]
fn invariant_resolve_handle_unknown_activation() {
    let hub = Hub::new("test".into()).register(health());
    let unknown = uuid::Uuid::new_v4();
    match hub.do_resolve_handle(unknown.as_u128()) {
        Err(PlexusError::ActivationNotFound(name)) => assert_eq!(name, unknown.to_string()),
        _ => panic!("expected ActivationNotFound"),
    }
}

#[test]
fn invariant_resolve_handle_unsupported() {
    let hub = Hub::new("test".into()).register(health());
    let found = hub.do_resolve_handle(plugin_id("health", "1.0.0")).unwrap();
    match found.resolve_handle() {
        PlexusError::HandleNotSupported(name) => assert_eq!(name, "health"),
        _ => panic!("expected HandleNotSupported"),
    }
}

#[test]
fn invariant_resolve_handle_routes_by_plugin_id() {
    let health = health();
    let echo = echo();
    let (health_id, echo_id) = (health.plugin_id, echo.plugin_id);
    let hub = Hub::new("test".into()).register(health).register(echo);
    assert_eq!(hub.do_resolve_handle(health_id).unwrap().namespace, "health");
    assert_eq!(hub.do_resolve_handle(echo_id).unwrap().namespace, "echo");
    assert!(matches!(
        hub.do_resolve_handle(uuid::Uuid::new_v4().as_u128()),
        Err(PlexusError::ActivationNotFound(_))
    ));
}

#[test]
fn invariant_handle_plugin_id_determines_routing() {
    assert_ne!(health().plugin_id, echo().plugin_id);
}

#[test]
fn plugin_registry_basic_operations() {
    let mut registry = PluginRegistry::new();
    let id = uuid::Uuid::new_v4().as_u128();
    registry.register(id, "test_plugin".to_string(), "test".to_string());
    assert_eq!(registry.lookup(id), Some("test_plugin"));
    assert_eq!(registry.lookup_by_path("test_plugin"), Some(id));
    let entry = registry.get(id).unwrap();
    assert_eq!(entry.path, "test_plugin");
    assert_eq!(entry.plugin_type, "test");
}

#[test]
fn plugin_registry_populated_on_register() {
    let hub = Hub::new("test".into()).register(health());
    let registry = hub.registry();
    assert!(!registry.is_empty());
    let health_id = registry.lookup_by_path("health");
    assert!(health_id.is_some());
    assert_eq!(registry.lookup(health_id.unwrap()), Some("health"));
}

#[test]
fn plugin_registry_deterministic_uuid() {
    assert_eq!(health().plugin_id, health().plugin_id);
    let expected = uuid::Uuid::new_v5(&uuid::Uuid::NAMESPACE_OID, b"health@1");
    assert_eq!(health().plugin_id, expected.as_u128());
}

#[test]
fn an_identifier_survives_a_minor_version() {
    assert_eq!(plugin_id("a", "1.0.0"), plugin_id("a", "1.9.3"));
    assert_ne!(plugin_id("a", "1.0.0"), plugin_id("a", "2.0.0"));
    assert_eq!(plugin_id("a", ""), uuid::Uuid::new_v5(&uuid::Uuid::NAMESPACE_OID, b"a@").as_u128());
}

#[test]
fn a_snapshot_outlives_its_registry() {
    let hub = Hub::new("test".into()).register(health()).register(echo());
    let snapshot = hub.registry_snapshot();
    let id = hub.lookup_plugin_by_path("echo").unwrap();
    assert_eq!(hub.lookup_plugin(id), Some("echo".to_string()));
    drop(hub);
    assert_eq!(snapshot.len(), 2);
    assert!(!snapshot.is_empty());
    assert_eq!(snapshot.lookup(id), Some("echo"));
    assert_eq!(snapshot.lookup_by_path("echo"), Some(id));
    assert_eq!(snapshot.get(id).unwrap().plugin_type, "echo");
    assert_eq!(snapshot.list().len(), 2);
}

#[test]
fn a_call_goes_where_its_namespace_says() {
    let hub = Hub::new("app".into()).register(health());
    match hub.route("health.check", None).target {
        Ok(Destination::Activation { record, method }) => {
            assert_eq!(record.namespace, "health");
            assert_eq!(method, "check");
        }
        _ => panic!("expected the activation"),
    }
    assert!(matches!(hub.route("app.hash", None).target, Ok(Destination::Own { method: "hash" })));
    match hub.route("health.sub.check", None).target {
        Ok(Destination::Activation { method, .. }) => assert_eq!(method, "sub.check"),
        _ => panic!("expected the activation"),
    }
    match hub.route("nobody.check", None).target {
        Err(PlexusError::ActivationNotFound(ns)) => assert_eq!(ns, "nobody"),
        _ => panic!("expected ActivationNotFound"),
    }
    match hub.route("check", None).target {
        Err(PlexusError::InvalidParams(m)) => assert_eq!(m, "Invalid method format: check"),
        _ => panic!("expected InvalidParams"),
    }
    assert!(hub.route("health.check", None).audit.is_none());
}

#[test]
fn help_is_found_by_path() {
    let hub = Hub::new("app".into()).register(health());
    assert_eq!(hub.get_method_help("health.check"), Some("Check the health".to_string()));
    assert_eq!(hub.get_method_help("health.other"), None);
    assert_eq!(hub.get_method_help("nobody.check"), None);
    assert_eq!(hub.get_method_help("check"), None);
    assert!(hub.get_activation_schema("health").is_some());
    assert!(hub.get_activation_schema("nobody").is_none());
}

#[test]
fn a_hub_without_scopes_audits_nothing() {
    let hub = Hub::new("app".into()).register(health());
    let r = hub.route_with_ctx("health.check", Some(&somebody(vec![])));
    assert!(r.target.is_ok());
    assert!(r.audit.is_none());
}

#[test]
fn nothing_undeclared_passes_where_denied() {
    let hub = Hub::new("app".into()).register(health()).with_default_deny(true);
    let r = hub.route_with_ctx("health.check", None);
    match r.target {
        Err(PlexusError::Unauthenticated(m)) => assert_eq!(m, "method 'health.check' requires authentication"),
        _ => panic!("expected Unauthenticated"),
    }
    assert_eq!(r.audit.unwrap().decision, AuditDecision::DenyUnauthenticated);
    let r = hub.route_with_ctx("health.check", Some(&somebody(vec!["reader"])));
    match r.target {
        Err(PlexusError::Forbidden { reason: AuthzDenyReason::MissingScope { scope } }) => {
            assert_eq!(scope, "health.check")
        }
        _ => panic!("expected Forbidden"),
    }
}

#[test]
fn a_role_opens_what_it_grants() {
    let registry = ScopeRegistry::builder()
        .role("reader", &["health.*"])
        .public_method(MethodPath::try_new("echo.echo").unwrap())
        .method_scopes(MethodPath::try_new("echo.once").unwrap(), &[Scope::new("echo.admin")])
        .build()
        .unwrap();
    let hub = Hub::new("app".into())
        .register(health())
        .register(echo())
        .with_default_deny(true)
        .with_scope_registry(registry);
    assert!(hub.scope_registry().is_some());
    let r = hub.route_with_ctx("health.check", Some(&somebody(vec!["reader"])));
    assert!(r.target.is_ok());
    let audit = r.audit.unwrap();
    assert_eq!(audit.decision, AuditDecision::Allow);
    assert_eq!(audit.scope_required, vec!["health.check"]);
    assert_eq!(audit.originator, Some("u1".to_string()));
    assert!(hub.route_with_ctx("echo.echo", None).target.is_ok());
    match hub.route_with_ctx("echo.once", Some(&somebody(vec!["reader"]))).target {
        Err(PlexusError::Forbidden { reason: AuthzDenyReason::MissingScope { scope } }) => {
            assert_eq!(scope, "echo.admin")
        }
        _ => panic!("expected Forbidden"),
    }
}

fn guarded(scope: &str) -> ActivationRecord {
    let mut r = health();
    r.plugin_schema = PluginSchema::leaf(
        "health".into(),
        "1.0.0".into(),
        "an activation".into(),
        vec![MethodSchema::new("check".into(), "d".into(), "h".into())
            .with_requires_credential(RequiredCredential::from_method_scope(scope.into()))],
    );
    r
}

#[test]
fn a_method_declares_its_own_scopes() {
    let hub = Hub::new("app".into()).register(guarded("ops.read")).with_scope_registry(ScopeRegistry::default());
    let r = hub.route_with_ctx("health.check", Some(&somebody(vec![])));
    match r.target {
        Err(PlexusError::Forbidden { reason: AuthzDenyReason::MissingScope { scope } }) => {
            assert_eq!(scope, "ops.read")
        }
        _ => panic!("expected Forbidden"),
    }
    assert_eq!(r.audit.unwrap().decision, AuditDecision::DenyMissingScope);
    assert!(hub.route_with_ctx("app.hash", Some(&somebody(vec![]))).target.is_ok());
}

fn cookies() -> BackendAuthCapabilities {
    BackendAuthCapabilities {
        mechanisms: vec![
            AuthMechanism::Anonymous,
            AuthMechanism::Cookie {
                cookie: "sid".into(),
                login: "auth.login".into(),
                refresh: None,
                logout: Some("auth.logout".into()),
            },
            AuthMechanism::Bearer { header: "x-token".into() },
        ],
        default: Some(2),
    }
}

#[test]
fn schemas_are_given_the_site_of_the_preferred_mechanism() {
    let hub = Hub::new("app".into()).register(guarded("ops.read")).with_auth_capabilities(cookies());
    assert_eq!(hub.derived_site_hint(), Some(AttachmentSite::Header { name: "x-token".into() }));
    assert!(hub.route("health.schema", None).site_hint.is_some());
    assert!(hub.route("health.child.schema", None).site_hint.is_some());
    assert!(hub.route("health.check", None).site_hint.is_none());
    assert!(hub.route("health.schemata", None).site_hint.is_none());
    assert!(hub.route("nobody.schema", None).site_hint.is_none());
    assert!(Hub::new("app".into()).derived_site_hint().is_none());
    assert!(is_schema_content("a.schema"));
    assert!(is_schema_content("a.method_schema"));
    assert!(!is_schema_content("a.connectome"));
    let site = hub.derived_site_hint().unwrap();
    match SchemaResult::Plugin(guarded("ops.read").plugin_schema).fill_site_hints(&site) {
        SchemaResult::Plugin(p) => {
            let hinted = p.methods[0].requires_credential.clone().unwrap();
            assert_eq!(hinted.site_hint, Some(site.clone()));
            let again = SchemaResult::Plugin(p)
                .fill_site_hints(&AttachmentSite::Cookie { name: "other".into() });
            match again {
                SchemaResult::Plugin(q) => {
                    assert_eq!(q.methods[0].requires_credential.clone().unwrap().site_hint, Some(site))
                }
                _ => panic!("expected a plugin"),
            }
        }
        _ => panic!("expected a plugin"),
    }
}

#[test]
fn without_a_preference_the_first_mechanism_with_a_site_counts() {
    let mut caps = cookies();
    caps.default = None;
    assert_eq!(caps.implied_attachment_site(), Some(AttachmentSite::Cookie { name: "sid".into() }));
    caps.default = Some(0);
    assert_eq!(caps.implied_attachment_site(), Some(AttachmentSite::Cookie { name: "sid".into() }));
    caps.default = Some(9);
    assert_eq!(caps.implied_attachment_site(), Some(AttachmentSite::Cookie { name: "sid".into() }));
    assert_eq!(BackendAuthCapabilities::anonymous_default().implied_attachment_site(), None);
    let oidc = AuthMechanism::Oidc {
        issuer: "https://id.example".into(),
        client_id: "c".into(),
        exchange: None,
        request_scopes: vec!["openid".into()],
    };
    assert_eq!(oidc.implied_attachment_site(), Some(AttachmentSite::Header { name: "authorization".into() }));
}

fn outside_json(v: &serde_json::Value) -> Json {
    match v {
        serde_json::Value::Null => Json::Null,
        serde_json::Value::Bool(b) => Json::Bool(*b),
        serde_json::Value::Number(n) => Json::Unsigned(n.as_u64().unwrap()),
        serde_json::Value::String(s) => Json::Text(s.clone()),
        serde_json::Value::Array(a) => Json::Array(a.iter().map(outside_json).collect()),
        serde_json::Value::Object(m) => {
            let mut out: Vec<(String, Json)> = Vec::new();
            for (k, v) in m {
                plexus_core::json::put_entry(&mut out, k, outside_json(v));
            }
            Json::Object(out)
        }
    }
}

#[test]
fn the_info_payload_is_what_the_capability_types_serialize_to() {
    let outside = Capabilities::new(
        vec![
            Mechanism::Anonymous,
            Mechanism::Cookie {
                cookie: CookieName::try_new("sid").unwrap(),
                login: MethodPath::try_new("auth.login").unwrap(),
                refresh: None,
                logout: Some(MethodPath::try_new("auth.logout").unwrap()),
            },
            Mechanism::Bearer { header: HeaderName::try_new("x-token").unwrap() },
        ],
        Some(2),
    )
    .unwrap();
    assert_eq!(cookies().to_json(), outside_json(&serde_json::to_value(&outside).unwrap()));
    assert_eq!(
        cookies().implied_attachment_site().is_some(),
        outside.implied_attachment_site().is_some()
    );
    let bare = Hub::new("app".into());
    let info = bare.info();
    assert_eq!(info.get("backend"), Some(&Json::Text("app".into())));
    assert_eq!(
        info.get("auth_capabilities"),
        Some(&outside_json(&serde_json::to_value(Capabilities::anonymous_default()).unwrap()))
    );
}

#[test]
fn child_router_defaults_report_no_capabilities_and_none_streams() {
    assert_eq!(health().capabilities, ChildCapabilities::empty());
    assert!(ChildCapabilities::empty().is_empty());
}

#[test]
fn child_wire_registers_both_methods_when_both_bits_set() {
    let caps = ChildCapabilities::list().union(ChildCapabilities::search());
    assert!(caps.contains(ChildCapabilities::list()));
    assert!(caps.contains(ChildCapabilities::search()));
    let subs = register_child_capability_methods("fixture", caps);
    let names: Vec<&str> = subs.iter().map(|s| s.name.as_str()).collect();
    assert_eq!(names, vec!["fixture.list_children", "fixture.search_children"]);
    assert_eq!(subs[0].notification, PLEXUS_NOTIF_METHOD);
    assert_eq!(subs[0].unsubscribe, "fixture.list_children_unsub");
}

#[test]
fn child_wire_registers_nothing_when_no_bits_set() {
    assert!(register_child_capability_methods("fixture", ChildCapabilities::empty()).is_empty());
}

#[test]
fn child_wire_registers_only_list_when_only_list_bit() {
    let subs = register_child_capability_methods("fixture", ChildCapabilities::list());
    assert_eq!(subs.len(), 1);
    assert_eq!(subs[0].name, "fixture.list_children");
}

#[test]
fn a_hub_offers_five_subscriptions() {
    let hub = Hub::new("app".into());
    let names: Vec<String> = hub.subscriptions().into_iter().map(|s| s.name).collect();
    assert_eq!(names, vec!["app.call", "app.hash", "app.schema", "app.connectome", "_info"]);
    for s in hub.subscriptions() {
        assert_eq!(s.notification, "result");
        assert_eq!(s.namespace, "app");
        assert_eq!(s.unsubscribe, format!("{}_unsub", s.name));
    }
    let answers: Vec<Answer> = hub.subscriptions().into_iter().map(|s| s.answer).collect();
    assert_eq!(answers, vec![Answer::Call, Answer::Hash, Answer::Schema, Answer::Connectome, Answer::Info]);
    assert_eq!(hub.respond_name(), "app.respond");
}

#[test]
fn errors_go_out_with_their_code() {
    let e = PlexusError::ActivationNotFound("nobody".into());
    match error_item("app", "h".into(), &e) {
        PlexusStreamItem::Error { metadata, message, code, recoverable } => {
            assert_eq!(metadata.provenance, vec!["app"]);
            assert_eq!(metadata.plexus_hash, "h");
            assert_eq!(message, "Activation not found: nobody");
            assert_eq!(code, Some("-32601".to_string()));
            assert!(!recoverable);
        }
        _ => panic!("expected an error"),
    }
    match call_error_item("app", "h".into(), &e) {
        PlexusStreamItem::Error { code, .. } => assert!(code.is_none()),
        _ => panic!("expected an error"),
    }
    assert_eq!(plexus_error_code(&PlexusError::Unauthenticated("x".into())), -32001);
    assert_eq!(
        plexus_error_code(&PlexusError::Forbidden { reason: AuthzDenyReason::NotAccepted }),
        -32003
    );
    assert_eq!(plexus_error_code(&PlexusError::InvalidParams("x".into())), -32602);
    assert_eq!(
        plexus_error_code(&PlexusError::MethodNotFound { activation: "a".into(), method: "b".into() }),
        -32601
    );
    assert_eq!(plexus_error_code(&PlexusError::ExecutionError("x".into())), -32000);
    assert_eq!(plexus_error_code(&hub_dropped()), -32000);
    assert_eq!(hub_dropped().message(), "Execution error: Parent hub has been dropped");
}

#[test]
fn children_are_streamed_by_name() {
    let items = child_names_stream("solar", "h".into(), "list_children", &vec!["a".to_string(), "b".to_string()]);
    assert_eq!(items.len(), 3);
    match &items[1] {
        PlexusStreamItem::Data { content_type, content, .. } => {
            assert_eq!(content_type, "list_children");
            assert_eq!(content, &Json::Text("b".into()));
        }
        _ => panic!("expected data"),
    }
    assert!(matches!(items[2], PlexusStreamItem::Done { .. }));
}

#[test]
fn responses_are_answered() {
    assert_eq!(respond_reply(Delivered::Delivered, "r").unwrap().get("success"), Some(&Json::Bool(true)));
    let (code, message) = respond_reply(Delivered::UnknownRequest, "r7").unwrap_err();
    assert_eq!(code, -32602);
    assert_eq!(message, "Unknown request ID: r7. The request may have timed out or been cancelled.");
    let (code, message) = respond_reply(Delivered::ChannelClosed, "r").unwrap_err();
    assert_eq!(code, -32000);
    assert_eq!(message, "Response channel was closed (request may have timed out)");
    let (code, message) = respond_reply(Delivered::Failed("why".into()), "r").unwrap_err();
    assert_eq!(code, -32000);
    assert_eq!(message, "Failed to deliver response: why");
}

#[test]
fn a_child_is_found_before_it_is_called() {
    match route_to_child("solar", "mercury.info", None) {
        Ok(ChildStep::Find { child }) => assert_eq!(child, "mercury"),
        _ => panic!("expected a search"),
    }
    match route_to_child("solar", "mercury.info", Some(true)) {
        Ok(ChildStep::Call { child, rest, callee }) => {
            assert_eq!((child, rest, callee.as_str()), ("mercury", "info", "mercury.info"));
        }
        _ => panic!("expected a call"),
    }
    match route_to_child("solar", "mercury.info", Some(false)) {
        Err(PlexusError::ActivationNotFound(c)) => assert_eq!(c, "mercury"),
        _ => panic!("expected ActivationNotFound"),
    }
    match route_to_child("solar", "info", None) {
        Err(PlexusError::MethodNotFound { activation, method }) => {
            assert_eq!((activation.as_str(), method.as_str()), ("solar", "info"));
        }
        _ => panic!("expected MethodNotFound"),
    }
    match route_to_child("solar", "Mercury.info", Some(true)) {
        Err(PlexusError::ExecutionError(m)) => assert_eq!(
            m,
            "framework-built MethodPath rejected: Mercury.info (InvalidFormat(\"Mercury.info\"))"
        ),
        _ => panic!("expected ExecutionError"),
    }
}

#[test]
fn a_policy_is_looked_up_by_callee() {
    let hub: DynamicHub<u8> = DynamicHub::new("app".into()).with_forward_policy("solar".into(), 3);
    assert_eq!(hub.forward_policy_for("solar"), Some(&3));
    assert_eq!(hub.forward_policy_for("echo"), None);
    assert_eq!(hub.forward_policies().len(), 1);
}

#[test]
fn a_document_alone_adds_no_edge() {
    let hub = Hub::new("substrate".into()).declare_ir(ActivationIr::new("solar".into(), "1.0.0".into()));
    assert!(hub.connectome().children.is_empty());
}

#[test]
fn a_document_is_served_at_its_path() {
    let hub =
        Hub::new("substrate".into()).declare_ir_at("solar/body".into(), ActivationIr::new("body".into(), "1.0.0".into()));
    let doc = hub.child_connectome("solar/body").unwrap();
    assert_eq!(doc.namespace, "body");
    assert_eq!(doc.hash_algorithm.as_deref(), Some("CONNECTOME-HASH/1"));
    assert_eq!(doc.ir_version.as_deref(), Some("1"));
    assert!(doc.ir_hash.is_some());
    assert!(!doc.hash.is_empty());
    assert!(hub.child_connectome("solar").is_none());
    assert!(hub.child_connectome("").is_none());
}

fn solar_document() -> ActivationIr {
    ActivationIr::new("health".into(), "1.0.0".into())
        .with_backend_name("elsewhere".into())
        .with_method(MethodIr::new("check".into(), "health.check".into()))
        .with_child(ChildEdge::embedded(ActivationIr::new("probe".into(), "1.0.0".into())))
}

#[test]
fn an_embedded_document_is_served_under_the_same_hash() {
    let hub = Hub::new("app".into())
        .register(health())
        .declare_ir(solar_document())
        .with_backend_name("substrate".into())
        .with_respond_method("app.respond".into());
    let root = hub.connectome();
    assert_eq!(root.backend_name.as_deref(), Some("substrate"));
    assert_eq!(root.respond_method.as_deref(), Some("app.respond"));
    let embedded = match root.child("health") {
        Some(e) => e.child().unwrap(),
        None => panic!("no edge"),
    };
    assert!(embedded.backend_name.is_none());
    assert!(embedded.ir_hash.is_none());
    let doc = hub.child_connectome("health").unwrap();
    assert_eq!(doc.hash, embedded.hash);
    assert_eq!(doc.backend_name.as_deref(), Some("substrate"));
    assert_eq!(doc.respond_method.as_deref(), Some("app.respond"));
    let nested = hub.child_connectome("health/probe").unwrap();
    assert_eq!(nested.namespace, "probe");
    assert_eq!(nested.backend_name.as_deref(), Some("substrate"));
    assert!(hub.child_connectome("health/nobody").is_none());
    assert_eq!(hub.child_connectome("/").unwrap().namespace, "app");
}

#[test]
fn a_lazy_edge_advertises_the_hash_that_is_served() {
    let hub = Hub::new("app".into()).register(health()).declare_ir_lazy(solar_document());
    let root = hub.connectome();
    match root.child("health") {
        Some(ChildEdge::Dynamic { hash, .. }) => {
            assert_eq!(hash, &hub.child_connectome("health").unwrap().hash);
        }
        _ => panic!("expected a lazy edge"),
    }
    assert!(hub.child_connectome("health/probe").is_none());
}

#[test]
fn without_a_document_the_edge_advertises_the_schema() {
    let hub = Hub::new("app".into()).register(health());
    match hub.connectome().child("health") {
        Some(ChildEdge::Dynamic { hash, namespace, .. }) => {
            assert_eq!(namespace, "health");
            assert_eq!(hash, &health().plugin_schema.hash);
        }
        _ => panic!("expected a lazy edge"),
    }
    match hub.connectome_for(Some("health")) {
        Err(m) => {
            assert_eq!(m, "no Connectome document is declared for `health`");
            match connectome_error_item("app", "h".into(), m) {
                PlexusStreamItem::Error { code, .. } => assert_eq!(code, Some("connectome_not_declared".to_string())),
                _ => panic!("expected an error"),
            }
        }
        Ok(_) => panic!("expected no document"),
    }
    assert_eq!(hub.connectome_for(None).ok().unwrap().namespace, "app");
}

#[test]
fn root_facts_move_the_document_hash_only() {
    let bare = Hub::new("app".into()).register(health()).declare_ir(solar_document());
    let named = Hub::new("app".into())
        .register(health())
        .declare_ir(solar_document())
        .with_backend_name("b".into());
    assert_eq!(bare.connectome().hash, named.connectome().hash);
    assert_ne!(bare.connectome().ir_hash, named.connectome().ir_hash);
}

#[test]
fn the_order_of_children_does_not_move_a_hash() {
    let a = ChildEdge::lazy("a".into(), "1".into(), "".into());
    let b = ChildEdge::lazy("b".into(), "2".into(), "".into());
    let ab = ActivationIr::new("n".into(), "1".into()).with_child(a.copy()).with_child(b.copy());
    let ba = ActivationIr::new("n".into(), "1".into()).with_child(b).with_child(a);
    assert_eq!(ab.recompute_hashes().hash, ba.recompute_hashes().hash);
    assert_eq!(ab.recompute_hashes().ir_hash, ba.recompute_hashes().ir_hash);
    let again = ab.recompute_hashes().recompute_hashes();
    assert_eq!(again.hash, ab.recompute_hashes().hash);
}

#[test]
fn a_module_holds_the_hub_and_the_children_of_its_activations() {
    let listing = echo().with_capabilities(ChildCapabilities::list());
    let both = health().with_capabilities(ChildCapabilities::list().union(ChildCapabilities::search()));
    let hub = Hub::new("app".into()).register(both).register(listing);
    let module = hub.into_rpc_module();
    let names: Vec<&str> = module.subscriptions.iter().map(|s| s.name.as_str()).collect();
    assert_eq!(
        names,
        vec![
            "app.call",
            "app.hash",
            "app.schema",
            "app.connectome",
            "_info",
            "echo.list_children",
            "health.list_children",
            "health.search_children",
        ]
    );
    let children: Vec<(&str, Answer)> =
        module.subscriptions[5..].iter().map(|s| (s.namespace.as_str(), s.answer)).collect();
    assert_eq!(
        children,
        vec![
            ("echo", Answer::ListChildren),
            ("health", Answer::ListChildren),
            ("health", Answer::SearchChildren),
        ]
    );
    assert_eq!(module.methods, vec!["app.respond"]);
    let shared = hub.arc_into_rpc_module();
    assert_eq!(shared.subscriptions, module.subscriptions);
    assert_eq!(shared.methods, vec!["app.respond"]);
    let mut taken: Vec<String> = Vec::new();
    for s in &shared.subscriptions {
        taken.push(s.name.clone());
        taken.push(s.unsubscribe.clone());
    }
    taken.push("app.respond".to_string());
    let all = taken.len();
    taken.sort();
    taken.dedup();
    assert_eq!(taken.len(), all);
}

fn only_payload(items: &[PlexusStreamItem]) -> (&str, &Json, &StreamMetadata) {
    assert_eq!(items.len(), 2);
    match (&items[0], &items[1]) {
        (
            PlexusStreamItem::Data { metadata, content_type, content },
            PlexusStreamItem::Done { metadata: end },
        ) => {
            assert_eq!(metadata, end);
            (content_type.as_str(), content, metadata)
        }
        _ => panic!("expected data and the end"),
    }
}

#[test]
fn a_hub_answers_of_itself() {
    let hub = Hub::new("app".into()).register(health());
    let items = hub.hash_answer("h".into());
    let (content_type, content, metadata) = only_payload(&items);
    assert_eq!(content_type, "app.hash");
    assert_eq!(content.get("event"), Some(&Json::Text("hash".into())));
    assert_eq!(content.get("value"), Some(&Json::Text(hub.compute_hash())));
    assert_eq!(metadata.provenance, vec!["app"]);
    assert_eq!(metadata.plexus_hash, "h");
    let items = hub.info_answer("h".into());
    let (content_type, content, metadata) = only_payload(&items);
    assert_eq!(content_type, "_info");
    assert_eq!(content, &hub.info());
    assert!(metadata.provenance.is_empty());
    match hub.own_schema() {
        SchemaResult::Plugin(p) => assert_eq!(p.hash, hub.compute_hash()),
        SchemaResult::Method(_) => panic!("expected the schema of the hub"),
    }
    let items = hub.schema_answer("h".into());
    let (content_type, content, _) = only_payload(&items);
    assert_eq!(content_type, "app.schema");
    assert_eq!(content, &hub.own_schema().to_json());
    let items = hub.hashes_answer("h".into());
    let (content_type, content, _) = only_payload(&items);
    assert_eq!(content_type, "app.hashes");
    assert_eq!(content.get("hash"), Some(&Json::Text(hub.compute_hash())));
    assert!(hub.collision().is_none());
    let clashing = Hub::new("app".into()).register(record("hash", "1.0.0", vec![]));
    assert_eq!(
        clashing.collision().unwrap().message("app"),
        "Name collision in plugin 'app': method/child collision for 'hash'"
    );
}

#[test]
fn an_undeclared_document_is_said_to_be_so() {
    let hub = Hub::new("app".into()).register(health());
    assert!(matches!(hub.connectome_answer(None, "h".into()), ConnectomeAnswer::Document(_)));
    match hub.connectome_answer(Some("health"), "h".into()) {
        ConnectomeAnswer::NotDeclared(PlexusStreamItem::Error { metadata, message, code, recoverable }) => {
            assert_eq!(metadata.provenance, vec!["app"]);
            assert_eq!(message, "no Connectome document is declared for `health`");
            assert_eq!(code, Some("connectome_not_declared".to_string()));
            assert!(!recoverable);
        }
        _ => panic!("expected that there is none"),
    }
}

#[test]
fn only_schema_items_are_given_hints() {
    let metadata = || StreamMetadata::new(vec!["a".into()], "h".into());
    let data = |content_type: &str, n: u64| PlexusStreamItem::Data {
        metadata: metadata(),
        content_type: content_type.into(),
        content: Json::Unsigned(n),
    };
    assert_eq!(schema_content(&data("a.schema", 1)), Some(&Json::Unsigned(1)));
    assert_eq!(schema_content(&data("a.method_schema", 1)), Some(&Json::Unsigned(1)));
    assert_eq!(schema_content(&data("a.event", 1)), None);
    assert_eq!(schema_content(&PlexusStreamItem::Done { metadata: metadata() }), None);
    let filled = || Some(Json::Unsigned(2));
    assert_eq!(fill_site_hints_in_item(data("a.schema", 1), filled()), data("a.schema", 2));
    assert_eq!(fill_site_hints_in_item(data("a.schema", 1), None), data("a.schema", 1));
    assert_eq!(fill_site_hints_in_item(data("a.event", 1), filled()), data("a.event", 1));
    let done = PlexusStreamItem::Done { metadata: metadata() };
    assert_eq!(fill_site_hints_in_item(done, filled()), PlexusStreamItem::Done { metadata: metadata() });
}

#[test]
fn a_root_says_the_mandatory_facts_and_a_child_none() {
    let hub = Hub::new("substrate".into())
        .register(health())
        .declare_ir(ActivationIr::new("health".into(), "1.0.0".into()));
    let doc = hub.connectome();
    assert_eq!(doc.ir_version.as_deref(), Some("1"));
    assert!(doc.hash_algorithm.is_some() && doc.ir_hash.is_some());
    match &doc.children[0] {
        ChildEdge::Static { child } => {
            assert!(child.ir_version.is_none() && child.hash_algorithm.is_none() && child.ir_hash.is_none());
        }
        _ => panic!("expected an embedded child"),
    }
}

#[test]
fn the_answered_hashes_name_every_child() {
    let hub = Hub::new("app".into()).register(health()).register(echo());
    let hashes = hub.hashes();
    assert!(hashes.children_hash.is_some());
    let items = hub.hashes_answer("h".into());
    match &items[0] {
        PlexusStreamItem::Data { content, .. } => {
            assert_eq!(content.get("children_hash"), Some(&Json::Text(hashes.children_hash.unwrap())));
            match content.get("children") {
                Some(Json::Array(kids)) => {
                    assert_eq!(kids.len(), 2);
                    assert_eq!(kids[0].get("namespace"), Some(&Json::Text("echo".into())));
                    assert_eq!(kids[0].get("hash"), Some(&Json::Text(hub.plugin_children()[0].hash.clone())));
                    assert_eq!(kids[1].get("namespace"), Some(&Json::Text("health".into())));
                }
                _ => panic!("expected a list"),
            }
        }
        _ => panic!("expected data"),
    }
}
