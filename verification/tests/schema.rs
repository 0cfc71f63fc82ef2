use plexus_core::json::{put_entry, Json};
use plexus_core::plexus::credential_envelope::AttachmentSite;
use plexus_core::plexus::schema::{
    ChildSummary, CollisionKind, CredentialFieldDecl, CredentialFieldMarker, CredentialIssuer, CredentialKind,
    DeprecationInfo, HttpMethod, MethodRole, MethodSchema, ParamSchema, PluginSchema, RequiredCredential, ReturnShape,
    Schema, SchemaProperty,
};
use std::collections::hash_map::DefaultHasher;
use std::hash::{Hash, Hasher};

fn text(s: &str) -> Json {
    Json::Text(s.to_string())
}

fn object(entries: Vec<(&str, Json)>) -> Json {
    let mut out: Vec<(String, Json)> = Vec::new();
    for (k, v) in entries {
        put_entry(&mut out, k, v);
    }
    Json::Object(out)
}

fn method(name: &str, description: &str, hash: &str) -> MethodSchema {
    MethodSchema::new(name.into(), description.into(), hash.into())
}

fn leaf(ns: &str, description: &str, methods: Vec<MethodSchema>) -> PluginSchema {
    PluginSchema::leaf(ns.into(), "1.0".into(), description.into(), methods)
}

fn hub(ns: &str, methods: Vec<MethodSchema>, children: Vec<ChildSummary>) -> PluginSchema {
    PluginSchema::hub(ns.into(), "1.0".into(), "desc".into(), methods, children)
}

fn child(ns: &str, description: &str, hash: &str) -> ChildSummary {
    ChildSummary { namespace: ns.into(), description: description.into(), hash: hash.into() }
}

fn dynamic(list: Option<&str>, search: Option<&str>) -> MethodRole {
    MethodRole::DynamicChild { list_method: list.map(String::from), search_method: search.map(String::from) }
}

#[test]
fn test_schema_creation() {
    let schema = Schema::object()
        .with_property("id".into(), SchemaProperty::uuid().with_description("The unique identifier".into()))
        .with_property("name".into(), SchemaProperty::string().with_description("The name".into()))
        .with_required("id".into());
    assert_eq!(schema.schema_type, Some(text("object")));
    assert!(schema.properties.is_some());
    assert_eq!(schema.required, Some(vec!["id".to_string()]));
}

#[test]
fn test_self_hash_changes_on_method_change() {
    let schema1 = leaf("test", "desc", vec![method("foo", "bar", "hash1")]);
    let schema2 = leaf("test", "desc", vec![method("foo", "baz", "hash2")]);
    assert_ne!(schema1.self_hash, schema2.self_hash);
    assert_eq!(schema1.children_hash, schema2.children_hash);
    assert_ne!(schema1.hash, schema2.hash);
}

#[test]
fn test_children_hash_changes_on_child_change() {
    let schema1 = hub("parent", vec![], vec![child("child", "desc", "old_hash")]);
    let schema2 = hub("parent", vec![], vec![child("child", "desc", "new_hash")]);
    assert_eq!(schema1.self_hash, schema2.self_hash);
    assert_ne!(schema1.children_hash, schema2.children_hash);
    assert_ne!(schema1.hash, schema2.hash);
}

#[test]
fn test_leaf_has_no_children_hash() {
    let schema = leaf("leaf", "desc", vec![method("method", "desc", "hash")]);
    assert!(schema.children_hash.is_none());
    assert_ne!(schema.self_hash, schema.hash);
}

#[test]
fn a_hash_is_what_hashing_the_texts_gives() {
    let schema = leaf("leaf", "desc", vec![method("a", "d", "hash_a"), method("b", "d", "hash_b")]);
    let mut own = DefaultHasher::new();
    "hash_a".hash(&mut own);
    "hash_b".hash(&mut own);
    let own = format!("{:016x}", own.finish());
    assert_eq!(schema.self_hash, own);
    let mut all = DefaultHasher::new();
    own.hash(&mut all);
    assert_eq!(schema.hash, format!("{:016x}", all.finish()));
}

#[test]
fn ir2_is_hub_by_role_derived_query() {
    let all_rpc = leaf("p", "all rpc", vec![method("a", "d", "h1"), method("b", "d", "h2")]);
    assert!(!all_rpc.is_hub_by_role());
    assert!(!all_rpc.is_hub());

    let static_child = leaf(
        "p",
        "has static child",
        vec![method("a", "d", "h1"), method("kid", "d", "h2").with_role(MethodRole::StaticChild)],
    );
    assert!(static_child.is_hub_by_role());
    assert!(static_child.is_hub());

    let dyn_child = leaf("p", "has dynamic child", vec![method("find", "d", "h1").with_role(dynamic(None, None))]);
    assert!(dyn_child.is_hub_by_role());
    assert!(dyn_child.is_hub());

    let mixed = leaf(
        "p",
        "mixed",
        vec![
            method("a", "d", "h1"),
            method("b", "d", "h2"),
            method("k", "d", "h3").with_role(MethodRole::StaticChild),
        ],
    );
    assert!(mixed.is_hub_by_role());
    assert!(mixed.is_hub());

    let empty = leaf("p", "empty", vec![]);
    assert!(!empty.is_hub_by_role());
    assert!(!empty.is_hub());
}

#[test]
fn ir2_is_hub_by_role_ignores_children_field() {
    let hub_with_rpc_only = hub("h", vec![method("a", "d", "ah")], vec![child("kid", "child", "kh")]);
    assert!(!hub_with_rpc_only.is_hub_by_role());
    assert!(hub_with_rpc_only.is_hub());
}

#[test]
fn ir4_derive_empty_methods() {
    let (children, is_hub) = PluginSchema::derive_legacy_fields(&vec![]);
    assert!(children.is_empty());
    assert!(!is_hub);
}

#[test]
fn ir4_derive_single_rpc_method() {
    let methods = vec![method("ping", "rpc method", "h1")];
    let (children, is_hub) = PluginSchema::derive_legacy_fields(&methods);
    assert!(children.is_empty());
    assert!(!is_hub);
}

#[test]
fn ir4_derive_single_static_child() {
    let methods = vec![method("body", "static child", "h1").with_role(MethodRole::StaticChild)];
    let (children, is_hub) = PluginSchema::derive_legacy_fields(&methods);
    assert_eq!(children.len(), 1);
    assert_eq!(children[0].namespace, "body");
    assert_eq!(children[0].description, "static child");
    assert_eq!(children[0].hash, "");
    assert!(is_hub);
}

#[test]
fn ir4_derive_single_dynamic_child() {
    let methods = vec![method("planet", "dynamic child", "h1").with_role(dynamic(Some("list_planets"), None))];
    let (children, is_hub) = PluginSchema::derive_legacy_fields(&methods);
    assert_eq!(children.len(), 1);
    assert_eq!(children[0].namespace, "planet");
    assert!(is_hub);
}

#[test]
fn ir4_derive_mixed_roles_preserves_order() {
    let methods = vec![
        method("ping", "rpc", "h1"),
        method("kid_a", "static a", "h2").with_role(MethodRole::StaticChild),
        method("describe", "rpc too", "h3"),
        method("kid_b", "static b", "h4").with_role(MethodRole::StaticChild),
    ];
    let (children, is_hub) = PluginSchema::derive_legacy_fields(&methods);
    assert_eq!(children.len(), 2);
    assert_eq!(children[0].namespace, "kid_a");
    assert_eq!(children[1].namespace, "kid_b");
    assert!(is_hub);
}

#[test]
fn ir4_derive_is_hub_matches_is_hub_by_role() {
    let empty_schema = leaf("t", "d", vec![]);
    let (_, is_hub) = PluginSchema::derive_legacy_fields(&empty_schema.methods);
    assert_eq!(is_hub, empty_schema.is_hub_by_role());

    let rpc_schema = leaf("t", "d", vec![method("a", "d", "h1"), method("b", "d", "h2")]);
    let (_, is_hub) = PluginSchema::derive_legacy_fields(&rpc_schema.methods);
    assert_eq!(is_hub, rpc_schema.is_hub_by_role());

    let static_schema = leaf(
        "t",
        "d",
        vec![method("a", "d", "h1"), method("kid", "d", "h2").with_role(MethodRole::StaticChild)],
    );
    let (_, is_hub) = PluginSchema::derive_legacy_fields(&static_schema.methods);
    assert_eq!(is_hub, static_schema.is_hub_by_role());
    assert!(is_hub);

    let dyn_schema = leaf("t", "d", vec![method("find", "d", "h1").with_role(dynamic(None, None))]);
    let (_, is_hub) = PluginSchema::derive_legacy_fields(&dyn_schema.methods);
    assert_eq!(is_hub, dyn_schema.is_hub_by_role());
    assert!(is_hub);
}

#[test]
fn ir4_no_collision_static_child_method_vs_summary() {
    let schema = hub(
        "hub",
        vec![
            method("ping", "rpc", "h1"),
            method("kid", "static child", "h2").with_role(MethodRole::StaticChild),
        ],
        vec![child("kid", "static child", "kh")],
    );
    let kids = schema.children.as_ref().unwrap();
    assert_eq!(kids.len(), 1);
    assert_eq!(kids[0].namespace, "kid");
    assert!(matches!(
        schema.methods.iter().find(|m| m.name == "kid").unwrap().role,
        MethodRole::StaticChild
    ));
}

#[test]
fn ir4_no_collision_dynamic_child_method_vs_summary() {
    let schema = hub(
        "hub",
        vec![method("body", "gate", "h1").with_role(dynamic(Some("body_names"), None))],
        vec![child("body", "gate", "bh")],
    );
    assert_eq!(schema.children.as_ref().unwrap().len(), 1);
}

#[test]
fn ir4_collision_rpc_method_vs_summary_still_panics() {
    let methods = vec![method("oops", "rpc", "h1")];
    let children = vec![child("oops", "shadowed", "oh")];
    let clash = PluginSchema::validate_no_collisions(&methods, Some(&children)).unwrap();
    assert_eq!(clash.kind, CollisionKind::MethodChild);
    assert!(clash.message("hub").contains("method/child collision"));
    assert_eq!(clash.message("hub"), "Name collision in plugin 'hub': method/child collision for 'oops'");
}

#[test]
fn repeated_names_clash() {
    let twice = vec![method("a", "d", "h"), method("a", "d", "h")];
    let clash = PluginSchema::validate_no_collisions(&twice, None).unwrap();
    assert_eq!(clash.kind, CollisionKind::DuplicateMethod);
    assert_eq!(clash.message("p"), "Name collision in plugin 'p': duplicate method 'a'");
    let kids = vec![child("k", "d", "h"), child("k", "d", "h")];
    let clash = PluginSchema::validate_no_collisions(&vec![], Some(&kids)).unwrap();
    assert_eq!(clash.kind, CollisionKind::DuplicateChild);
    assert!(PluginSchema::validate_no_collisions(&vec![], None).is_none());
}

#[test]
fn a_child_that_is_listed_twice_clashes_though_a_method_leads_to_it() {
    let methods = vec![method("kid", "d", "h").with_role(MethodRole::StaticChild)];
    let once = vec![child("kid", "d", "h")];
    assert!(PluginSchema::validate_no_collisions(&methods, Some(&once)).is_none());
    let twice = vec![child("kid", "d", "h"), child("kid", "d", "h")];
    let clash = PluginSchema::validate_no_collisions(&methods, Some(&twice)).unwrap();
    assert_eq!(clash.kind, CollisionKind::DuplicateChild);
    assert_eq!(clash.name, "kid");
}

#[test]
fn hashes_have_sixteen_digits_and_depend_on_their_parts() {
    let one = PluginSchema::hub("t".into(), "1".into(), "d".into(), vec![method("a", "b", "h")], vec![child("k", "d", "x")]);
    let two = PluginSchema::hub("t".into(), "1".into(), "d".into(), vec![method("a", "b", "h")], vec![child("k", "d", "y")]);
    assert_eq!(one.self_hash, two.self_hash);
    assert_ne!(one.children_hash, two.children_hash);
    assert_ne!(one.hash, two.hash);
    for hash in [&one.self_hash, one.children_hash.as_ref().unwrap(), &one.hash] {
        assert_eq!(hash.len(), 16);
        assert!(hash.chars().all(|c| c.is_ascii_digit() || ('a'..='f').contains(&c)));
    }
    let leaf = PluginSchema::leaf("t".into(), "1".into(), "d".into(), vec![]);
    assert!(leaf.children_hash.is_none());
}

#[test]
fn ir4_deprecated_field_access_requires_allow_attribute() {
    let schema = leaf("t", "d", vec![method("a", "b", "h")]);
    let _children = schema.children.clone();
    let _is_hub = schema.is_hub();
    assert!(schema.is_leaf());
}

#[test]
fn cred_core_2_ac8_leaf_constructor_does_not_panic_on_collision() {
    let collision = object(vec![
        ("type", text("object")),
        (
            "properties",
            object(vec![
                ("user_id", object(vec![("type", text("string"))])),
                ("_credentials", object(vec![("type", text("object"))])),
            ]),
        ),
    ]);
    let schema = leaf("auth", "test", vec![method("login", "logs in", "h1").with_returns(collision)]);
    assert_eq!(schema.namespace, "auth");
    assert_eq!(schema.methods.len(), 1);
    let warnings = PluginSchema::warn_on_credentials_field_collisions(&schema.namespace, &schema.methods);
    assert_eq!(warnings.len(), 1);
    assert_eq!(warnings[0].plugin, "auth");
    assert_eq!(warnings[0].method, "login");

    let clean = object(vec![
        ("type", text("object")),
        ("properties", object(vec![("user_id", object(vec![("type", text("string"))]))])),
    ]);
    let schema_clean = leaf("auth", "test", vec![method("ping", "pings", "h2").with_returns(clean)]);
    assert_eq!(schema_clean.methods.len(), 1);
    assert_eq!(PluginSchema::warn_on_credentials_field_collisions("auth", &schema_clean.methods).len(), 0);
}

#[test]
fn ir4_is_hub_and_is_hub_by_role_agree_on_role_tagged_methods() {
    let l = leaf("t", "d", vec![method("a", "d", "h1")]);
    assert_eq!(l.is_hub(), l.is_hub_by_role());
    assert!(!l.is_hub());
    let hub_with_roles = hub(
        "h",
        vec![method("kid", "d", "h1").with_role(MethodRole::StaticChild)],
        vec![child("kid", "d", "")],
    );
    assert_eq!(hub_with_roles.is_hub(), hub_with_roles.is_hub_by_role());
    assert!(hub_with_roles.is_hub());
}

fn sample_issuer() -> CredentialIssuer {
    CredentialIssuer { origin: "ws://localhost:4444".into(), method: "auth.login".into() }
}

fn header() -> AttachmentSite {
    AttachmentSite::Header { name: "authorization".into() }
}

fn sample_marker_single() -> CredentialFieldMarker {
    CredentialFieldMarker {
        variant: None,
        field: "session".into(),
        kind: CredentialKind::Bearer,
        attach_as: header(),
        scheme: Some("Bearer ".into()),
        scopes: vec!["cone.send_message".into()],
        refresh_via: Some("auth.refresh".into()),
        revoke_via: Some("auth.logout".into()),
    }
}

#[test]
fn cred_core_3_ac1_single_credential_projection() {
    let decl = CredentialFieldDecl::from_marker(sample_marker_single(), &vec![], sample_issuer());
    assert_eq!(decl.field_path, vec!["session".to_string()]);
    assert!(decl.variant_tag.is_none());
    assert_eq!(decl.metadata.kind, CredentialKind::Bearer);
    assert_eq!(decl.metadata.attach_as, header());
    assert_eq!(decl.metadata.scheme, Some("Bearer ".to_string()));
    assert_eq!(decl.metadata.scopes, vec!["cone.send_message".to_string()]);
    assert_eq!(decl.metadata.refresh_via, Some("auth.refresh".to_string()));
    assert_eq!(decl.metadata.revoke_via, Some("auth.logout".to_string()));
    assert_eq!(decl.metadata.issuer, sample_issuer());
    let m = method("login", "logs in", "h_login").with_credentials(vec![decl]);
    assert_eq!(m.credentials.len(), 1);
    assert_eq!(m.credentials[0].field_path, vec!["session".to_string()]);
}

#[test]
fn cred_core_3_ac2_multiple_credentials_stable_order() {
    let mut m1 = sample_marker_single();
    m1.field = "access".into();
    m1.kind = CredentialKind::OauthAccess;
    m1.scopes = vec!["cone.send".into()];
    m1.revoke_via = None;
    let mut m2 = sample_marker_single();
    m2.field = "refresh".into();
    m2.kind = CredentialKind::OauthRefresh;
    m2.scheme = None;
    m2.scopes = vec!["auth.refresh".into()];
    m2.refresh_via = None;
    m2.revoke_via = None;
    let decls = vec![
        CredentialFieldDecl::from_marker(m1, &vec![], sample_issuer()),
        CredentialFieldDecl::from_marker(m2, &vec![], sample_issuer()),
    ];
    let m = method("login", "logs in", "h_oauth").with_credentials(decls);
    assert_eq!(m.credentials.len(), 2);
    assert_eq!(m.credentials[0].field_path, vec!["access".to_string()]);
    assert_eq!(m.credentials[0].metadata.kind, CredentialKind::OauthAccess);
    assert_eq!(m.credentials[1].field_path, vec!["refresh".to_string()]);
    assert_eq!(m.credentials[1].metadata.kind, CredentialKind::OauthRefresh);
}

#[test]
fn cred_core_3_ac3_enum_variant_tag_set() {
    let mut marker = sample_marker_single();
    marker.variant = Some("Issued".into());
    marker.refresh_via = None;
    marker.revoke_via = None;
    let decl = CredentialFieldDecl::from_marker(marker, &vec![], sample_issuer());
    assert_eq!(decl.variant_tag, Some("Issued".to_string()));
    assert_eq!(decl.field_path, vec!["session".to_string()]);
    let m = method("login", "logs in", "h_login").with_credentials(vec![decl]);
    assert_eq!(m.credentials[0].variant_tag, Some("Issued".to_string()));
}

#[test]
fn cred_core_3_from_marker_with_nested_path_prefix() {
    let decl = CredentialFieldDecl::from_marker(sample_marker_single(), &vec!["auth".to_string()], sample_issuer());
    assert_eq!(decl.field_path, vec!["auth".to_string(), "session".to_string()]);
}

#[test]
fn cred_core_3_ac5_scoped_method_implicit_requires_credential() {
    let req = RequiredCredential::from_method_scope("cone.send_message".into());
    assert!(req.kind.is_none());
    assert_eq!(req.scopes, vec!["cone.send_message".to_string()]);
    assert!(req.site_hint.is_none());
    let m = method("send", "sends a message", "h_send").with_requires_credential(req.clone());
    assert_eq!(m.requires_credential.as_ref().unwrap(), &req);
}

#[test]
fn cred_core_3_ac6_refresh_target_narrows_kind() {
    let req =
        RequiredCredential::from_refresh_revoke_target(CredentialKind::OauthRefresh, vec!["auth.refresh".into()]);
    assert_eq!(req.kind, Some(CredentialKind::OauthRefresh));
    assert_eq!(req.scopes, vec!["auth.refresh".to_string()]);
    let m = method("refresh", "refreshes a token", "h_refresh").with_requires_credential(req);
    assert_eq!(m.requires_credential.as_ref().unwrap().kind, Some(CredentialKind::OauthRefresh));
}

#[test]
fn a_verb_reads_back() {
    for v in [HttpMethod::Get, HttpMethod::Post, HttpMethod::Put, HttpMethod::Delete, HttpMethod::Patch] {
        assert_eq!(HttpMethod::from_str(v.as_str()), Some(v));
    }
    assert_eq!(HttpMethod::from_str("get"), Some(HttpMethod::Get));
    assert_eq!(HttpMethod::from_str("PaTcH"), Some(HttpMethod::Patch));
    assert_eq!(HttpMethod::from_str("HEAD"), None);
    assert_eq!(HttpMethod::from_str(""), None);
    assert_eq!(HttpMethod::from_str("po\u{17f}t"), Some(HttpMethod::Post));
    assert_eq!(HttpMethod::from_upper("get"), None);
}

#[test]
fn builders_set_what_they_name() {
    let m = method("m", "d", "h")
        .with_params(text("p"))
        .with_streaming(true)
        .with_http_method(HttpMethod::Get)
        .with_return_shape(ReturnShape::Stream)
        .with_params_meta(vec![ParamSchema::new("x".into())])
        .with_standard_bidirectional(text("req"), text("resp"))
        .with_deprecation(DeprecationInfo {
            since: "0.5".into(),
            removed_in: "0.6".into(),
            message: "use MethodRole".into(),
        });
    assert_eq!(m.params, Some(text("p")));
    assert!(m.streaming);
    assert!(m.bidirectional);
    assert_eq!(m.request_type, Some(text("req")));
    assert_eq!(m.response_type, Some(text("resp")));
    assert_eq!(m.return_shape, Some(ReturnShape::Stream));
    assert_eq!(m.params_meta[0].name, "x");
    assert_eq!(m.deprecation.as_ref().unwrap().since, "0.5");
}

fn variant(name: &str, as_const: bool) -> Schema {
    let mut p = SchemaProperty::string();
    if as_const {
        put_entry(&mut p.additional, "const", text(name));
    } else {
        p.enum_values = Some(vec![text(name)]);
    }
    Schema::object().with_property("method".into(), p)
}

#[test]
fn methods_are_found_among_variants() {
    let mut schema = Schema::new("t".into(), "d".into());
    assert!(schema.get_method_schema("a").is_none());
    assert!(schema.list_methods().is_empty());
    schema.one_of = Some(vec![variant("a", true), Schema::object(), variant("b", false)]);
    assert_eq!(schema.list_methods(), vec!["a", "b"]);
    assert!(schema.get_method_schema("a").is_some());
    assert!(schema.get_method_schema("b").is_some());
    assert!(schema.get_method_schema("c").is_none());
}
