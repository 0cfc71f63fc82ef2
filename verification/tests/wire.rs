use plexus_auth_core::{
    AttachmentSite as Site, CredentialIssuer as Issuer, CredentialKind as Kind, CredentialMetadata as Metadata,
    CredentialScheme, HeaderName, MethodPath, Origin, Scope,
};
use plexus_core::json::{put_entry, Json};
use plexus_core::plexus::credential_envelope::AttachmentSite;
use plexus_core::plexus::hub::DynamicHub;
use plexus_core::plexus::schema::{
    ChildSummary, CredentialFieldDecl, CredentialFieldMarker, CredentialIssuer, CredentialKind, DeprecationInfo,
    HttpMethod, MethodRole, MethodSchema, ParamSchema, PluginSchema, RequiredCredential, ReturnShape, Schema,
    SchemaProperty, SchemaResult,
};
use serde_json::{Number, Value};

fn value(json: &Json) -> Value {
    match json {
        Json::Null => Value::Null,
        Json::Bool(b) => Value::Bool(*b),
        Json::Unsigned(n) => Value::from(*n),
        Json::Negative(n) => Value::from(*n),
        Json::Fraction(bits) => Number::from_f64(f64::from_bits(*bits)).map_or(Value::Null, Value::Number),
        Json::Text(s) => Value::String(s.clone()),
        Json::Array(items) => Value::Array(items.iter().map(value).collect()),
        Json::Object(entries) => Value::Object(entries.iter().map(|(k, v)| (k.clone(), value(v))).collect()),
    }
}

fn object(entries: Vec<(&str, Json)>) -> Json {
    let mut out: Vec<(String, Json)> = Vec::new();
    for (k, v) in entries {
        put_entry(&mut out, k, v);
    }
    Json::Object(out)
}

fn text(s: &str) -> Json {
    Json::Text(s.to_string())
}

fn authorization() -> AttachmentSite {
    AttachmentSite::Header { name: "authorization".into() }
}

fn outside_authorization() -> Site {
    Site::Header { name: HeaderName::try_new("authorization").unwrap() }
}

fn marker() -> CredentialFieldMarker {
    CredentialFieldMarker {
        variant: None,
        field: "session".into(),
        kind: CredentialKind::Bearer,
        attach_as: authorization(),
        scheme: Some("Bearer ".into()),
        scopes: vec!["cone.send_message".into()],
        refresh_via: Some("auth.refresh".into()),
        revoke_via: Some("auth.logout".into()),
    }
}

fn issuer() -> CredentialIssuer {
    CredentialIssuer { origin: "ws://localhost:4444".into(), method: "auth.login".into() }
}

fn outside_metadata() -> Metadata {
    Metadata::new(
        Kind::Bearer,
        outside_authorization(),
        Some(CredentialScheme::new("Bearer ")),
        vec![Scope::new("cone.send_message")],
        None,
        Some(MethodPath::try_new("auth.refresh").unwrap()),
        Some(MethodPath::try_new("auth.logout").unwrap()),
        Issuer::new(Origin::new("ws://localhost:4444"), MethodPath::try_new("auth.login").unwrap()),
    )
}

fn method(name: &str, description: &str, hash: &str) -> MethodSchema {
    MethodSchema::new(name.into(), description.into(), hash.into())
}

#[test]
fn cred_core_3_ac4_public_method_requires_credential_none() {
    let m = method("auth.login", "logs in", "h_login");
    assert!(m.requires_credential.is_none());
    let json = value(&m.to_json());
    assert!(!json.as_object().unwrap().contains_key("requires_credential"));
    let decoded: Value = serde_json::from_str(&json.to_string()).unwrap();
    assert_eq!(decoded, json);
    assert!(decoded.get("requires_credential").is_none());
}

#[test]
fn cred_core_3_required_credential_site_hint_preserved() {
    let mut req =
        RequiredCredential::from_refresh_revoke_target(CredentialKind::OauthRefresh, vec!["auth.refresh".into()]);
    req.site_hint = Some(authorization());
    let m = method("refresh", "refreshes", "h_refresh").with_requires_credential(req);
    let json = m.to_json();
    let hint = json.get("requires_credential").unwrap().get("site_hint").unwrap();
    let decoded: Site = serde_json::from_value(value(hint)).unwrap();
    assert_eq!(decoded, outside_authorization());
}

#[test]
fn cred_core_3_ac8_info_advertisement_carries_populated_fields() {
    let decl = CredentialFieldDecl::from_marker(marker(), &vec![], issuer());
    let req = RequiredCredential::from_method_scope("cone.send_message".into());
    let m = method("login", "logs in", "h_login").with_credentials(vec![decl]).with_requires_credential(req);
    let json = value(&m.to_json());
    let obj = json.as_object().unwrap();
    assert!(obj.contains_key("credentials"));
    assert!(obj.contains_key("requires_credential"));
    let credentials = obj["credentials"].as_array().unwrap();
    assert_eq!(credentials.len(), 1);
    let path: Vec<String> = serde_json::from_value(credentials[0]["field_path"].clone()).unwrap();
    assert_eq!(path, vec!["session".to_string()]);
    let scopes: Vec<Scope> = serde_json::from_value(obj["requires_credential"]["scopes"].clone()).unwrap();
    assert_eq!(scopes, vec![Scope::new("cone.send_message")]);
}

#[test]
fn cred_core_3_ac11_methods_without_credentials_have_unchanged_wire_shape() {
    let json = value(&method("ping", "pong", "h_ping").to_json());
    let obj = json.as_object().unwrap();
    assert!(!obj.contains_key("credentials"));
    assert!(!obj.contains_key("requires_credential"));
    let keys: Vec<&str> = obj.keys().map(String::as_str).collect();
    assert_eq!(keys, vec!["bidirectional", "description", "hash", "http_method", "name", "role", "streaming"]);
    assert_eq!(obj["http_method"], Value::from("POST"));
    assert_eq!(obj["role"]["kind"], Value::from("rpc"));
    assert_eq!(obj["streaming"], Value::from(false));
}

#[test]
fn cred_core_3_full_method_roundtrip_preserves_credentials_and_requires() {
    let decl = CredentialFieldDecl::from_marker(marker(), &vec![], issuer());
    let req = RequiredCredential::from_method_scope("cone.send_message".into());
    let m = method("login", "logs in", "h_login").with_credentials(vec![decl]).with_requires_credential(req);
    let json = value(&m.to_json());
    assert_eq!(json["credentials"].as_array().unwrap().len(), 1);
    let decl = json["credentials"][0].as_object().unwrap();
    assert_eq!(decl.len(), 2);
    let path: Vec<String> = serde_json::from_value(decl["field_path"].clone()).unwrap();
    assert_eq!(path, vec!["session".to_string()]);
    let metadata: Metadata = serde_json::from_value(decl["metadata"].clone()).unwrap();
    assert_eq!(metadata, outside_metadata());
    let required = json["requires_credential"].as_object().unwrap();
    assert_eq!(required.len(), 1);
    let scopes: Vec<Scope> = serde_json::from_value(required["scopes"].clone()).unwrap();
    assert_eq!(scopes, vec![Scope::new("cone.send_message")]);
}

#[test]
fn cred_core_3_credential_field_decl_roundtrip() {
    let original = CredentialFieldDecl::from_marker(marker(), &vec!["envelope".to_string()], issuer());
    let json = value(&original.to_json());
    assert_eq!(json.as_object().unwrap().len(), 2);
    let path: Vec<String> = serde_json::from_value(json["field_path"].clone()).unwrap();
    assert_eq!(path, vec!["envelope".to_string(), "session".to_string()]);
    let metadata: Metadata = serde_json::from_value(json["metadata"].clone()).unwrap();
    assert_eq!(metadata, outside_metadata());
    assert_eq!(json["metadata"], serde_json::to_value(outside_metadata()).unwrap());
}

#[test]
fn cred_core_3_required_credential_roundtrip() {
    let req = RequiredCredential {
        kind: Some(CredentialKind::OauthRefresh),
        scopes: vec!["auth.refresh".into()],
        site_hint: Some(authorization()),
    };
    let json = value(&req.to_json());
    assert_eq!(json.as_object().unwrap().len(), 3);
    let kind: Kind = serde_json::from_value(json["kind"].clone()).unwrap();
    assert_eq!(kind, Kind::OauthRefresh);
    let scopes: Vec<Scope> = serde_json::from_value(json["scopes"].clone()).unwrap();
    assert_eq!(scopes, vec![Scope::new("auth.refresh")]);
    let hint: Site = serde_json::from_value(json["site_hint"].clone()).unwrap();
    assert_eq!(hint, outside_authorization());
}

#[test]
fn cred_core_3_required_credential_compact_wire_shape() {
    let req = RequiredCredential::from_method_scope("cone.send".into());
    let json = value(&req.to_json());
    let obj = json.as_object().unwrap();
    assert!(!obj.contains_key("kind"));
    assert!(obj.contains_key("scopes"));
    assert!(!obj.contains_key("site_hint"));
}

#[test]
fn every_kind_and_site_is_written_as_the_auth_crate_writes_it() {
    let kinds = vec![
        (CredentialKind::Bearer, Kind::Bearer),
        (CredentialKind::Cookie, Kind::Cookie),
        (CredentialKind::OauthAccess, Kind::OauthAccess),
        (CredentialKind::OauthRefresh, Kind::OauthRefresh),
        (CredentialKind::OidcId, Kind::OidcId),
        (CredentialKind::AwsSts, Kind::AwsSts),
        (CredentialKind::Macaroon, Kind::Macaroon),
        (CredentialKind::Other { name: "x".into() }, Kind::Other { name: "x".into() }),
    ];
    for (ours, theirs) in kinds {
        assert_eq!(value(&ours.to_json()), serde_json::to_value(theirs).unwrap());
    }
    let sites = vec![
        (authorization(), outside_authorization()),
        (
            AttachmentSite::Cookie { name: "sid".into() },
            Site::Cookie { name: plexus_auth_core::CookieName::try_new("sid").unwrap() },
        ),
        (
            AttachmentSite::FirstFrame { setup_method: "auth.setup".into(), param: "token".into() },
            Site::FirstFrame { setup_method: MethodPath::try_new("auth.setup").unwrap(), param: "token".into() },
        ),
        (AttachmentSite::InRpcParam { param: "token".into() }, Site::InRpcParam { param: "token".into() }),
    ];
    for (ours, theirs) in sites {
        assert_eq!(value(&ours.to_json()), serde_json::to_value(theirs).unwrap());
    }
}

#[test]
fn roles_and_shapes_have_their_names() {
    assert_eq!(MethodRole::Rpc.to_json(), object(vec![("kind", text("rpc"))]));
    assert_eq!(MethodRole::StaticChild.to_json(), object(vec![("kind", text("static_child"))]));
    let full = MethodRole::DynamicChild { list_method: Some("list_x".into()), search_method: Some("search_x".into()) };
    assert_eq!(
        full.to_json(),
        object(vec![
            ("kind", text("dynamic_child")),
            ("list_method", text("list_x")),
            ("search_method", text("search_x")),
        ])
    );
    let bare = MethodRole::DynamicChild { list_method: None, search_method: None };
    assert_eq!(bare.to_json(), object(vec![("kind", text("dynamic_child"))]));
    let shapes = vec![
        (ReturnShape::Bare, "bare"),
        (ReturnShape::Option, "option"),
        (ReturnShape::Result, "result"),
        (ReturnShape::Vec, "vec"),
        (ReturnShape::Stream, "stream"),
        (ReturnShape::ResultOption, "result_option"),
    ];
    for (shape, name) in shapes {
        assert_eq!(shape.to_json(), text(name));
    }
}

#[test]
fn a_deprecated_parameter_shows_why() {
    let info = DeprecationInfo { since: "0.5".into(), removed_in: "0.7".into(), message: "use y".into() };
    let written = object(vec![("message", text("use y")), ("removed_in", text("0.7")), ("since", text("0.5"))]);
    assert_eq!(info.to_json(), written);
    assert_eq!(ParamSchema::new("x".into()).to_json(), object(vec![("name", text("x"))]));
    let mut m = method("a", "b", "c");
    m.params_meta = vec![ParamSchema::new("x".into()).with_deprecation(info)];
    m.http_method = HttpMethod::Get;
    m.return_shape = Some(ReturnShape::Option);
    let json = m.to_json();
    assert_eq!(
        json.get("params_meta"),
        Some(&Json::Array(vec![object(vec![("deprecation", written), ("name", text("x"))])]))
    );
    assert_eq!(json.get("http_method"), Some(&text("GET")));
    assert_eq!(json.get("return_shape"), Some(&text("option")));
    assert_eq!(json.get("deprecation"), None);
}

#[test]
fn a_hint_shows_in_the_demand_only() {
    let plain = || {
        method("m", "d", "h").with_requires_credential(RequiredCredential::from_method_scope("a.b".into()))
    };
    let before = value(&plain().to_json());
    let after = value(&SchemaResult::Method(plain()).fill_site_hints(&authorization()).to_json());
    for key in before.as_object().unwrap().keys() {
        assert_eq!(before[key] == after[key], key != "requires_credential");
    }
    assert_eq!(after["requires_credential"]["site_hint"]["name"], Value::from("authorization"));
}

#[test]
fn a_hub_shows_its_children_and_a_leaf_none() {
    let kid = || ChildSummary { namespace: "kid".into(), description: "d".into(), hash: "k".into() };
    let leaf = PluginSchema::leaf("l".into(), "1.0".into(), "d".into(), vec![method("a", "b", "c")]);
    let json = value(&leaf.to_json());
    assert!(json.get("children").is_none());
    assert!(json.get("children_hash").is_none());
    assert!(json.get("long_description").is_none());
    assert_eq!(json["methods"][0]["name"], Value::from("a"));
    let hub = PluginSchema::hub("h".into(), "1.0".into(), "d".into(), vec![], vec![kid()]);
    let json = value(&hub.to_json());
    assert_eq!(json["children"][0], value(&kid().to_json()));
    assert_eq!(json["children"][0]["hash"], Value::from("k"));
    assert_eq!(json["children_hash"], Value::from(hub.children_hash.clone().unwrap()));
    let hashes = DynamicHub::<()>::new("app".into()).hashes();
    let json = value(&hashes.to_json());
    assert_eq!(json["namespace"], Value::from("app"));
    assert_eq!(json["children"], Value::Array(vec![]));
    assert_eq!(json["hash"], Value::from(hashes.hash.clone()));
}

#[test]
fn test_serialization() {
    let schema = Schema::object().with_property("id".into(), SchemaProperty::uuid());
    let json = serde_json::to_string_pretty(&value(&schema.to_json())).unwrap();
    assert!(json.contains("uuid"));
}

#[test]
fn a_schema_shows_what_it_says_and_what_it_holds_besides() {
    let mut schema = Schema::object()
        .with_property("b".into(), SchemaProperty::uuid())
        .with_property("a".into(), SchemaProperty::uuid())
        .with_required("b".into());
    schema.additional = vec![("x-note".to_string(), text("kept"))];
    schema.one_of = Some(vec![Schema::object()]);
    let json = value(&schema.to_json());
    assert_eq!(json["type"], Value::from("object"));
    let names: Vec<&String> = json["properties"].as_object().unwrap().keys().collect();
    assert_eq!(names, vec!["a", "b"]);
    assert_eq!(json["properties"]["a"]["format"], Value::from("uuid"));
    assert_eq!(json["required"][0], Value::from("b"));
    assert_eq!(json["x-note"], Value::from("kept"));
    assert_eq!(json["oneOf"][0]["type"], Value::from("object"));
    assert!(json.get("$defs").is_none());
}

#[test]
fn methods_that_say_different_things_are_written_differently() {
    let plain = method("m", "d", "h").to_json();
    assert_eq!(plain, method("m", "d", "h").to_json());
    let others = vec![
        method("n", "d", "h"),
        method("m", "d", "h").with_role(MethodRole::StaticChild),
        method("m", "d", "h").with_role(MethodRole::DynamicChild { list_method: None, search_method: None }),
        method("m", "d", "h")
            .with_role(MethodRole::DynamicChild { list_method: Some("l".into()), search_method: None }),
        method("m", "d", "h")
            .with_role(MethodRole::DynamicChild { list_method: None, search_method: Some("l".into()) }),
        method("m", "d", "h").with_return_shape(ReturnShape::Bare),
        method("m", "d", "h").with_return_shape(ReturnShape::ResultOption),
        method("m", "d", "h").with_deprecation(DeprecationInfo {
            since: "1".into(),
            removed_in: "2".into(),
            message: "x".into(),
        }),
        method("m", "d", "h").with_requires_credential(RequiredCredential::from_method_scope("a".into())),
    ];
    let written: Vec<Json> = others.iter().map(MethodSchema::to_json).collect();
    for (i, a) in written.iter().enumerate() {
        assert_ne!(*a, plain);
        for b in &written[i + 1..] {
            assert_ne!(a, b);
        }
    }
}

#[test]
fn an_activation_shows_a_namespace_and_a_method_none() {
    let m = SchemaResult::Method(method("m", "d", "h")).to_json();
    assert!(m.get("namespace").is_none());
    let p = SchemaResult::Plugin(PluginSchema::leaf("a".into(), "1.0".into(), "d".into(), vec![])).to_json();
    assert_eq!(p.get("namespace"), Some(&text("a")));
}
