use plexus_core::json::{put_entry, Json};
use plexus_core::plexus::credential_envelope::{
    assemble_envelope_content, build_credentials_envelope, check_returns_schema_for_credentials_collision,
    format_set_cookie_header, serialize_with_credential_capture, warn_on_credentials_field_collision, AttachmentSite, CapturedCredential,
    CookieProjectionHint, CookieProjector,
};

fn object(entries: Vec<(&str, Json)>) -> Json {
    let mut out: Vec<(String, Json)> = Vec::new();
    for (k, v) in entries {
        put_entry(&mut out, k, v);
    }
    Json::Object(out)
}

fn text(s: &str) -> Json {
    Json::Text(s.to_string())
}

fn sentinel(id: &str) -> Json {
    object(vec![("$credential", text(id))])
}

fn header_metadata() -> (AttachmentSite, Json) {
    (
        AttachmentSite::Header { name: "authorization".to_string() },
        object(vec![("kind", text("bearer")), ("scheme", text("Bearer "))]),
    )
}

fn cookie_metadata() -> (AttachmentSite, Json) {
    (
        AttachmentSite::Cookie { name: "plexus_session".to_string() },
        object(vec![("kind", text("cookie"))]),
    )
}

fn capture(id: &str, value: Json, metadata: (AttachmentSite, Json)) -> CapturedCredential {
    CapturedCredential { id: id.to_string(), value, attach_as: metadata.0, metadata: metadata.1 }
}

fn keys(j: &Json) -> Vec<String> {
    match j {
        Json::Object(e) => e.iter().map(|(k, _)| k.clone()).collect(),
        _ => panic!("not an object"),
    }
}

#[test]
fn ac3_zero_credentials_produces_no_envelope_field() {
    let payload = object(vec![("user", text("alice")), ("ok", Json::Bool(true))]);
    let (content, hints) = assemble_envelope_content(payload.clone(), &Vec::new(), CookieProjector::All);
    assert_eq!(content, payload);
    assert!(hints.is_empty());
    assert!(content.get("_credentials").is_none());
}

#[test]
fn ac1_single_credential_produces_envelope_with_value_and_metadata() {
    let payload = object(vec![("user_id", text("alice")), ("session", sentinel("cred_0"))]);
    let captured = vec![capture("cred_0", text("jwt-bytes"), header_metadata())];
    let (content, hints) = assemble_envelope_content(payload, &captured, CookieProjector::All);
    assert_eq!(content.get("session"), Some(&sentinel("cred_0")));
    let entry = content.get("_credentials").unwrap().get("cred_0").unwrap();
    assert_eq!(entry.get("value"), Some(&text("jwt-bytes")));
    assert!(entry.get("metadata").is_some());
    assert!(hints.is_empty());
}

#[test]
fn ac2_multi_credential_produces_one_envelope_with_stable_keys() {
    let payload = object(vec![("access", sentinel("cred_0")), ("refresh", sentinel("cred_1"))]);
    let captured = vec![
        capture("cred_1", text("refresh-jwt"), header_metadata()),
        capture("cred_0", text("access-jwt"), header_metadata()),
    ];
    let (content, _) = assemble_envelope_content(payload, &captured, CookieProjector::All);
    let creds = content.get("_credentials").unwrap();
    assert_eq!(keys(creds), vec!["cred_0", "cred_1"]);
    assert_eq!(creds.get("cred_0").unwrap().get("value"), Some(&text("access-jwt")));
    assert_eq!(creds.get("cred_1").unwrap().get("value"), Some(&text("refresh-jwt")));
}

#[test]
fn ac4_cookie_credential_over_http_transport_strips_value_and_emits_hint() {
    let payload = object(vec![("user", text("alice")), ("session", sentinel("cred_0"))]);
    let captured = vec![capture("cred_0", text("opaque-session-id"), cookie_metadata())];
    let (content, hints) = assemble_envelope_content(payload, &captured, CookieProjector::All);
    let entry = content.get("_credentials").unwrap().get("cred_0").unwrap();
    assert!(entry.get("value").is_none());
    assert!(entry.get("metadata").is_some());
    assert_eq!(hints.len(), 1);
    assert_eq!(hints[0].cookie_name, "plexus_session");
    assert_eq!(hints[0].cookie_value, text("opaque-session-id"));
}

#[test]
fn ac5_cookie_credential_over_stdio_transport_keeps_value_no_hint() {
    let payload = object(vec![("user", text("alice")), ("session", sentinel("cred_0"))]);
    let captured = vec![capture("cred_0", text("opaque-session-id"), cookie_metadata())];
    let (content, hints) = assemble_envelope_content(payload, &captured, CookieProjector::Nothing);
    let entry = content.get("_credentials").unwrap().get("cred_0").unwrap();
    assert_eq!(entry.get("value"), Some(&text("opaque-session-id")));
    assert!(hints.is_empty());
}

#[test]
fn header_kind_attachment_no_projection_either_way() {
    let payload = object(vec![("user", text("alice")), ("auth", sentinel("cred_0"))]);
    let captured = vec![capture("cred_0", text("jwt"), header_metadata())];
    let (content, hints) = assemble_envelope_content(payload, &captured, CookieProjector::All);
    let entry = content.get("_credentials").unwrap().get("cred_0").unwrap();
    assert_eq!(entry.get("value"), Some(&text("jwt")));
    assert!(hints.is_empty());
}

#[test]
fn set_cookie_header_format_has_required_attributes() {
    let hint = CookieProjectionHint {
        cookie_name: "plexus_session".to_string(),
        cookie_value: text("abc123"),
        metadata: cookie_metadata().1,
    };
    let out = format_set_cookie_header(&hint, "\"abc123\"", Some(3600));
    assert!(out.starts_with("plexus_session=abc123"));
    assert!(out.contains("; HttpOnly"));
    assert!(out.contains("; Secure"));
    assert!(out.contains("; SameSite=None"));
    assert!(out.contains("; Path=/"));
    assert!(out.contains("; Max-Age="));
    assert_eq!(out, "plexus_session=abc123; HttpOnly; Secure; SameSite=None; Path=/; Max-Age=3600");
}

#[test]
fn set_cookie_header_omits_max_age_when_no_expiry() {
    let hint = CookieProjectionHint {
        cookie_name: "plexus_session".to_string(),
        cookie_value: text("abc"),
        metadata: cookie_metadata().1,
    };
    let out = format_set_cookie_header(&hint, "\"abc\"", None);
    assert!(!out.contains("Max-Age"));
}

#[test]
fn a_cookie_that_is_no_text_is_written_as_it_stands_on_the_wire() {
    let hint = CookieProjectionHint {
        cookie_name: "n".to_string(),
        cookie_value: Json::Unsigned(7),
        metadata: Json::Null,
    };
    assert!(format_set_cookie_header(&hint, "7", None).starts_with("n=7;"));
}

#[test]
fn ac8_schema_build_warning_fires_on_credentials_field_collision() {
    let with = object(vec![
        ("type", text("object")),
        (
            "properties",
            object(vec![
                ("user_id", object(vec![("type", text("string"))])),
                ("_credentials", object(vec![("type", text("object"))])),
            ]),
        ),
    ]);
    assert!(check_returns_schema_for_credentials_collision("auth", "login", &with).is_some());
    let without = object(vec![
        ("type", text("object")),
        (
            "properties",
            object(vec![
                ("user_id", object(vec![("type", text("string"))])),
                ("session", object(vec![("$ref", text("#/$defs/Credential"))])),
            ]),
        ),
    ]);
    assert!(check_returns_schema_for_credentials_collision("auth", "login", &without).is_none());
}

#[test]
fn the_collision_warning_names_the_method() {
    let warning = warn_on_credentials_field_collision("auth", "login");
    assert_eq!(warning.plugin, "auth");
    assert_eq!(warning.method, "login");
    assert_eq!(
        warning.message,
        "method's return-type schema declares a top-level `_credentials` field; this name is reserved by the framework's credential sidecar (AUTHZ-CRED-CORE-2) and will be shadowed at dispatch time. Rename the domain field to avoid the collision."
    );
}

#[test]
fn cookie_projector_default_is_safe_none() {
    assert_eq!(CookieProjector::default(), CookieProjector::Nothing);
    assert!(!CookieProjector::Nothing.projects("plexus_session"));
    assert!(CookieProjector::All.projects("plexus_session"));
}

#[test]
fn non_object_payload_gets_wrapped_when_credentials_present() {
    let captured = vec![capture("cred_0", text("v"), header_metadata())];
    let (content, _) = assemble_envelope_content(text("scalar-payload"), &captured, CookieProjector::All);
    assert_eq!(content.get("value"), Some(&text("scalar-payload")));
    assert!(content.get("_credentials").is_some());
}

#[test]
fn non_object_payload_unchanged_when_no_credentials() {
    let payload = text("scalar-payload");
    let (content, hints) = assemble_envelope_content(payload.clone(), &Vec::new(), CookieProjector::All);
    assert_eq!(content, payload);
    assert!(hints.is_empty());
}

#[test]
fn an_envelope_of_nothing_is_none() {
    let (envelope, hints) = build_credentials_envelope(&Vec::new(), CookieProjector::All);
    assert!(envelope.is_none());
    assert!(hints.is_empty());
}

#[test]
fn hints_come_in_the_order_of_identifiers() {
    let captured = vec![
        capture("b", text("2"), cookie_metadata()),
        capture("a", text("1"), cookie_metadata()),
        capture("c", text("3"), header_metadata()),
    ];
    let (envelope, hints) = build_credentials_envelope(&captured, CookieProjector::All);
    let values: Vec<&Json> = hints.iter().map(|h| &h.cookie_value).collect();
    assert_eq!(values, vec![&text("1"), &text("2")]);
    let envelope = envelope.unwrap();
    assert_eq!(keys(&envelope), vec!["a", "b", "c"]);
    assert_eq!(envelope.get("c").unwrap().get("value"), Some(&text("3")));
}

#[test]
fn serialize_with_credential_capture_returns_empty_until_blocker_resolved() {
    let simple = object(vec![("x", Json::Unsigned(42))]);
    let (value, captured) = serialize_with_credential_capture(Ok(simple));
    assert_eq!(value, object(vec![("x", Json::Unsigned(42))]));
    assert!(captured.is_empty());
    let (value, captured) = serialize_with_credential_capture(Err("no form".to_string()));
    assert_eq!(value, Json::Null);
    assert!(captured.is_empty());
}
