use plexus_core::auth::AuthContext;
use plexus_core::json::{put_entry, Json};
use plexus_core::request::parse_cookie;

fn claims(entries: Vec<(&str, &str)>) -> Json {
    let mut out: Vec<(String, Json)> = Vec::new();
    for (k, v) in entries {
        put_entry(&mut out, k, Json::Text(v.to_string()));
    }
    Json::Object(out)
}

#[test]
fn reexport_preserves_auth_context_api() {
    let ctx = AuthContext::new(
        "user-1".into(),
        "sess-1".into(),
        vec!["admin".into()],
        claims(vec![("tenant_id", "acme")]),
    );
    assert_eq!(ctx.user_id, "user-1");
    assert_eq!(ctx.session_id, "sess-1");
    assert!(ctx.has_role("admin"));
    assert!(!ctx.has_role("guest"));
    assert_eq!(ctx.tenant(), Some("acme".into()));
    assert!(ctx.is_authenticated());

    let anon = AuthContext::anonymous();
    assert!(!anon.is_authenticated());
    assert_eq!(anon.user_id, "anonymous");
}

#[test]
fn a_realm_stands_in_for_a_tenant() {
    let ctx = AuthContext::new("u".into(), "s".into(), vec![], claims(vec![("realm", "r1")]));
    assert_eq!(ctx.tenant(), Some("r1".into()));
    let none = AuthContext::new("u".into(), "s".into(), vec![], Json::Null);
    assert_eq!(none.tenant(), None);
}

#[test]
fn nobody_is_signed_in_without_a_session() {
    let ctx = AuthContext::new("user-1".into(), "".into(), vec![], Json::Null);
    assert!(!ctx.is_authenticated());
}

#[test]
fn cookies_are_found_by_name() {
    let header = "session=abc; access_token=tok123; other=xyz";
    assert_eq!(parse_cookie(header, "access_token"), Some("tok123"));
    assert_eq!(parse_cookie(header, "session"), Some("abc"));
    assert_eq!(parse_cookie(header, "other"), Some("xyz"));
    assert_eq!(parse_cookie(header, "missing"), None);
    assert_eq!(parse_cookie(header, "access"), None);
    assert_eq!(parse_cookie("", "a"), None);
    assert_eq!(parse_cookie("a=1; a=2", "a"), Some("1"));
    assert_eq!(parse_cookie("a=b=c", "a"), Some("b=c"));
    assert_eq!(parse_cookie("\u{a0}a=1", "a"), Some("1"));
}
