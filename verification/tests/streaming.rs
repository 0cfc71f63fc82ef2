use plexus_core::json::{put_entry, Json};
use plexus_core::plexus::streaming::{
    done_stream, error_stream, error_stream_with_code, progress_stream, wrap_stream, PlexusStreamItem, StreamMetadata,
};

fn object(entries: Vec<(&str, Json)>) -> Json {
    let mut out: Vec<(String, Json)> = Vec::new();
    for (k, v) in entries {
        put_entry(&mut out, k, v);
    }
    Json::Object(out)
}

fn event(value: u64) -> Json {
    object(vec![("value", Json::Unsigned(value))])
}

fn meta(ns: &str) -> StreamMetadata {
    StreamMetadata::new(vec![ns.to_string()], "hash".to_string())
}

#[test]
fn test_wrap_stream() {
    let items = wrap_stream(vec![Ok(event(1)), Ok(event(2))], "test.event", meta("test"));
    assert_eq!(items.len(), 3);
    match &items[0] {
        PlexusStreamItem::Data { content_type, content, metadata } => {
            assert_eq!(content_type, "test.event");
            assert_eq!(content.get("value"), Some(&Json::Unsigned(1)));
            assert_eq!(metadata.provenance, vec!["test"]);
        }
        _ => panic!("expected data"),
    }
    assert!(matches!(items[2], PlexusStreamItem::Done { .. }));
}

#[test]
fn wrap_stream_credential_free_payload_is_wire_identical() {
    let items = wrap_stream(vec![Ok(event(7))], "test.event", meta("t"));
    assert_eq!(items.len(), 2);
    match &items[0] {
        PlexusStreamItem::Data { content, .. } => assert_eq!(content, &event(7)),
        _ => panic!("expected data"),
    }
}

#[test]
fn wrap_stream_credential_bearing_payload_emits_sentinel_in_body() {
    let sentinel = object(vec![("$credential", Json::Text("cred_0".into()))]);
    let payload = object(vec![("user_id", Json::Text("alice".into())), ("session", sentinel.clone())]);
    let items = wrap_stream(vec![Ok(payload)], "auth.login.result", meta("auth"));
    match &items[0] {
        PlexusStreamItem::Data { content, .. } => {
            assert_eq!(content.get("session"), Some(&sentinel));
            assert!(content.get("_credentials").is_none());
        }
        _ => panic!("expected data"),
    }
}

#[test]
fn test_error_stream() {
    let items = error_stream("Something failed".into(), meta("test"), false);
    assert_eq!(items.len(), 1);
    match &items[0] {
        PlexusStreamItem::Error { message, recoverable, code, .. } => {
            assert_eq!(message, "Something failed");
            assert!(!recoverable);
            assert!(code.is_none());
        }
        _ => panic!("expected an error"),
    }
}

#[test]
fn test_error_stream_with_code() {
    let items = error_stream_with_code("Not found".into(), "NOT_FOUND".into(), meta("test"), true);
    assert_eq!(items.len(), 1);
    match &items[0] {
        PlexusStreamItem::Error { message, code, recoverable, .. } => {
            assert_eq!(message, "Not found");
            assert_eq!(code.as_deref(), Some("NOT_FOUND"));
            assert!(recoverable);
        }
        _ => panic!("expected an error"),
    }
}

#[test]
fn a_stream_of_nothing_ends() {
    assert_eq!(wrap_stream(vec![], "x", meta("a")), done_stream(meta("a")));
}

#[test]
fn progress_keeps_its_percentage() {
    let items = progress_stream("half".into(), Some(0.5f32.to_bits()), meta("a"));
    match &items[0] {
        PlexusStreamItem::Progress { percentage, message, .. } => {
            assert_eq!(percentage.map(f32::from_bits), Some(0.5));
            assert_eq!(message, "half");
        }
        _ => panic!("expected progress"),
    }
}

#[test]
fn a_payload_without_a_form_is_null() {
    let items = wrap_stream(vec![Err("key must be a string".to_string()), Ok(event(1))], "x", meta("a"));
    assert_eq!(items.len(), 3);
    match (&items[0], &items[1]) {
        (PlexusStreamItem::Data { content: first, .. }, PlexusStreamItem::Data { content: second, .. }) => {
            assert_eq!(first, &Json::Null);
            assert_eq!(second, &event(1));
        }
        _ => panic!("expected data"),
    }
}
