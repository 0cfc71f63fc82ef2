use plexus_core::ir::{StopDetail, StopKind, StopReason};
use plexus_core::json::{put_entry, Json};
use plexus_core::plexus::error::PlexusError;
use plexus_core::runtime::codes;
use plexus_core::runtime::error::{decode_param, decode_params, select_param, EntryError, TurnError};
use plexus_core::runtime::event::TurnEvent;
use plexus_core::runtime::handler::{HandlerTable, IntoTurnStop, TurnOutcome, TurnStop};
use plexus_core::runtime::ids::{CallbackId, TurnId};

fn text(s: &str) -> Json {
    Json::Text(s.to_string())
}

fn object(entries: Vec<(&str, Json)>) -> Json {
    let mut out: Vec<(String, Json)> = Vec::new();
    for (k, v) in entries {
        put_entry(&mut out, k, v);
    }
    Json::Object(out)
}

fn domain() -> Json {
    object(vec![
        ("limit", Json::Unsigned(3)),
        ("observed", Json::Unsigned(9)),
        ("nested", Json::Array(vec![text("a"), text("b")])),
    ])
}

#[test]
fn structured_details_round_trip_through_the_terminal() {
    let stop = TurnError::structured("app.x", "boom".into(), Ok(domain())).into_stop_reason();
    assert_eq!(stop.kind(), StopKind::Failed);
    let env = stop.error().unwrap();
    assert_eq!(env.get("code"), Some(&text("app.x")));
    assert_eq!(env.get("details"), Some(&domain()));
    assert_eq!(stop.detail().unwrap().code, "app.x");
}

#[test]
fn details_that_cannot_be_serialized_are_noted() {
    let e = TurnError::structured("app.x", "boom".into(), Err("no".into()));
    assert!(e.to_json().get("details").is_none() || e.to_json().get("details") != Some(&domain()));
    assert_eq!(e.code, "app.x");
}

#[test]
fn decode_params_reports_the_target_type() {
    let e = decode_params::<u32>("u32", Err("invalid type: string \"nope\", expected u32".into())).unwrap_err();
    assert_eq!(e.code, codes::INVALID_PARAMS);
    assert!(e.message.contains("u32"));
    assert_eq!(decode_params::<u32>("u32", Ok(7)).unwrap(), 7);
}

#[test]
fn decode_param_names_the_field() {
    let params = object(vec![("n", text("not a number"))]);
    assert_eq!(select_param(&params, "n"), text("not a number"));
    assert_eq!(select_param(&params, "m"), Json::Null);
    let e = decode_param::<u32>("n", "u32", Err("invalid type".into())).unwrap_err();
    assert!(e.message.contains("`n`"));
}

#[test]
fn entry_errors_carry_structured_context() {
    let e = EntryError::CapabilityMismatch {
        method: "prompt".into(),
        missing: vec!["fs/write_text_file".into()],
        advertised: vec!["fs/read_text_file".into()],
    };
    let t = e.to_turn_error();
    assert_eq!(t.code, codes::CAPABILITY_MISMATCH);
    assert_eq!(
        t.to_json().get("context").unwrap().get("missing"),
        Some(&Json::Array(vec![text("fs/write_text_file")]))
    );
}

#[test]
fn entry_error_maps_onto_the_legacy_error_type() {
    let e = EntryError::MethodNotFound { activation: "echo".into(), method: "nope".into() };
    assert!(matches!(PlexusError::from(e), PlexusError::MethodNotFound { .. }));
}

#[test]
fn every_entry_error_has_its_code_and_legacy_form() {
    let missing = EntryError::HandlerMissing { activation: "a".into(), method: "m".into() };
    assert_eq!(missing.code(), codes::HANDLER_MISSING);
    assert!(matches!(PlexusError::from(missing), PlexusError::ExecutionError(_)));
    let nobody = EntryError::Unauthenticated { method: "m".into() };
    assert_eq!(nobody.code(), codes::UNAUTHENTICATED);
    assert!(matches!(PlexusError::from(nobody), PlexusError::Unauthenticated(_)));
    let peer = EntryError::CapabilityMismatch { method: "m".into(), missing: vec![], advertised: vec![] };
    assert_eq!(peer.code(), codes::CAPABILITY_MISMATCH);
    let several = EntryError::CapabilityMismatch {
        method: "m".into(),
        missing: vec!["a/b".into(), "c \"d\"".into()],
        advertised: vec![],
    };
    assert!(several.message().ends_with("`: peer does not advertise [\"a/b\", \"c \\\"d\\\"\"] (advertised: [])"));
}

#[test]
fn context_serialization_is_insertion_order_independent() {
    let a = TurnError::new("c", "m".into())
        .with_context("z", Json::Bool(true))
        .with_context("a", Json::Bool(false));
    let b = TurnError::new("c", "m".into())
        .with_context("a", Json::Bool(false))
        .with_context("z", Json::Bool(true));
    assert_eq!(a.to_json(), b.to_json());
}

#[test]
fn update_and_terminal_are_distinguishable_on_the_wire() {
    let t = TurnId::new();
    let u = TurnEvent::update(t, 0, object(vec![("chunk", text("hi"))])).to_json();
    let term = TurnEvent::terminal(t, StopReason::complete(), None).to_json();
    assert_eq!(u.get("event"), Some(&text("update")));
    assert_eq!(term.get("event"), Some(&text("terminal")));
    assert_eq!(term.get("stop"), Some(&object(vec![("kind", text("complete"))])));
    assert!(u.get("stop").is_none());
    assert!(term.get("value").is_none());
}

#[test]
fn callback_event_carries_its_correlation_id() {
    let t = TurnId::new();
    let ev = TurnEvent::callback(CallbackId::new(t, 2), "fs/read_text_file".into(), object(vec![]));
    let v = ev.to_json();
    assert_eq!(v.get("event"), Some(&text("callback")));
    assert_eq!(v.get("id").unwrap().get("seq"), Some(&Json::Unsigned(2)));
    assert_eq!(ev.turn(), t);
    let turn = v.get("id").unwrap().get("turn").unwrap().as_text().unwrap();
    let seq = match v.get("id").unwrap().get("seq") {
        Some(Json::Unsigned(n)) => *n,
        _ => panic!("a callback without its place"),
    };
    let back = TurnEvent::callback(
        CallbackId::new(TurnId(uuid::Uuid::parse_str(turn).unwrap().as_u128()), seq),
        v.get("name").unwrap().as_text().unwrap().into(),
        v.get("request").unwrap().clone(),
    );
    assert_eq!(back, ev);
}

#[test]
fn events_that_differ_are_written_differently() {
    let (t, other) = (TurnId(1), TurnId(2));
    let events = [
        TurnEvent::update(t, 0, Json::Null),
        TurnEvent::update(t, 1, Json::Null),
        TurnEvent::update(t, 0, Json::Bool(true)),
        TurnEvent::update(other, 0, Json::Null),
        TurnEvent::callback(CallbackId::new(t, 0), "a".into(), Json::Null),
        TurnEvent::callback(CallbackId::new(t, 1), "a".into(), Json::Null),
        TurnEvent::callback(CallbackId::new(t, 0), "b".into(), Json::Null),
        TurnEvent::terminal(t, StopReason::complete(), None),
        TurnEvent::terminal(t, StopReason::complete(), Some(Json::Null)),
        TurnEvent::terminal(t, StopReason::cancelled(), None),
        TurnEvent::terminal(t, StopReason::failed(Json::Null), None),
        TurnEvent::terminal(t, StopReason::refused(StopDetail::new("policy:denied".into())), None),
    ];
    for (i, a) in events.iter().enumerate() {
        for (j, b) in events.iter().enumerate() {
            assert_eq!(a.to_json() == b.to_json(), i == j);
        }
    }
}

#[test]
fn classifiers_agree_with_the_tags() {
    let t = TurnId::new();
    let events = [
        TurnEvent::update(t, 0, Json::Unsigned(1)),
        TurnEvent::callback(CallbackId::new(t, 0), "x".into(), Json::Unsigned(1)),
        TurnEvent::terminal(t, StopReason::complete(), Some(Json::Unsigned(1))),
    ];
    let tags: Vec<&str> = events.iter().map(|e| e.tag()).collect();
    assert_eq!(tags, ["update", "callback", "terminal"]);
    assert!(events[0].is_update());
    assert!(events[1].is_callback());
    assert!(events[2].is_terminal());
    assert!(events[2].stop_reason().is_some());
    assert!(events[0].stop_reason().is_none());
}

#[test]
fn table_indexes_by_name_and_keeps_order() {
    let t = HandlerTable::new(vec![("a".to_string(), 1), ("b".to_string(), 2), ("c".to_string(), 3)]);
    assert_eq!(t.len(), 3);
    assert_eq!(t.order(), vec!["a", "b", "c"]);
    assert!(t.contains("b"));
    assert!(t.get("zz").is_none());
    assert_eq!(t.get("b"), Some(&2));
}

#[test]
fn duplicate_names_collapse_without_duplicating_the_order() {
    let t = HandlerTable::new(vec![("a".to_string(), 1), ("a".to_string(), 2)]);
    assert_eq!(t.len(), 1);
    assert_eq!(t.order(), vec!["a"]);
    assert_eq!(t.get("a"), Some(&2));
}

#[test]
fn outcomes_map_onto_the_closed_stop_kinds() {
    let cases = [
        (TurnOutcome::complete(), StopKind::Complete),
        (TurnOutcome::Refused(StopDetail::new("policy:denied".into())), StopKind::Refused),
        (TurnOutcome::Limited(StopDetail::new("acp:max_tokens".into())), StopKind::Limited),
        (TurnOutcome::Stopped { stop: StopReason::cancelled(), value: None }, StopKind::Cancelled),
    ];
    for (outcome, expected) in cases {
        assert_eq!(outcome.into_terminal().0.kind(), expected);
    }
}

#[test]
fn a_refusal_is_not_rendered_as_an_error() {
    let (stop, value) = TurnOutcome::Refused(StopDetail::new("policy:denied".into())).into_terminal();
    assert!(stop.error().is_none());
    assert!(!stop.is_success());
    assert!(value.is_none());
}

#[test]
fn complete_can_carry_domain_detail() {
    let (stop, _) =
        TurnOutcome::value(text("x")).with_detail(StopDetail::new("acp:end_turn".into())).into_terminal();
    assert!(stop.is_success());
    assert_eq!(stop.detail().unwrap().code, "acp:end_turn");
}

struct Boom;

impl From<Boom> for TurnError {
    fn from(_: Boom) -> Self {
        TurnError::new("app.boom", "boom".into())
    }
}

struct Denied {
    who: &'static str,
}

impl IntoTurnStop for Denied {
    fn into_turn_stop(self) -> TurnStop {
        TurnStop::Refused(
            StopDetail::new("app.denied".into())
                .with_message("the user said no".into())
                .with_data("who", text(self.who)),
        )
    }
}

#[test]
fn plx112_failed_stays_the_default_for_an_error_that_says_nothing_about_kind() {
    let stop = Boom.into_turn_stop();
    assert_eq!(stop, TurnStop::Failed(TurnError::new("app.boom", "boom".into())));
    let e = stop.into_handler_result().unwrap_err();
    let reason = e.into_stop_reason();
    assert_eq!(reason.kind(), StopKind::Failed);
    assert!(reason.error().is_some());
}

#[test]
fn plx112_turn_error_itself_needs_no_impl() {
    let stop = TurnError::new("app.x", "x".into()).into_turn_stop();
    assert!(matches!(stop, TurnStop::Failed(_)));
}

#[test]
fn plx112_a_refusal_lands_as_refused_and_carries_no_error() {
    let outcome = Denied { who: "operator" }.into_turn_stop().into_handler_result().unwrap();
    let (stop, value) = outcome.into_terminal();
    assert_eq!(stop.kind(), StopKind::Refused);
    assert!(stop.error().is_none());
    assert!(value.is_none());
    let d = stop.detail().unwrap();
    assert_eq!(d.code, "app.denied");
    assert_eq!(d.message.as_deref(), Some("the user said no"));
    assert_eq!(d.to_json().get("data").unwrap().get("who"), Some(&text("operator")));
}

#[test]
fn plx112_a_limit_lands_as_limited_and_carries_no_error() {
    let (stop, value) = TurnStop::limited("acp:max_tokens".into()).into_handler_result().unwrap().into_terminal();
    assert_eq!(stop.kind(), StopKind::Limited);
    assert!(stop.error().is_none());
    assert!(value.is_none());
    assert_eq!(stop.detail().unwrap().code, "acp:max_tokens");
}

#[test]
fn plx112_refused_is_neither_success_nor_error() {
    let (stop, _) = TurnStop::refused("policy:denied".into()).into_handler_result().unwrap().into_terminal();
    assert!(!stop.is_success());
    assert!(stop.error().is_none());
}

#[test]
fn a_terminal_says_every_field_of_its_error() {
    let e = TurnError::new("app.x", "went wrong".into())
        .retryable(false)
        .with_details(domain())
        .with_context("k", text("v"));
    let stop = e.into_stop_reason();
    assert_eq!(stop.kind(), StopKind::Failed);
    let payload = stop.error().unwrap();
    assert_eq!(payload.get("code"), Some(&text("app.x")));
    assert_eq!(payload.get("message"), Some(&text("went wrong")));
    assert_eq!(payload.get("retryable"), Some(&Json::Bool(false)));
    assert_eq!(payload.get("details"), Some(&domain()));
    assert_eq!(payload.get("context"), Some(&object(vec![("k", text("v"))])));
    let detail = stop.detail().unwrap();
    assert_eq!(detail.code, "app.x");
    assert_eq!(detail.message.as_deref(), Some("went wrong"));
}
