use plexus_core::ir::{CallbackIr, MethodIr, SchemaRef};
use plexus_core::json::Json;
use plexus_core::runtime::callback::{accessor_of, refuse_sync, CallbackRouter, PeerCapabilities};
use plexus_core::runtime::cancel::CancellationToken;
use plexus_core::runtime::declared::DeclaredHandler;
use plexus_core::runtime::error::RespondError;
use plexus_core::runtime::event::TurnEvent;
use plexus_core::runtime::ids::{CallbackId, TurnId};

fn schema_ref(name: &str) -> SchemaRef {
    SchemaRef::new(name.into(), Json::Text("object".into()))
}

fn cb(name: &str) -> CallbackIr {
    CallbackIr::new(name.into(), schema_ref("Req"), schema_ref("Resp"))
}

fn method(name: &str, dotted: &str) -> MethodIr {
    MethodIr::new(name.into(), dotted.into())
}

#[test]
fn unrestricted_peer_advertises_everything() {
    let p = PeerCapabilities::all();
    assert!(p.advertises("anything/at/all"));
    assert!(p.is_unrestricted());
    let m = method("m", "a.m").with_callback(cb("fs/read_text_file"));
    assert!(p.missing_for(&m).is_empty());
}

#[test]
fn empty_peer_misses_every_declared_callback() {
    let p = PeerCapabilities::none();
    let m = method("m", "a.m").with_callback(cb("fs/read_text_file")).with_callback(cb("fs/write_text_file"));
    assert_eq!(p.missing_for(&m), vec!["fs/read_text_file", "fs/write_text_file"]);
    assert!(p.missing_for(&method("n", "a.n")).is_empty());
}

#[test]
fn partial_peer_reports_only_what_is_missing() {
    let p = PeerCapabilities::from_names(vec!["fs/read_text_file".into()]);
    let m = method("m", "a.m").with_callback(cb("fs/read_text_file")).with_callback(cb("fs/write_text_file"));
    assert_eq!(p.missing_for(&m), vec!["fs/write_text_file"]);
    assert_eq!(p.names(), vec!["fs/read_text_file"]);
}

fn issued(router: &mut CallbackRouter<&'static str>, name: &str, to: &'static str) -> CallbackId {
    match router.issue(name, Json::Null, to) {
        Ok(TurnEvent::Callback { id, name: n, .. }) => {
            assert_eq!(n, name);
            id
        }
        _ => panic!("expected a callback event"),
    }
}

#[test]
fn responses_correlate_by_sequence_number() {
    let mut router = CallbackRouter::new(TurnId::new());
    let a = issued(&mut router, "a", "first");
    let b = issued(&mut router, "b", "second");
    let to_b = router.respond(b, Json::Text("B".into())).unwrap();
    let to_a = router.respond(a, Json::Text("A".into())).unwrap();
    assert_eq!((to_b.to, to_b.result), ("second", Ok(Json::Text("B".into()))));
    assert_eq!((to_a.to, to_a.result), ("first", Ok(Json::Text("A".into()))));
    assert_eq!(router.in_flight(), 0);
}

#[test]
fn a_response_naming_another_turn_is_refused() {
    let mine = TurnId::new();
    let theirs = TurnId::new();
    let mut router: CallbackRouter<()> = CallbackRouter::new(mine);
    match router.respond(CallbackId::new(theirs, 0), Json::Text("stolen".into())) {
        Err(e) => assert_eq!(e, RespondError::WrongTurn { expected: mine, actual: theirs }),
        Ok(_) => panic!("expected a refusal"),
    }
}

#[test]
fn an_unknown_sequence_number_is_refused() {
    let turn = TurnId::new();
    let mut router: CallbackRouter<()> = CallbackRouter::new(turn);
    let id = CallbackId::new(turn, 41);
    match router.respond(id, Json::Null) {
        Err(e) => {
            assert_eq!(e, RespondError::UnknownCallback(id));
            assert!(e.message().contains(&id.to_text()));
        }
        Ok(_) => panic!("expected a refusal"),
    }
}

#[test]
fn a_callback_is_answered_once() {
    let mut router = CallbackRouter::new(TurnId::new());
    let a = issued(&mut router, "a", "first");
    assert!(router.respond(a, Json::Null).is_ok());
    match router.respond(a, Json::Null) {
        Err(e) => assert_eq!(e, RespondError::UnknownCallback(a)),
        Ok(_) => panic!("expected a refusal"),
    }
}

#[test]
fn cancellation_resolves_in_flight_callbacks_rather_than_stranding_them() {
    let mut router = CallbackRouter::new(TurnId::new());
    issued(&mut router, "slow", "waiter");
    assert_eq!(router.in_flight(), 1);
    let (waiters, message) = router.resolve_all_cancelled();
    assert_eq!(waiters.len(), 1);
    assert_eq!(waiters[0].1, "waiter");
    assert!(message.contains("cancelled"));
    assert_eq!(router.in_flight(), 0);
}

#[test]
fn a_closed_router_accepts_no_new_callbacks() {
    let turn = TurnId::new();
    let mut router: CallbackRouter<()> = CallbackRouter::new(turn);
    router.close();
    assert!(router.issue("x", Json::Null, ()).is_err());
    match router.respond(CallbackId::new(turn, 0), Json::Null) {
        Err(e) => assert_eq!(e, RespondError::TurnEnded(turn)),
        Ok(_) => panic!("expected a refusal"),
    }
}

#[test]
fn a_failure_reaches_its_own_callback() {
    let mut router = CallbackRouter::new(TurnId::new());
    let a = issued(&mut router, "a", "first");
    let d = router.fail(a, "the user closed the client".into()).unwrap();
    assert_eq!(d.to, "first");
    assert!(d.result.unwrap_err().contains("the user closed the client"));
}

#[test]
fn the_sync_accessor_reports_that_it_needs_the_async_one() {
    let err = refuse_sync("fs/read_text_file");
    assert!(err.contains("_async"));
    assert!(accessor_of("fs/read_text_file").len() > 0);
}

#[test]
fn the_declaration_and_the_handle_come_from_one_type() {
    let h = DeclaredHandler::new((), vec![cb("session/request_permission"), cb("fs/read_text_file")]);
    assert_eq!(h.capability_names(), vec!["session/request_permission", "fs/read_text_file"]);
    let m = h.declare(method("m", "a.m"));
    let names: Vec<&str> = m.callbacks.iter().map(|c| c.name.as_str()).collect();
    assert_eq!(names, vec!["session/request_permission", "fs/read_text_file"]);
    assert_eq!(&m.callbacks, h.callbacks());
}

#[test]
fn the_declared_set_is_inferred_for_both_accessor_families() {
    let declared = vec![cb("session/request_permission"), cb("fs/read_text_file"), cb("fs/write_text_file")];
    let h = DeclaredHandler::new(
        |router: &mut CallbackRouter<u8>| {
            assert!(refuse_sync("session/request_permission").contains("session_request_permission_async"));
            assert!(refuse_sync("fs/read_text_file").contains("fs_read_text_file_async"));
            router.issue("fs/write_text_file", Json::Null, 0u8).is_ok()
        },
        declared,
    );
    assert!((h.handler())(&mut CallbackRouter::new(TurnId::new())));
    assert_eq!(h.callbacks().len(), 3);
}

#[test]
fn a_retracted_callback_leaves_the_others_with_their_waiters() {
    let turn = TurnId::new();
    let mut router: CallbackRouter<&str> = CallbackRouter::new(turn);
    for to in ["a", "b", "c"] {
        assert!(router.issue("cb", Json::Null, to).is_ok());
    }
    assert!(router.retract(1, "cb").contains("could be delivered"));
    assert_eq!(router.pending, vec![(0, "a"), (2, "c")]);
    router.retract(7, "cb");
    assert_eq!(router.pending, vec![(0, "a"), (2, "c")]);
}

#[test]
fn a_number_that_comes_round_takes_the_place_of_the_callback_that_has_it() {
    let mut router: CallbackRouter<&str> = CallbackRouter::new(TurnId::new());
    assert!(router.issue("cb", Json::Null, "old").is_ok());
    router.seq = u64::MAX;
    assert!(router.issue("cb", Json::Null, "last").is_ok());
    assert_eq!(router.seq, 0);
    assert!(router.issue("cb", Json::Null, "new").is_ok());
    assert_eq!(router.pending, vec![(u64::MAX, "last"), (0, "new")]);
}

#[test]
fn an_empty_declaration_declares_nothing() {
    let h = DeclaredHandler::new((), vec![]);
    assert!(h.callbacks().is_empty());
    assert!(h.declare(method("m", "a.m")).callbacks.is_empty());
}

#[test]
fn a_stateful_declaring_handler_captures_nothing() {
    let h = DeclaredHandler::stateful(|_state: &u8| 0u8, vec![cb("session/request_permission")]);
    assert_eq!(h.capability_names(), vec!["session/request_permission"]);
    assert_eq!((h.handler())(&1), 0);
}

#[test]
fn cancel_is_idempotent() {
    let mut t = CancellationToken::new();
    assert!(!t.is_cancelled());
    assert!(t.cancel());
    assert!(!t.cancel());
    assert!(t.is_cancelled());
}

#[test]
fn run_until_yields_none_on_cancel() {
    let mut t = CancellationToken::new();
    t.cancel();
    assert!(t.run_until(()).is_none());
}

#[test]
fn run_until_yields_the_value_when_not_cancelled() {
    assert_eq!(CancellationToken::new().run_until(7), Some(7));
}

#[test]
fn turn_ids_are_distinct_and_round_trip() {
    let a = TurnId::new();
    let b = TurnId::new();
    assert_ne!(a, b);
    let back = TurnId(uuid::Uuid::parse_str(&a.to_text()).unwrap().as_u128());
    assert_eq!(back, a);
    assert_eq!(uuid::Uuid::from_u128(a.as_uuid()).get_version_num(), 4);
}

#[test]
fn callback_id_carries_its_turn() {
    let t = TurnId::new();
    let id = CallbackId::new(t, 3);
    assert_eq!(id.turn, t);
    assert_eq!(id.to_text(), format!("{}:3", t.to_text()));
    let wire = TurnEvent::callback(id, "x".into(), Json::Null).to_json();
    let written = wire.get("id").unwrap();
    let turn = uuid::Uuid::parse_str(written.get("turn").unwrap().as_text().unwrap()).unwrap().as_u128();
    let seq = match written.get("seq") {
        Some(Json::Unsigned(n)) => *n,
        _ => panic!("an identifier without its place"),
    };
    assert_eq!(CallbackId::new(TurnId(turn), seq), id);
}

#[test]
fn identifiers_are_written_with_hyphens() {
    let turn = TurnId(0x0123456789abcdef0123456789abcdef);
    assert_eq!(turn.to_text(), "01234567-89ab-cdef-0123-456789abcdef");
    assert_eq!(TurnId(0).to_text(), "00000000-0000-0000-0000-000000000000");
    assert_eq!(CallbackId::new(turn, 10).to_text(), "01234567-89ab-cdef-0123-456789abcdef:10");
    assert_ne!(CallbackId::new(turn, 1).to_text(), CallbackId::new(turn, 11).to_text());
}
