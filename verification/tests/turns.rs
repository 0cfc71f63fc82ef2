use plexus_core::auth::AuthContext;
use plexus_core::ir::{
    ActivationIr, AuthRequirementIr, CallbackIr, MethodIr, SchemaRef, StopDetail, StopKind, StopReason,
};
use plexus_core::json::{find_entry, put_entry, Json};
use plexus_core::plexus::error::PlexusError;
use plexus_core::plexus::hub::{ActivationRecord, DynamicHub};
use plexus_core::plexus::routing::Destination;
use plexus_core::plexus::schema::{MethodHelp, Schema};
use plexus_core::plexus::streaming::{PlexusStreamItem, StreamMetadata};
use plexus_core::request::RawRequestContext;
use plexus_core::runtime::bridge::{turn_stream_to_plexus_stream, IrActivation, IrMethods};
use plexus_core::runtime::callback::PeerCapabilities;
use plexus_core::runtime::codes;
use plexus_core::runtime::entry::{
    answer_all, conclude, entry, entry_with_state, pick_wake, HandlerEnd, OpenTurn, TurnControl, TurnHandle, TurnRequest, Wake,
    WakeKind,
};
use plexus_core::runtime::error::{decode_params, EntryError, RespondError, TurnError};
use plexus_core::runtime::event::TurnEvent;
use plexus_core::runtime::handler::{HandlerTable, TurnContext, TurnOutcome};
use plexus_core::runtime::ids::{CallbackId, TurnId};
use plexus_core::runtime::profile;
use std::cell::RefCell;
use std::rc::Rc;

type Handler = fn(Json, &mut TurnContext) -> (Vec<TurnEvent>, HandlerEnd);

fn text(s: &str) -> Json {
    Json::Text(s.to_string())
}

fn object(entries: Vec<(&str, Json)>) -> Json {
    let mut out: Vec<(String, Json)> = Vec::new();
    for (k, v) in entries {
        put_entry(&mut out, k, v);
    }
    Json::Object(out)
}

fn public(name: &str) -> MethodIr {
    MethodIr::new(name.into(), format!("fixture.{}", name)).with_auth(AuthRequirementIr::Public)
}

fn permission() -> CallbackIr {
    CallbackIr::new(
        "session/request_permission".into(),
        SchemaRef::new("Req".into(), Json::Null),
        SchemaRef::new("Resp".into(), Json::Null),
    )
}

fn upstream_refused() -> Json {
    object(vec![
        ("host", text("cache-3.internal")),
        ("attempts", Json::Unsigned(3)),
        ("offending", Json::Array(vec![text("shard-a"), text("shard-b")])),
        ("retry_after_ms", Json::Unsigned(2500)),
    ])
}

fn number(params: Json) -> Result<u64, String> {
    match params {
        Json::Unsigned(n) => Ok(n),
        _ => Err("invalid type, expected u64".into()),
    }
}

fn ended(result: Result<TurnOutcome, TurnError>) -> HandlerEnd {
    match result {
        Ok(o) => HandlerEnd::Outcome(o),
        Err(e) => HandlerEnd::Error(e),
    }
}

fn double(params: Json, _: &mut TurnContext) -> (Vec<TurnEvent>, HandlerEnd) {
    let out = decode_params("u64", number(params)).and_then(|n| TurnOutcome::serialize(Ok(Json::Unsigned(n * 2))));
    (vec![], ended(out))
}

fn stream(params: Json, turn: &mut TurnContext) -> (Vec<TurnEvent>, HandlerEnd) {
    match decode_params("u64", number(params)) {
        Err(e) => (vec![], HandlerEnd::Error(e)),
        Ok(n) => {
            let events = (0..n).map(|i| turn.emit(object(vec![("at", Json::Unsigned(i))]))).collect();
            (events, ended(TurnOutcome::serialize(Ok(object(vec![("emitted", Json::Unsigned(n))])))))
        }
    }
}

fn fail(_: Json, _: &mut TurnContext) -> (Vec<TurnEvent>, HandlerEnd) {
    let e = TurnError::structured(
        "app.upstream_refused",
        "the upstream refused the connection".into(),
        Ok(upstream_refused()),
    )
    .retryable(true);
    (vec![], HandlerEnd::Error(e))
}

fn refuse(_: Json, _: &mut TurnContext) -> (Vec<TurnEvent>, HandlerEnd) {
    let d = StopDetail::new("policy:denied".into()).with_message("not in this tenant".into());
    (vec![], HandlerEnd::Outcome(TurnOutcome::Refused(d)))
}

fn nothing(_: Json, _: &mut TurnContext) -> (Vec<TurnEvent>, HandlerEnd) {
    (vec![], HandlerEnd::Outcome(TurnOutcome::complete()))
}

fn guarded(_: Json, turn: &mut TurnContext) -> (Vec<TurnEvent>, HandlerEnd) {
    let who = match turn.auth() {
        Some(a) => a.user_id.clone(),
        None => "<none>".to_string(),
    };
    (vec![], ended(TurnOutcome::serialize(Ok(Json::Text(who)))))
}

fn half(_: Json, turn: &mut TurnContext) -> (Vec<TurnEvent>, HandlerEnd) {
    let events = vec![turn.emit(text("a")), turn.emit(text("b"))];
    let details = object(vec![("after", Json::Unsigned(2))]);
    (events, HandlerEnd::Error(TurnError::structured("app.mid_stream", "gave up".into(), Ok(details))))
}

fn introspect(_: Json, turn: &mut TurnContext) -> (Vec<TurnEvent>, HandlerEnd) {
    let value = object(vec![
        ("dotted", text(&turn.method().dotted_id)),
        ("activation", text(turn.activation())),
        ("role", find_entry(&turn.method().extensions, "acp_role").unwrap().clone()),
    ]);
    (vec![], ended(TurnOutcome::serialize(Ok(value))))
}

fn fixture() -> (ActivationIr, HandlerTable<Handler>) {
    let ir = ActivationIr::new("fixture".into(), "1.0.0".into())
        .with_method(public("double"))
        .with_method(public("stream"))
        .with_method(public("fail"))
        .with_method(public("refuse"))
        .with_method(public("ask").with_callback(permission()))
        .with_method(
            MethodIr::new("guarded".into(), "fixture.guarded".into()).with_auth(AuthRequirementIr::Required),
        );
    let handlers: Vec<(String, Handler)> = vec![
        ("double".into(), double),
        ("stream".into(), stream),
        ("fail".into(), fail),
        ("refuse".into(), refuse),
        ("ask".into(), nothing),
        ("guarded".into(), guarded),
    ];
    (ir, HandlerTable::new(handlers))
}

fn one(name: &str, handler: Handler) -> (ActivationIr, HandlerTable<Handler>) {
    (
        ActivationIr::new("fixture".into(), "1.0.0".into()).with_method(public(name)),
        HandlerTable::new(vec![(name.to_string(), handler)]),
    )
}

fn request(name: &str) -> TurnRequest {
    TurnRequest::new(name.into())
}

fn open<'a>(
    ir: &'a ActivationIr,
    handlers: &'a HandlerTable<Handler>,
    r: TurnRequest,
) -> Result<OpenTurn<'a, Handler, (), &'static str>, EntryError> {
    entry(ir, handlers, r)
}

fn run(turn: OpenTurn<Handler, (), &'static str>) -> Vec<TurnEvent> {
    let OpenTurn { handler, params, mut context, control, .. } = turn;
    let (queued, end) = handler(params, &mut context);
    let mut wakes: Vec<Wake> = queued.into_iter().map(Wake::Queued).collect();
    wakes.push(Wake::Finished { end, queued: vec![] });
    TurnHandle { control }.collect(wakes).0
}

fn dispatch(name: &str, params: Json) -> Vec<TurnEvent> {
    let (ir, handlers) = fixture();
    match open(&ir, &handlers, request(name).with_params(params)) {
        Ok(t) => run(t),
        Err(_) => panic!("the turn did not open"),
    }
}

fn refusal(ir: &ActivationIr, handlers: &HandlerTable<Handler>, r: TurnRequest) -> EntryError {
    match open(ir, handlers, r) {
        Err(e) => e,
        Ok(_) => panic!("the turn opened"),
    }
}

fn terminal_of(events: &[TurnEvent]) -> &StopReason {
    events.last().unwrap().stop_reason().unwrap()
}

fn value_of(events: &[TurnEvent]) -> &Json {
    match events.last().unwrap() {
        TurnEvent::Terminal { value, .. } => value.as_ref().unwrap(),
        _ => panic!("expected a terminal"),
    }
}

#[test]
fn ac1_dispatch_by_name_with_no_generated_match() {
    let events = dispatch("double", Json::Unsigned(21));
    assert_eq!(events.len(), 1);
    assert_eq!(terminal_of(&events).kind(), StopKind::Complete);
    assert_eq!(value_of(&events), &Json::Unsigned(42));
}

#[test]
fn ac1_unknown_name_yields_method_not_found() {
    let (ir, handlers) = fixture();
    let err = refusal(&ir, &handlers, request("no_such_method"));
    assert_eq!(
        err,
        EntryError::MethodNotFound { activation: "fixture".into(), method: "no_such_method".into() }
    );
    assert_eq!(err.code(), codes::METHOD_NOT_FOUND);
    assert!(matches!(PlexusError::from(err), PlexusError::MethodNotFound { .. }));
}

#[test]
fn ac1_every_method_in_the_table_is_reachable_by_its_own_name() {
    let (ir, handlers) = fixture();
    for name in ["double", "stream", "fail", "refuse"] {
        assert!(open(&ir, &handlers, request(name).with_params(Json::Unsigned(1))).is_ok());
    }
}

#[test]
fn ac1_a_declared_method_with_no_handler_is_a_wiring_error_not_a_client_error() {
    let ir = ActivationIr::new("fixture".into(), "1.0.0".into()).with_method(public("orphan"));
    let handlers: HandlerTable<Handler> = HandlerTable::new(vec![]);
    let err = refusal(&ir, &handlers, request("orphan"));
    assert!(matches!(err, EntryError::HandlerMissing { .. }));
    assert_ne!(err.code(), codes::METHOD_NOT_FOUND);
}

#[test]
fn ac1_auth_injection_moved_into_the_entry_point() {
    let (ir, handlers) = fixture();
    let err = refusal(&ir, &handlers, request("guarded"));
    assert!(matches!(err, EntryError::Unauthenticated { .. }));
    let auth = AuthContext::new("user-7".into(), "sess".into(), vec![], object(vec![]));
    let events = match open(&ir, &handlers, request("guarded").with_auth(auth)) {
        Ok(t) => run(t),
        Err(_) => panic!("the turn did not open"),
    };
    assert_eq!(value_of(&events), &text("user-7"));
}

#[test]
fn ac2_a_handler_error_becomes_a_structured_failed_terminal() {
    let events = dispatch("fail", Json::Null);
    assert_eq!(events.len(), 1);
    let stop = terminal_of(&events);
    assert_eq!(stop.kind(), StopKind::Failed);
    let payload = stop.error().unwrap();
    assert_eq!(payload.get("code"), Some(&text("app.upstream_refused")));
    assert_eq!(payload.get("retryable"), Some(&Json::Bool(true)));
    assert_eq!(payload.get("details"), Some(&upstream_refused()));
}

#[test]
fn ac2_a_refusal_is_not_an_error() {
    let events = dispatch("refuse", Json::Null);
    let stop = terminal_of(&events);
    assert_eq!(stop.kind(), StopKind::Refused);
    assert!(stop.error().is_none());
    assert_eq!(stop.detail().unwrap().code, "policy:denied");
}

#[test]
fn ac2_invalid_params_are_a_structured_terminal_not_a_panic() {
    let events = dispatch("double", text("not a number"));
    let payload = terminal_of(&events).error().unwrap();
    assert_eq!(payload.get("code"), Some(&text(codes::INVALID_PARAMS)));
}

#[test]
fn ac2_a_panicking_handler_resolves_the_turn_instead_of_taking_the_process_down() {
    let (stop, value) = conclude(HandlerEnd::Died("handler exploded".into()));
    assert_eq!(stop.kind(), StopKind::Failed);
    assert!(value.is_none());
    assert_eq!(stop.error().unwrap().get("code"), Some(&text(codes::HANDLER_PANICKED)));
}

#[test]
fn ac3_a_streaming_turn_emits_n_updates_then_exactly_one_terminal() {
    let events = dispatch("stream", Json::Unsigned(5));
    let seqs: Vec<u64> = events
        .iter()
        .filter_map(|e| match e {
            TurnEvent::Update { seq, .. } => Some(*seq),
            _ => None,
        })
        .collect();
    assert_eq!(seqs, vec![0, 1, 2, 3, 4]);
    assert_eq!(events.iter().filter(|e| e.is_terminal()).count(), 1);
    assert!(events.last().unwrap().is_terminal());
    assert!(events.last().unwrap().stop_reason().is_some());
    assert!(events.iter().filter(|e| e.is_update()).all(|u| u.stop_reason().is_none()));
}

fn read_turn(v: &Json) -> TurnId {
    TurnId(uuid::Uuid::parse_str(v.get("turn").unwrap().as_text().unwrap()).unwrap().as_u128())
}

fn read_event(v: &Json) -> TurnEvent {
    match v.get("event").unwrap().as_text().unwrap() {
        "update" => match v.get("seq") {
            Some(Json::Unsigned(seq)) => TurnEvent::update(read_turn(v), *seq, v.get("content").unwrap().clone()),
            _ => panic!("an update without its place"),
        },
        "terminal" => {
            assert_eq!(v.get("stop").unwrap(), &object(vec![("kind", text("complete"))]));
            TurnEvent::terminal(read_turn(v), StopReason::complete(), v.get("value").cloned())
        }
        other => panic!("unexpected {}", other),
    }
}

#[test]
fn ac3_updates_and_terminal_are_distinguishable_on_the_wire() {
    let events = dispatch("stream", Json::Unsigned(2));
    let wire: Vec<Json> = events.iter().map(|e| e.to_json()).collect();
    let tags: Vec<&str> = wire.iter().map(|v| v.get("event").unwrap().as_text().unwrap()).collect();
    assert_eq!(tags, ["update", "update", "terminal"]);
    assert!(wire[0].get("stop").is_none());
    assert!(wire[0].get("content").is_some());
    assert_eq!(wire[2].get("stop").unwrap().get("kind"), Some(&text("complete")));
    assert_eq!(wire[2].get("value"), Some(&object(vec![("emitted", Json::Unsigned(2))])));
    for (v, original) in wire.iter().zip(&events) {
        assert_eq!(&read_event(v), original);
    }
}

#[test]
fn ac3_a_turn_that_emits_nothing_still_terminates_exactly_once() {
    let events = dispatch("stream", Json::Unsigned(0));
    assert_eq!(events.len(), 1);
    assert!(events[0].is_terminal());
}

#[test]
fn ac3_a_failing_streaming_turn_keeps_its_updates_and_still_terminates_once() {
    let (ir, handlers) = one("half", half);
    let events = match open(&ir, &handlers, request("half")) {
        Ok(t) => run(t),
        Err(_) => panic!("the turn did not open"),
    };
    assert_eq!(events.iter().filter(|e| e.is_update()).count(), 2);
    assert_eq!(events.iter().filter(|e| e.is_terminal()).count(), 1);
    assert!(events.last().unwrap().is_terminal());
    assert_eq!(terminal_of(&events).kind(), StopKind::Failed);
}

#[test]
fn ac4_cancelling_mid_flight_resolves_the_turn_and_its_callbacks() {
    let (ir, handlers) = fixture();
    let turn = open(&ir, &handlers, request("ask")).ok().unwrap();
    let mut control = turn.control;
    let asked = control.router.issue("session/request_permission", Json::Null, "waiter").unwrap();
    let first = control.step(Wake::Queued(asked));
    assert_eq!(first.batch.len(), 1);
    assert!(first.batch[0].is_callback());
    assert!(first.released.is_empty());
    assert_eq!(control.callbacks_in_flight(), 1);
    assert!(!control.resolved);
    control.cancel();
    let step = control.step(Wake::Cancelled { queued: vec![] });
    assert_eq!(step.batch.len(), 1);
    assert!(step.batch[0].is_terminal());
    assert_eq!(terminal_of(&step.batch).kind(), StopKind::Cancelled);
    assert!(control.resolved);
    assert_eq!(control.callbacks_in_flight(), 0);
    let answers = answer_all(step.released, &step.answer);
    assert_eq!(answers.len(), 1);
    assert_eq!(answers[0].to, "waiter");
    assert!(answers[0].result.as_ref().unwrap_err().contains("cancelled"));
}

#[test]
fn nothing_follows_the_terminal_of_a_cancelled_turn() {
    let (ir, handlers) = fixture();
    let turn = open(&ir, &handlers, request("ask")).ok().unwrap();
    let id = turn.control.turn;
    let mut handle = TurnHandle { control: turn.control };
    let asked = handle.control().router.issue("session/request_permission", Json::Null, "waiter").unwrap();
    handle.cancel();
    let (events, control, answers) = handle.collect(vec![
        Wake::Queued(asked),
        Wake::Cancelled { queued: vec![] },
        Wake::Queued(TurnEvent::update(id, 0, Json::Null)),
        Wake::Queued(TurnEvent::terminal(id, StopReason::complete(), None)),
    ]);
    let tags: Vec<&str> = events.iter().map(|e| e.tag()).collect();
    assert_eq!(tags, ["callback", "terminal"]);
    assert_eq!(terminal_of(&events).kind(), StopKind::Cancelled);
    assert!(control.resolved);
    assert_eq!(answers.len(), 1);
    assert_eq!(answers[0].to, "waiter");
}

#[test]
fn ac4_cancelling_a_turn_that_already_completed_changes_nothing() {
    let (ir, handlers) = fixture();
    let turn = open(&ir, &handlers, request("double").with_params(Json::Unsigned(2))).ok().unwrap();
    let handle = TurnHandle { control: turn.control };
    let (events, mut control, answers) = handle.collect(vec![
        Wake::Finished { end: HandlerEnd::Outcome(TurnOutcome::complete()), queued: vec![] },
        Wake::Cancelled { queued: vec![] },
    ]);
    assert_eq!(events.len(), 1);
    assert!(answers.is_empty());
    assert_eq!(terminal_of(&events).kind(), StopKind::Complete);
    control.cancel();
    assert!(control.is_cancelled());
}

#[test]
fn ac4_a_cancelled_turn_emits_exactly_one_terminal() {
    let (ir, handlers) = one("forever", nothing);
    let turn = open(&ir, &handlers, request("forever")).ok().unwrap();
    let mut handle = TurnHandle { control: turn.control };
    assert!(handle.cancel());
    let (events, _, _) = handle.collect(vec![Wake::Cancelled { queued: vec![] }]);
    assert_eq!(events.len(), 1);
    assert_eq!(terminal_of(&events).kind(), StopKind::Cancelled);
}

#[test]
fn the_cancel_signal_is_heard_first() {
    assert_eq!(pick_wake(true, true, true), Some(WakeKind::Cancelled));
    assert_eq!(pick_wake(false, true, true), Some(WakeKind::Finished));
    assert_eq!(pick_wake(false, false, true), Some(WakeKind::Queued));
    assert_eq!(pick_wake(false, false, false), None);
}

#[test]
fn what_was_queued_goes_out_before_the_terminal() {
    let (ir, handlers) = fixture();
    let turn = open(&ir, &handlers, request("double")).ok().unwrap();
    let id = turn.control.turn;
    let (events, _, _) = TurnHandle { control: turn.control }.collect(vec![Wake::Finished {
        end: HandlerEnd::Outcome(TurnOutcome::complete()),
        queued: vec![TurnEvent::update(id, 0, Json::Null)],
    }]);
    let tags: Vec<&str> = events.iter().map(|e| e.tag()).collect();
    assert_eq!(tags, ["update", "terminal"]);
}

fn write_request() -> Json {
    object(vec![("operation", text("fs/write_text_file")), ("rationale", text("write a file"))])
}

fn ask(turn: &mut TurnHandle<&'static str>, to: &'static str) -> (CallbackId, String, Json) {
    match turn.control().router.issue("session/request_permission", write_request(), to) {
        Ok(TurnEvent::Callback { id, name, request }) => (id, name, request),
        _ => panic!("expected a callback"),
    }
}

fn once_answered(turn: TurnHandle<&'static str>, answer: Result<Json, String>) -> Vec<TurnEvent> {
    let end = match answer {
        Ok(outcome) => ended(TurnOutcome::serialize(Ok(outcome))),
        Err(message) => HandlerEnd::Error(TurnError::callback_failed(message)),
    };
    turn.collect(vec![Wake::Finished { end, queued: vec![] }]).0
}

#[test]
fn ac5_a_handler_callback_receives_its_correlated_response() {
    let (ir, handlers) = fixture();
    let turn = open(&ir, &handlers, request("ask")).ok().unwrap();
    let mut handle = TurnHandle { control: turn.control };
    let (id, name, asked) = ask(&mut handle, "waiter");
    assert_eq!(name, "session/request_permission");
    assert_eq!(asked.get("operation"), Some(&text("fs/write_text_file")));
    assert_eq!(id.turn, handle.turn_id());
    let allow = object(vec![("outcome", text("allow"))]);
    let d = handle.respond(id, allow.clone()).unwrap();
    assert_eq!(d.to, "waiter");
    assert_eq!(d.result, Ok(allow.clone()));
    let events = once_answered(handle, d.result);
    assert_eq!(events.len(), 1);
    assert_eq!(terminal_of(&events).kind(), StopKind::Complete);
    assert_eq!(value_of(&events), &allow);
}

#[test]
fn ac5_two_concurrent_turns_do_not_cross_talk() {
    let (ir, handlers) = fixture();
    let mut a = TurnHandle { control: open(&ir, &handlers, request("ask")).ok().unwrap().control };
    let mut b = TurnHandle { control: open(&ir, &handlers, request("ask")).ok().unwrap().control };
    assert_ne!(a.turn_id(), b.turn_id());
    let (id_a, _, _) = ask(&mut a, "a");
    let (id_b, _, _) = ask(&mut b, "b");
    assert_eq!(id_a.seq, 0);
    assert_eq!(id_b.seq, 0);
    assert_ne!(id_a.turn, id_b.turn);
    let allow = object(vec![("outcome", text("allow"))]);
    let deny = object(vec![("outcome", text("deny")), ("reason", text("policy"))]);
    match b.respond(id_a, allow.clone()) {
        Err(e) => assert_eq!(e, RespondError::WrongTurn { expected: b.turn_id(), actual: a.turn_id() }),
        Ok(_) => panic!("expected a refusal"),
    }
    assert_eq!(b.control().callbacks_in_flight(), 1);
    let to_a = a.respond(id_a, allow.clone()).unwrap();
    let to_b = b.respond(id_b, deny.clone()).unwrap();
    assert_eq!((to_a.to, to_b.to), ("a", "b"));
    let ended_a = once_answered(a, to_a.result);
    let ended_b = once_answered(b, to_b.result);
    assert_eq!(value_of(&ended_a), &allow);
    assert_eq!(value_of(&ended_b), &deny);
}

#[test]
fn ac5_a_peer_that_cannot_serve_a_callback_can_say_so() {
    let (ir, handlers) = fixture();
    let mut handle = TurnHandle { control: open(&ir, &handlers, request("ask")).ok().unwrap().control };
    let (id, _, _) = ask(&mut handle, "waiter");
    let d = handle.control().fail_callback(id, "the user closed the client".into()).unwrap();
    assert_eq!(d.to, "waiter");
    let events = once_answered(handle, d.result);
    let stop = terminal_of(&events);
    assert_eq!(stop.kind(), StopKind::Failed);
    let envelope = stop.error().unwrap();
    assert_eq!(envelope.get("code"), Some(&text(codes::CALLBACK_FAILED)));
    assert!(envelope.get("message").unwrap().as_text().unwrap().contains("closed the client"));
}

#[test]
fn ac6_a_peer_missing_a_declared_callback_fails_pre_flight() {
    let (ir, handlers) = fixture();
    let err = refusal(&ir, &handlers, request("ask").with_peer(PeerCapabilities::none()));
    assert_eq!(
        err,
        EntryError::CapabilityMismatch {
            method: "ask".into(),
            missing: vec!["session/request_permission".into()],
            advertised: vec![],
        }
    );
    assert_eq!(err.code(), codes::CAPABILITY_MISMATCH);
    assert_eq!(
        err.to_turn_error().to_json().get("context").unwrap().get("missing"),
        Some(&Json::Array(vec![text("session/request_permission")]))
    );
}

#[test]
fn ac6_a_peer_that_advertises_enough_is_allowed_through() {
    let (ir, handlers) = fixture();
    let peer = PeerCapabilities::from_names(vec!["session/request_permission".into()]);
    assert!(open(&ir, &handlers, request("ask").with_peer(peer)).is_ok());
    let unary = request("double").with_params(Json::Unsigned(1)).with_peer(PeerCapabilities::none());
    assert!(open(&ir, &handlers, unary).is_ok());
}

#[test]
fn a_handler_can_read_the_method_ir_it_is_serving() {
    let ir = ActivationIr::new("fixture".into(), "1.0.0".into())
        .with_method(public("introspect").with_extension("acp_role", text("assistant")));
    let handlers: HandlerTable<Handler> = HandlerTable::new(vec![("introspect".to_string(), introspect as Handler)]);
    let events = match open(&ir, &handlers, request("introspect")) {
        Ok(t) => run(t),
        Err(_) => panic!("the turn did not open"),
    };
    assert_eq!(value_of(&events).get("dotted"), Some(&text("fixture.introspect")));
    assert_eq!(value_of(&events).get("activation"), Some(&text("fixture")));
    assert_eq!(value_of(&events).get("role"), Some(&text("assistant")));
}

#[test]
fn a_turn_id_is_unique_per_turn() {
    let (ir, handlers) = fixture();
    let a = open(&ir, &handlers, request("double").with_params(Json::Unsigned(1))).ok().unwrap();
    let b = open(&ir, &handlers, request("double").with_params(Json::Unsigned(1))).ok().unwrap();
    let (a_id, b_id) = (a.control.turn, b.control.turn);
    assert_ne!(a_id, b_id);
    for ev in run(a) {
        assert_eq!(ev.turn(), a_id);
        assert_ne!(ev.turn(), b_id);
    }
}

#[test]
fn a_turn_carries_its_state() {
    let (ir, handlers) = fixture();
    let t: OpenTurn<Handler, u8, ()> = entry_with_state(&ir, &handlers, 9u8, request("double")).ok().unwrap();
    assert_eq!(t.state, 9);
}

fn meta() -> StreamMetadata {
    StreamMetadata::new(vec!["fixture".into()], "hash".into())
}

#[test]
fn bridge_runs_an_ir_activation_behind_the_legacy_activation_trait() {
    let (ir, handlers) = fixture();
    let mut activation: IrActivation<Handler, ()> = IrActivation::new(ir, handlers);
    assert_eq!(activation.ir().namespace, "fixture");
    assert_eq!(activation.ir().version, "1.0.0");
    let turn: OpenTurn<Handler, (), &'static str> =
        activation.open_turn(request("stream").with_params(Json::Unsigned(2)), ()).ok().unwrap();
    let events = run(turn);
    let items = turn_stream_to_plexus_stream(&activation.dotted_id("stream"), &meta(), events);
    let types: Vec<&str> = items
        .iter()
        .map(|i| match i {
            PlexusStreamItem::Data { content_type, .. } => content_type.as_str(),
            PlexusStreamItem::Done { .. } => "done",
            _ => panic!("unexpected item"),
        })
        .collect();
    assert_eq!(
        types,
        ["fixture.stream.update", "fixture.stream.update", "fixture.stream.terminal", "done"]
    );
    match &items[2] {
        PlexusStreamItem::Data { content, .. } => {
            assert_eq!(content.get("stop").unwrap().get("kind"), Some(&text("complete")));
            assert_eq!(content.get("value"), Some(&object(vec![("emitted", Json::Unsigned(2))])));
        }
        _ => panic!("unexpected item"),
    }
}

#[test]
fn bridge_maps_entry_errors_onto_the_legacy_error_type() {
    let (ir, handlers) = fixture();
    let mut activation: IrActivation<Handler, ()> = IrActivation::new(ir, handlers);
    let unknown = activation.open_turn::<()>(request("no_such_method"), ()).err().unwrap();
    assert!(matches!(PlexusError::from(unknown), PlexusError::MethodNotFound { .. }));
    let nobody = activation.open_turn::<()>(request("guarded"), ()).err().unwrap();
    assert!(matches!(PlexusError::from(nobody), PlexusError::Unauthenticated(_)));
}

#[test]
fn bridge_projects_a_failed_terminal_without_flattening_it() {
    let items = turn_stream_to_plexus_stream("fixture.fail", &meta(), dispatch("fail", Json::Null));
    match &items[0] {
        PlexusStreamItem::Data { content, .. } => {
            let stop = content.get("stop").unwrap();
            assert_eq!(stop.get("kind"), Some(&text("failed")));
            assert_eq!(stop.get("error").unwrap().get("details"), Some(&upstream_refused()));
        }
        _ => panic!("unexpected item"),
    }
}

type Cell = Rc<RefCell<Option<TurnControl<&'static str>>>>;

#[test]
fn bridge_routes_a_callback_response_back_to_its_own_turn() {
    let (ir, handlers) = fixture();
    let mut activation: IrActivation<Handler, Cell> = IrActivation::new(ir, handlers);
    let cell: Cell = Rc::new(RefCell::new(None));
    let opened = activation.open_turn(request("ask").with_params(Json::Null), cell.clone()).ok().unwrap();
    *cell.borrow_mut() = Some(opened.control);
    assert_eq!(activation.live_turns(), 1);
    let turn = cell.borrow().as_ref().unwrap().turn;

    let mut slot = cell.borrow_mut();
    let asked = slot.as_mut().unwrap().router.issue("session/request_permission", Json::Null, "waiter").unwrap();
    let batch = slot.as_mut().unwrap().step(Wake::Queued(asked)).batch;
    drop(slot);
    let items: Vec<PlexusStreamItem> =
        batch.into_iter().flat_map(|e| activation.project("fixture.ask", &meta(), e)).collect();
    let request_id = match &items[0] {
        PlexusStreamItem::Request { request_id, request_data, timeout_ms } => {
            assert_eq!(request_data.get("callback"), Some(&text("session/request_permission")));
            assert_eq!(*timeout_ms, 0);
            request_id.clone()
        }
        _ => panic!("expected a request"),
    };
    assert_eq!(activation.live_turns(), 1);

    let (quoted, seq) = request_id.split_once(':').unwrap();
    let id = CallbackId::new(TurnId(uuid::Uuid::parse_str(quoted).unwrap().as_u128()), seq.parse().unwrap());
    assert_eq!(id.turn, turn);
    let allow = object(vec![("outcome", text("allow"))]);
    let control = activation.respond(id).ok().unwrap().clone();
    let delivery = control.borrow_mut().as_mut().unwrap().respond(id, allow.clone()).ok().unwrap();
    assert_eq!(delivery.to, "waiter");
    assert_eq!(delivery.result, Ok(allow.clone()));

    let end = HandlerEnd::Outcome(TurnOutcome::value(delivery.result.unwrap()));
    let batch = cell.borrow_mut().as_mut().unwrap().step(Wake::Finished { end, queued: vec![] }).batch;
    let rest: Vec<PlexusStreamItem> =
        batch.into_iter().flat_map(|e| activation.project("fixture.ask", &meta(), e)).collect();
    match &rest[0] {
        PlexusStreamItem::Data { content, .. } => assert_eq!(content.get("value"), Some(&allow)),
        _ => panic!("expected data"),
    }
    assert_eq!(activation.live_turns(), 0);
    assert_eq!(activation.respond(id).err(), Some(RespondError::TurnEnded(turn)));
    assert_eq!(activation.fail_callback(id).err(), Some(RespondError::TurnEnded(turn)));
    assert_eq!(activation.cancel_turn(turn).err(), Some(RespondError::TurnEnded(turn)));
}

#[test]
fn a_drained_turn_is_live_no_more() {
    let (ir, handlers) = fixture();
    let mut activation: IrActivation<Handler, &'static str> = IrActivation::new(ir, handlers);
    let opened = activation.open_turn::<&'static str>(request("double"), "first").ok().unwrap();
    let first = opened.control;
    let opened = activation.open_turn::<&'static str>(request("double"), "second").ok().unwrap();
    let second = opened.control;
    assert_eq!(activation.live_turns(), 2);
    assert_eq!(activation.cancel_turn(first.turn), Ok(&"first"));
    let (gone, kept) = (first.turn, second.turn);
    let end = HandlerEnd::Outcome(TurnOutcome::complete());
    let (events, control, _) =
        activation.collect(TurnHandle { control: first }, vec![Wake::Finished { end, queued: vec![] }]);
    assert_eq!(events.len(), 1);
    assert!(control.resolved);
    assert_eq!(activation.live_turns(), 1);
    assert_eq!(activation.respond(CallbackId::new(gone, 0)), Err(RespondError::TurnEnded(gone)));
    assert_eq!(activation.respond(CallbackId::new(kept, 0)), Ok(&"second"));
    activation.turn_resolved(kept);
    assert_eq!(activation.live_turns(), 0);
}

#[test]
fn an_answer_to_a_turn_that_was_never_opened_is_addressed_to_the_wrong_turn() {
    let (ir, handlers) = fixture();
    let mut activation: IrActivation<Handler, ()> = IrActivation::new(ir, handlers);
    let stranger = TurnId::new();
    let id = CallbackId::new(stranger, 0);
    assert_eq!(
        activation.respond(id),
        Err(RespondError::WrongTurn { expected: TurnId(0), actual: stranger })
    );
    let turn = activation.open_turn::<()>(request("double"), ()).ok().unwrap().control.turn;
    let wrong = RespondError::WrongTurn { expected: turn, actual: stranger };
    assert_eq!(activation.respond(id), Err(wrong));
    assert_eq!(activation.fail_callback(id), Err(wrong));
    assert_eq!(activation.live_turns(), 1);
}

#[test]
fn an_opened_turn_knows_its_request() {
    let (ir, handlers) = fixture();
    let mut activation: IrActivation<Handler, ()> = IrActivation::new(ir, handlers);
    let raw = RawRequestContext { headers: vec![], uri: "/x".into(), auth: None, peer: None };
    let opened = activation.open_turn::<()>(request("double").with_raw_context(raw), ()).ok().unwrap();
    assert_eq!(opened.context.raw_ctx.as_ref().unwrap().uri, "/x");
    assert_eq!(opened.context.activation, "fixture");
    assert_eq!(opened.context.update_seq, 0);
}

#[test]
fn every_callback_in_flight_is_answered_when_its_turn_ends() {
    let (ir, handlers) = fixture();
    let turn = open(&ir, &handlers, request("ask")).ok().unwrap();
    let mut handle = TurnHandle { control: turn.control };
    let id = handle.turn_id();
    ask(&mut handle, "a");
    ask(&mut handle, "b");
    let end = HandlerEnd::Outcome(TurnOutcome::complete());
    let (_, control, answers) = handle.collect(vec![Wake::Finished { end, queued: vec![] }]);
    assert_eq!(control.callbacks_in_flight(), 0);
    let to: Vec<&str> = answers.iter().map(|d| d.to).collect();
    assert_eq!(to, ["a", "b"]);
    let message = format!("turn {} resolved while this callback was in flight", id.to_text());
    assert!(answers.iter().all(|d| d.result == Err(message.clone())));
}

#[test]
fn every_event_of_a_drained_turn_is_its_own() {
    let (ir, handlers) = fixture();
    let turn = open(&ir, &handlers, request("stream").with_params(Json::Unsigned(3))).ok().unwrap();
    let id = turn.control.turn;
    let events = run(turn);
    assert!(events.iter().all(|e| e.turn() == id));
    let seqs: Vec<u64> = events
        .iter()
        .filter_map(|e| match e {
            TurnEvent::Update { seq, .. } => Some(*seq),
            _ => None,
        })
        .collect();
    assert_eq!(seqs, [0, 1, 2]);
    assert_eq!(events.iter().filter(|e| e.is_terminal()).count(), 1);
}

#[test]
fn ac6_the_mismatch_is_detected_before_the_handler_runs() {
    let ran = Rc::new(std::cell::Cell::new(false));
    let flag = ran.clone();
    let ir = ActivationIr::new("fixture".into(), "1.0.0".into())
        .with_method(public("ask").with_callback(permission()));
    let handler: Box<dyn Fn()> = Box::new(move || flag.set(true));
    let handlers = HandlerTable::new(vec![("ask".to_string(), handler)]);
    let peer = PeerCapabilities::from_names(vec!["fs/read_text_file".into()]);
    let opened: Result<OpenTurn<Box<dyn Fn()>, (), ()>, EntryError> =
        entry(&ir, &handlers, request("ask").with_peer(peer));
    match opened {
        Ok(turn) => (turn.handler)(),
        Err(e) => assert_eq!(
            e,
            EntryError::CapabilityMismatch {
                method: "ask".into(),
                missing: vec!["session/request_permission".into()],
                advertised: vec!["fs/read_text_file".into()],
            }
        ),
    }
    assert!(!ran.get());
}

#[test]
fn ac6_the_mismatch_neither_hangs_nor_panics() {
    let (ir, handlers) = fixture();
    let result = open(&ir, &handlers, request("ask").with_peer(PeerCapabilities::none()));
    assert!(result.is_err());
}

#[test]
fn bridge_registers_on_a_dynamic_hub_beside_legacy_activations() {
    let (ir, handlers) = fixture();
    let activation: IrActivation<Handler, ()> = IrActivation::new(ir, handlers);
    let methods = activation
        .methods()
        .into_iter()
        .map(|name| MethodHelp { help: activation.method_help(&name), name })
        .collect();
    let record = ActivationRecord::described(
        "fixture".into(),
        "1.0.0".into(),
        "".into(),
        None,
        methods,
        Schema::object(),
    )
    .ok()
    .unwrap()
    .with_connectome_subtree(activation.connectome_subtree());
    assert_eq!(record.plugin_id, activation.plugin_id());
    let hub: DynamicHub<()> = DynamicHub::new("app".into()).register(record);
    match hub.route("fixture.double", None).target {
        Ok(Destination::Activation { record, method }) => {
            assert_eq!(record.namespace, "fixture");
            assert_eq!(method, "double");
        }
        _ => panic!("expected the activation"),
    }
    assert_eq!(hub.child_connectome("fixture").unwrap().methods.len(), 6);
}

#[test]
fn a_service_lends_its_peer_to_requests_without_one() {
    let (ir, handlers) = fixture();
    let mut activation: IrActivation<Handler, ()> =
        IrActivation::new(ir, handlers).with_peer_capabilities(PeerCapabilities::none());
    assert!(activation.open_turn::<()>(request("ask"), ()).is_err());
    assert_eq!(activation.live_turns(), 0);
    let peer = PeerCapabilities::from_names(vec!["session/request_permission".into()]);
    assert!(activation.open_turn::<()>(request("ask").with_peer(peer), ()).is_ok());
    assert_eq!(activation.dotted_id("unknown"), "fixture.unknown");
    assert_eq!(activation.method_help("double"), None);
    assert_eq!(activation.handlers().len(), 6);
    assert!(IrMethods::method_names().is_empty());
}

#[test]
fn every_rung_resolves_the_same_method() {
    let ir = ActivationIr::new("prof".into(), "1.0.0".into())
        .with_method(MethodIr::new("m".into(), "prof.m".into()).with_auth(AuthRequirementIr::Public));
    let handlers: HandlerTable<Handler> = HandlerTable::new(vec![("m".to_string(), nothing as Handler)]);
    let req = request("m");
    let expected = profile::s0_preflight(&ir, &handlers, &req);
    assert_eq!(expected, 1);
    assert_eq!(profile::s1_turn_id(&ir, &handlers, &req), expected);
    assert_eq!(profile::s2_cancel(&ir, &handlers, &req), expected);
    assert_eq!(profile::with_events(expected, 1), expected + 1);
}

#[test]
fn a_missing_sign_in_weighs_nothing() {
    let (ir, handlers) = fixture();
    assert_eq!(profile::s0_preflight(&ir, &handlers, &request("guarded")), 0);
    let peerless = request("ask").with_peer(PeerCapabilities::none());
    assert_eq!(profile::s0_preflight(&ir, &handlers, &peerless), 4);
}

#[test]
fn buffer_matches_entry() {
    assert_eq!(profile::TURN_EVENT_BUFFER, 32);
    assert_eq!(plexus_core::runtime::entry::TURN_EVENT_BUFFER, 32);
}
