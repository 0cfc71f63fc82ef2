//! Opening a turn, and running it to its one terminal.

use crate::auth::AuthContext;
use crate::ir;
use crate::ir::{ActivationIr, AuthRequirementIr, StopKind, StopReason, StopView};
use crate::json;
use crate::json::{Json, JsonView};
use crate::request::RawRequestContext;
use crate::runtime::callback;
use crate::runtime::callback::{CallbackRouter, Delivery, PeerCapabilities};
use crate::runtime::cancel::CancellationToken;
use crate::runtime::codes;
use crate::runtime::error;
use crate::runtime::error::{EntryError, EntryErrorView, RespondError, TurnError};
use crate::runtime::event;
use crate::runtime::event::TurnEvent;
use crate::runtime::handler;
use crate::runtime::handler::{HandlerTable, TurnContext, TurnOutcome};
use crate::runtime::ids::{CallbackId, TurnId};
use crate::text;
use crate::text::join2;
use vstd::prelude::*;

verus! {

/// Buffer depth of a turn's event channel.
pub const TURN_EVENT_BUFFER: usize = 32;

/// Everything that is needed to open a turn.
pub struct TurnRequest {
    /// Local method name.
    pub method: String,
    pub params: Json,
    pub auth: Option<AuthContext>,
    pub raw_ctx: Option<RawRequestContext>,
    /// What the peer can serve.
    pub peer: PeerCapabilities,
}

impl TurnRequest {
    /// A request without params, from nobody, with an unrestricted peer.
    pub fn new(method: String) -> (r: Self)
        ensures
            r.method == method,
            r.params == Json::Null,
            r.auth is None,
            r.raw_ctx is None,
            r.peer@ is None,
    {
        TurnRequest { method, params: Json::Null, auth: None, raw_ctx: None, peer: PeerCapabilities::all() }
    }

    /// The same request with params.
    pub fn with_params(self, params: Json) -> (r: Self)
        ensures
            r == (TurnRequest { params, ..self }),
    {
        TurnRequest { method: self.method, params, auth: self.auth, raw_ctx: self.raw_ctx, peer: self.peer }
    }

    /// The same request with serialized params, or the reason why they could not be serialized.
    pub fn with_typed_params(self, params: Result<Json, String>) -> (r: Result<Self, String>)
        ensures
            r == (match params {
                Ok(v) => Ok::<TurnRequest, String>(TurnRequest { params: v, ..self }),
                Err(e) => Err::<TurnRequest, String>(e),
            }),
    {
        match params {
            Ok(v) => Ok(self.with_params(v)),
            Err(e) => Err(e),
        }
    }

    /// The same request from a caller.
    pub fn with_auth(self, auth: AuthContext) -> (r: Self)
        ensures
            r == (TurnRequest { auth: Some(auth), ..self }),
    {
        TurnRequest {
            method: self.method,
            params: self.params,
            auth: Some(auth),
            raw_ctx: self.raw_ctx,
            peer: self.peer,
        }
    }

    /// The same request with its raw context.
    pub fn with_raw_context(self, ctx: RawRequestContext) -> (r: Self)
        ensures
            r == (TurnRequest { raw_ctx: Some(ctx), ..self }),
    {
        TurnRequest {
            method: self.method,
            params: self.params,
            auth: self.auth,
            raw_ctx: Some(ctx),
            peer: self.peer,
        }
    }

    /// The same request with another peer.
    pub fn with_peer(self, peer: PeerCapabilities) -> (r: Self)
        ensures
            r == (TurnRequest { peer, ..self }),
    {
        TurnRequest {
            method: self.method,
            params: self.params,
            auth: self.auth,
            raw_ctx: self.raw_ctx,
            peer,
        }
    }
}

/// What is found before a turn is opened: the position of the method, or why no turn is
/// opened. An unknown name comes first, then a missing handler, then a missing sign-in, then
/// callbacks that the peer cannot serve.
pub open spec fn preflight_for<H>(
    service: ActivationIr,
    handlers: HandlerTable<H>,
    name: Seq<char>,
    signed_in: bool,
    peer: Option<Seq<Seq<char>>>,
) -> Result<int, EntryErrorView> {
    let at = ir::method_at(service.methods@, name);
    if at == service.methods@.len() {
        Err(EntryErrorView::MethodNotFound { activation: service.namespace@, method: name })
    } else {
        let method = service.methods@[at];
        let missing = callback::unserved(ir::callback_names(method.callbacks@), peer);
        if handler::last_under(handlers.entries@, method.name@) is None {
            Err(EntryErrorView::HandlerMissing { activation: service.namespace@, method: method.name@ })
        } else if method.auth == AuthRequirementIr::Required && !signed_in {
            Err(EntryErrorView::Unauthenticated { method: method.name@ })
        } else if missing.len() > 0 {
            Err(
                EntryErrorView::CapabilityMismatch {
                    method: method.name@,
                    missing,
                    advertised: callback::advertised_names(peer),
                },
            )
        } else {
            Ok(at)
        }
    }
}

/// What is found before a turn is opened on a request.
pub open spec fn preflight<H>(
    service: ActivationIr,
    handlers: HandlerTable<H>,
    request: TurnRequest,
) -> Result<int, EntryErrorView> {
    preflight_for(service, handlers, request.method@, request.auth is Some, request.peer@)
}

/// A turn that has been opened: what its handler is called with, and what runs it.
pub struct OpenTurn<'a, H, S, T> {
    pub handler: &'a H,
    pub state: S,
    pub params: Json,
    pub context: TurnContext,
    pub control: TurnControl<T>,
}

/// Opens a turn on a method.
pub fn entry_with_state<'a, H, S, T>(
    service: &'a ActivationIr,
    handlers: &'a HandlerTable<H>,
    state: S,
    request: TurnRequest,
) -> (r: Result<OpenTurn<'a, H, S, T>, EntryError>)
    ensures
        match r {
            Ok(t) => {
                let at = ir::method_at(service.methods@, request.method@);
                &&& preflight(*service, *handlers, request) == Ok::<int, EntryErrorView>(at)
                &&& handler::last_under(handlers.entries@, service.methods@[at].name@) == Some(*t.handler)
                &&& t.state == state
                &&& t.params == request.params
                &&& t.context.activation@ == service.namespace@
                &&& t.context.method@ == service.methods@[at]@
                &&& t.context.auth == request.auth
                &&& t.context.raw_ctx == request.raw_ctx
                &&& t.context.update_seq == 0
                &&& t.context.turn_id == t.control.turn
                &&& t.control.wf()
                &&& t.control.is_fresh()
            },
            Err(e) => preflight(*service, *handlers, request) == Err::<int, EntryErrorView>(e@),
        },
{
    let at = ir::find_method(&service.methods, request.method.as_str());
    if at >= service.methods.len() {
        return Err(
            EntryError::MethodNotFound { activation: service.namespace.clone(), method: request.method },
        );
    }
    let method = &service.methods[at];
    let handler = match handlers.get(method.name.as_str()) {
        Some(h) => h,
        None => {
            return Err(
                EntryError::HandlerMissing { activation: service.namespace.clone(), method: method.name.clone() },
            );
        },
    };
    if method.auth == AuthRequirementIr::Required && request.auth.is_none() {
        return Err(EntryError::Unauthenticated { method: method.name.clone() });
    }
    let missing = request.peer.missing_for(method);
    if missing.len() > 0 {
        let advertised = request.peer.names();
        return Err(EntryError::CapabilityMismatch { method: method.name.clone(), missing, advertised });
    }
    let turn = TurnId::new();
    let context = TurnContext::new(
        turn,
        service.namespace.clone(),
        method.copy(),
        request.auth,
        request.raw_ctx,
    );
    Ok(OpenTurn { handler, state, params: request.params, context, control: TurnControl::new(turn) })
}

/// Opens a turn whose handler needs no state.
pub fn entry<'a, H, T>(
    service: &'a ActivationIr,
    handlers: &'a HandlerTable<H>,
    request: TurnRequest,
) -> (r: Result<OpenTurn<'a, H, (), T>, EntryError>)
    ensures
        match r {
            Ok(t) => {
                let at = ir::method_at(service.methods@, request.method@);
                &&& preflight(*service, *handlers, request) == Ok::<int, EntryErrorView>(at)
                &&& handler::last_under(handlers.entries@, service.methods@[at].name@) == Some(*t.handler)
                &&& t.params == request.params
                &&& t.context.activation@ == service.namespace@
                &&& t.context.method@ == service.methods@[at]@
                &&& t.context.auth == request.auth
                &&& t.context.raw_ctx == request.raw_ctx
                &&& t.context.update_seq == 0
                &&& t.context.turn_id == t.control.turn
                &&& t.control.wf()
                &&& t.control.is_fresh()
            },
            Err(e) => preflight(*service, *handlers, request) == Err::<int, EntryErrorView>(e@),
        },
{
    entry_with_state(service, handlers, (), request)
}

/// A method that requires a sign-in is never opened for nobody.
pub proof fn law_required_auth_is_there<H>(service: ActivationIr, handlers: HandlerTable<H>, request: TurnRequest)
    requires
        preflight(service, handlers, request) is Ok,
        service.methods@[ir::method_at(service.methods@, request.method@)].auth == AuthRequirementIr::Required,
    ensures
        request.auth is Some,
{
}

/// A turn is opened only where the peer can serve every callback that its method declares.
pub proof fn law_peer_serves_what_is_declared<H>(
    service: ActivationIr,
    handlers: HandlerTable<H>,
    request: TurnRequest,
    name: Seq<char>,
)
    requires
        preflight(service, handlers, request) is Ok,
        ir::callback_names(
            service.methods@[ir::method_at(service.methods@, request.method@)].callbacks@,
        ).contains(name),
    ensures
        callback::serves(request.peer@, name),
{
    let names = ir::callback_names(
        service.methods@[ir::method_at(service.methods@, request.method@)].callbacks@,
    );
    callback::law_missing_is_what_is_asked_and_not_served(names, request.peer@, name);
}

/// How a handler's task ended.
pub enum HandlerEnd {
    /// It returned an outcome.
    Outcome(TurnOutcome),
    /// It returned an error.
    Error(TurnError),
    /// It did not complete; why not.
    Died(String),
}

/// What a running turn wakes up to, and what stands in its event channel at that moment.
pub enum Wake {
    Cancelled { queued: Vec<TurnEvent> },
    Finished { end: HandlerEnd, queued: Vec<TurnEvent> },
    Queued(TurnEvent),
}

/// What can wake a running turn.
#[derive(Debug, Clone, Copy, PartialEq, Eq, Structural)]
pub enum WakeKind {
    Cancelled,
    Finished,
    Queued,
}

/// Which of the things that are there a turn wakes up to: the cancel signal before
/// everything, the handler's end before what it queued.
pub open spec fn wake_of(cancelled: bool, finished: bool, queued: bool) -> Option<WakeKind> {
    if cancelled {
        Some(WakeKind::Cancelled)
    } else if finished {
        Some(WakeKind::Finished)
    } else if queued {
        Some(WakeKind::Queued)
    } else {
        None
    }
}

/// Which of the things that are there a turn wakes up to.
pub fn pick_wake(cancelled: bool, finished: bool, queued: bool) -> (r: Option<WakeKind>)
    ensures
        r == wake_of(cancelled, finished, queued),
{
    if cancelled {
        Some(WakeKind::Cancelled)
    } else if finished {
        Some(WakeKind::Finished)
    } else if queued {
        Some(WakeKind::Queued)
    } else {
        None
    }
}

/// The stop and the value with which a turn ends.
pub open spec fn end_of(end: HandlerEnd) -> (StopView, Option<JsonView>) {
    match end {
        HandlerEnd::Outcome(o) => (
            handler::terminal_of(o).0@,
            json::opt_json(handler::terminal_of(o).1),
        ),
        HandlerEnd::Error(e) => (error::failed_stop(e@), None),
        HandlerEnd::Died(why) => (
            error::failed_stop(
                error::bare_error(
                    codes::HANDLER_PANICKED@,
                    "the handler task did not complete: "@ + why@,
                ),
            ),
            None,
        ),
    }
}

/// The stop and the value with which a turn ends.
pub fn conclude(end: HandlerEnd) -> (r: (StopReason, Option<Json>))
    ensures
        r.0@ == end_of(end).0,
        json::opt_json(r.1) == end_of(end).1,
{
    match end {
        HandlerEnd::Outcome(o) => o.into_terminal(),
        HandlerEnd::Error(e) => (e.into_stop_reason(), None),
        HandlerEnd::Died(why) => {
            let e = TurnError::new(
                codes::HANDLER_PANICKED,
                join2("the handler task did not complete: ", why.as_str()),
            );
            (e.into_stop_reason(), None)
        },
    }
}

/// Whether no event is a terminal.
pub open spec fn quiet(events: Seq<TurnEvent>) -> bool {
    forall|i: int| 0 <= i < events.len() ==> !(#[trigger] events[i] is Terminal)
}

/// Whether the events are those that were queued, then the terminal of a turn.
pub open spec fn ends_with_terminal(
    batch: Seq<TurnEvent>,
    queued: Seq<TurnEvent>,
    turn: TurnId,
    stop: StopView,
    value: Option<JsonView>,
) -> bool {
    &&& batch.len() == queued.len() + 1
    &&& batch.drop_last() == queued
    &&& batch.last() matches TurnEvent::Terminal { turn: t, stop: s, value: v } && t == turn && s@ == stop
        && json::opt_json(v) == value
}

/// What a turn yields when it wakes up: the events, the callbacks that are thereby answered,
/// and the answer that each of them gets.
pub struct Step<T> {
    pub batch: Vec<TurnEvent>,
    pub released: Vec<(u64, T)>,
    pub answer: String,
}

/// Whether a turn wakes up to its end.
pub open spec fn is_last(wake: Wake) -> bool {
    !(wake is Queued)
}

/// What stood in the event channel when the turn woke up.
pub open spec fn queued_in(wake: Wake) -> Seq<TurnEvent> {
    match wake {
        Wake::Cancelled { queued } => queued@,
        Wake::Finished { queued, .. } => queued@,
        Wake::Queued(ev) => seq![ev],
    }
}

/// The part of a turn with which it is cancelled, answered and run.
pub struct TurnControl<T> {
    pub turn: TurnId,
    pub cancel: CancellationToken,
    pub router: CallbackRouter<T>,
    /// Whether the terminal has been yielded.
    pub resolved: bool,
}

impl<T> TurnControl<T> {
    /// What always holds of a turn: its router is its own, and the turn has resolved exactly
    /// when the router is closed.
    pub open spec fn wf(&self) -> bool {
        &&& self.router.wf()
        &&& self.router.turn == self.turn
        &&& self.router.closed == self.resolved
    }

    /// Whether nothing has happened on the turn yet.
    pub open spec fn is_fresh(&self) -> bool {
        &&& !self.cancel.cancelled
        &&& !self.resolved
        &&& self.router.seq == 0
        &&& self.router.pending@.len() == 0
    }

    /// The control of a new turn.
    pub fn new(turn: TurnId) -> (r: Self)
        ensures
            r.wf(),
            r.turn == turn,
            r.is_fresh(),
    {
        TurnControl { turn, cancel: CancellationToken::new(), router: CallbackRouter::new(turn), resolved: false }
    }

    /// The turn that this controls.
    pub fn turn_id(&self) -> (r: TurnId)
        ensures
            r == self.turn,
    {
        self.turn
    }

    /// Delivers the cancel signal; answers whether the waiters are to be woken.
    pub fn cancel(&mut self) -> (wake: bool)
        ensures
            wake == !old(self).cancel.cancelled,
            *final(self) == (TurnControl { cancel: CancellationToken { cancelled: true }, ..*old(self) }),
    {
        self.cancel.cancel()
    }

    /// Whether the cancel signal has been delivered.
    pub fn is_cancelled(&self) -> (r: bool)
        ensures
            r == self.cancel.cancelled,
    {
        self.cancel.is_cancelled()
    }

    /// The turn's cancel signal.
    pub fn cancellation_token(&self) -> (r: &CancellationToken)
        ensures
            *r == self.cancel,
    {
        &self.cancel
    }

    /// Answers one callback.
    pub fn respond(&mut self, id: CallbackId, response: Json) -> (r: Result<Delivery<T>, RespondError>)
        requires
            old(self).wf(),
        ensures
            final(self).wf(),
            callback::delivered(old(self).router, final(self).router, id, r),
            *final(self) == (TurnControl { router: final(self).router, ..*old(self) }),
            r matches Ok(d) ==> d.result == Ok::<Json, String>(response),
    {
        self.router.respond(id, response)
    }

    /// Reports that the peer could not serve one callback.
    pub fn fail_callback(&mut self, id: CallbackId, message: String) -> (r: Result<Delivery<T>, RespondError>)
        requires
            old(self).wf(),
        ensures
            final(self).wf(),
            callback::delivered(old(self).router, final(self).router, id, r),
            *final(self) == (TurnControl { router: final(self).router, ..*old(self) }),
            r matches Ok(d) ==> d.result == Err::<Json, String>(message),
    {
        self.router.fail(id, message)
    }

    /// How many callbacks await an answer.
    pub fn callbacks_in_flight(&self) -> (r: usize)
        ensures
            r == self.router.pending@.len(),
    {
        self.router.in_flight()
    }

    /// One turn of the loop: passes a queued event on, or answers every callback in flight
    /// and ends with the terminal, behind everything that was queued. A handler queues updates
    /// and callbacks, and no terminal.
    pub fn step(&mut self, wake: Wake) -> (r: Step<T>)
        requires
            old(self).wf(),
            !old(self).resolved,
            quiet(queued_in(wake)),
        ensures
            final(self).wf(),
            is_trace(r.batch@, is_last(wake)),
            final(self).turn == old(self).turn,
            final(self).cancel == old(self).cancel,
            final(self).resolved == is_last(wake),
            match wake {
                Wake::Queued(ev) => r.batch@ == seq![ev] && r.released@.len() == 0 && final(self).router == old(
                    self,
                ).router,
                Wake::Cancelled { queued } => ends_with_terminal(
                    r.batch@,
                    queued@,
                    old(self).turn,
                    (StopView { kind: StopKind::Cancelled, detail: None, error: None }),
                    None,
                ) && r.released@ == old(self).router.pending@ && r.answer@ == callback::cancelled_message(
                    old(self).turn,
                ),
                Wake::Finished { end, queued } => ends_with_terminal(
                    r.batch@,
                    queued@,
                    old(self).turn,
                    end_of(end).0,
                    end_of(end).1,
                ) && r.released@ == old(self).router.pending@ && r.answer@ == callback::closing_message(
                    old(self).turn,
                ),
            },
    {
        match wake {
            Wake::Queued(ev) => {
                let mut batch: Vec<TurnEvent> = Vec::new();
                batch.push(ev);
                assert(batch@ =~= seq![ev]);
                Step { batch, released: Vec::new(), answer: String::new() }
            },
            Wake::Cancelled { queued } => {
                let (released, answer) = self.router.resolve_all_cancelled();
                self.resolved = true;
                let mut batch = queued;
                batch.push(TurnEvent::terminal(self.turn, StopReason::cancelled(), None));
                assert(batch@.drop_last() =~= queued@);
                Step { batch, released, answer }
            },
            Wake::Finished { end, queued } => {
                let (released, answer) = self.router.close();
                self.resolved = true;
                let (stop, value) = conclude(end);
                let mut batch = queued;
                batch.push(TurnEvent::terminal(self.turn, stop, value));
                assert(batch@.drop_last() =~= queued@);
                Step { batch, released, answer }
            },
        }
    }
}

/// Whether a trace of events is that of a turn: a terminal, if there is one, comes last.
pub open spec fn is_trace(events: Seq<TurnEvent>, resolved: bool) -> bool {
    if resolved {
        events.len() > 0 && events.last() is Terminal && quiet(events.drop_last())
    } else {
        quiet(events)
    }
}

/// What was queued in everything that a turn woke up to, up to its end.
pub open spec fn heard(wakes: Seq<Wake>) -> Seq<TurnEvent>
    decreases wakes.len(),
{
    if wakes.len() == 0 {
        Seq::empty()
    } else if is_last(wakes[0]) {
        queued_in(wakes[0])
    } else {
        queued_in(wakes[0]) + heard(wakes.skip(1))
    }
}

/// The stop and the value of the first end that a turn wakes up to.
pub open spec fn ending(wakes: Seq<Wake>) -> Option<(StopView, Option<JsonView>)>
    decreases wakes.len(),
{
    if wakes.len() == 0 {
        None
    } else {
        match wakes[0] {
            Wake::Cancelled { .. } => Some(
                ((StopView { kind: StopKind::Cancelled, detail: None, error: None }), None),
            ),
            Wake::Finished { end, .. } => Some(end_of(end)),
            Wake::Queued(_) => ending(wakes.skip(1)),
        }
    }
}

/// What each callback in flight is answered at the first end that a turn wakes up to.
pub open spec fn parting_message(wakes: Seq<Wake>, turn: TurnId) -> Seq<char>
    decreases wakes.len(),
{
    if wakes.len() == 0 {
        Seq::empty()
    } else {
        match wakes[0] {
            Wake::Cancelled { .. } => callback::cancelled_message(turn),
            Wake::Finished { .. } => callback::closing_message(turn),
            Wake::Queued(_) => parting_message(wakes.skip(1), turn),
        }
    }
}

/// Whether the deliveries answer callbacks, one each and in order, with a failure.
pub open spec fn answers_all<T>(deliveries: Seq<Delivery<T>>, pending: Seq<(u64, T)>, message: Seq<char>) -> bool {
    &&& deliveries.len() == pending.len()
    &&& forall|i: int| 0 <= i < deliveries.len() ==> answers_with((#[trigger] deliveries[i]), pending[i].1, message)
}

/// Whether a delivery hands a failure to somebody.
pub open spec fn answers_with<T>(delivery: Delivery<T>, to: T, message: Seq<char>) -> bool {
    &&& delivery.to == to
    &&& delivery.result is Err
    &&& delivery.result->Err_0@ == message
}

/// The deliveries that answer each callback with a failure.
pub fn answer_all<T>(released: Vec<(u64, T)>, answer: &String) -> (r: Vec<Delivery<T>>)
    ensures
        answers_all(r@, released@, answer@),
{
    let ghost all = released@;
    let mut rest = released;
    let mut out: Vec<Delivery<T>> = Vec::new();
    assert(all.skip(0) =~= all);
    while rest.len() > 0
        invariant
            out@.len() <= all.len(),
            rest@ == all.skip(out@.len() as int),
            forall|i: int| 0 <= i < out@.len() ==> answers_with((#[trigger] out@[i]), all[i].1, answer@),
        decreases rest.len(),
    {
        let ghost done = out@.len() as int;
        let (_, to) = rest.remove(0);
        assert(all.skip(done)[0] == all[done]);
        assert(all.skip(done).remove(0) =~= all.skip(done + 1));
        out.push(Delivery { to, result: Err(answer.clone()) });
    }
    out
}

/// What a turn gives that is run through what it wakes up to: everything that was queued up to
/// its end and then its terminal, its control as it is then, and an answer to each callback
/// that was in flight. A turn that wakes up to no end gives what was queued, and is as it was.
pub open spec fn collected<T>(
    control: TurnControl<T>,
    wakes: Seq<Wake>,
    events: Seq<TurnEvent>,
    after: TurnControl<T>,
    answers: Seq<Delivery<T>>,
) -> bool {
    &&& after.wf()
    &&& after.turn == control.turn
    &&& after.cancel == control.cancel
    &&& after.resolved == (ending(wakes) is Some)
    &&& is_trace(events, ending(wakes) is Some)
    &&& match ending(wakes) {
        Some((stop, value)) => {
            &&& ends_with_terminal(events, heard(wakes), control.turn, stop, value)
            &&& answers_all(answers, control.router.pending@, parting_message(wakes, control.turn))
        },
        None => events == heard(wakes) && answers.len() == 0 && after == control,
    }
}

/// A running turn: what it is controlled with.
pub struct TurnHandle<T> {
    pub control: TurnControl<T>,
}

impl<T> TurnHandle<T> {
    /// The turn's identifier.
    pub fn turn_id(&self) -> (r: TurnId)
        ensures
            r == self.control.turn,
    {
        self.control.turn
    }

    /// The control of the turn.
    pub fn control(&mut self) -> (r: &mut TurnControl<T>)
        ensures
            *r == old(self).control,
            *final(self) == (TurnHandle { control: *final(r) }),
    {
        &mut self.control
    }

    /// Delivers the cancel signal; answers whether the waiters are to be woken.
    pub fn cancel(&mut self) -> (wake: bool)
        ensures
            wake == !old(self).control.cancel.cancelled,
            final(self).control == (TurnControl {
                cancel: CancellationToken { cancelled: true },
                ..old(self).control
            }),
    {
        self.control.cancel()
    }

    /// Answers one callback.
    pub fn respond(&mut self, id: CallbackId, response: Json) -> (r: Result<Delivery<T>, RespondError>)
        requires
            old(self).control.wf(),
        ensures
            final(self).control.wf(),
            callback::delivered(old(self).control.router, final(self).control.router, id, r),
            final(self).control == (TurnControl { router: final(self).control.router, ..old(self).control }),
            r matches Ok(d) ==> d.result == Ok::<Json, String>(response),
    {
        self.control.respond(id, response)
    }

    /// Runs a turn through what it wakes up to, up to its end; gives every event in order, the
    /// control of the turn as it is then, and the answers to the callbacks that were still in
    /// flight at the end.
    pub fn collect(self, wakes: Vec<Wake>) -> (r: (Vec<TurnEvent>, TurnControl<T>, Vec<Delivery<T>>))
        requires
            self.control.wf(),
            !self.control.resolved,
            quiet(heard(wakes@)),
        ensures
            collected(self.control, wakes@, r.0@, r.1, r.2@),
    {
        let mut control = self.control;
        let mut rest = wakes;
        let ghost all = wakes@;
        let mut out: Vec<TurnEvent> = Vec::new();
        let mut answers: Vec<Delivery<T>> = Vec::new();
        assert(out@ + heard(all) =~= heard(all));
        while rest.len() > 0 && !control.resolved
            invariant
                control.wf(),
                control.turn == self.control.turn,
                control.cancel == self.control.cancel,
                quiet(heard(all)),
                !control.resolved ==> {
                    &&& heard(all) == out@ + heard(rest@)
                    &&& ending(all) == ending(rest@)
                    &&& parting_message(all, self.control.turn) == parting_message(rest@, self.control.turn)
                    &&& answers@.len() == 0
                    &&& control == self.control
                },
                control.resolved ==> ending(all) is Some && ends_with_terminal(
                    out@,
                    heard(all),
                    self.control.turn,
                    (ending(all)->0).0,
                    (ending(all)->0).1,
                ) && answers_all(
                    answers@,
                    self.control.router.pending@,
                    parting_message(all, self.control.turn),
                ),
            decreases rest.len(),
        {
            let ghost before = out@;
            let ghost ahead = rest@;
            let wake = rest.remove(0);
            assert(ahead.remove(0) =~= ahead.skip(1));
            proof {
                let h = heard(all);
                let q = queued_in(ahead[0]);
                assert forall|i: int| 0 <= i < q.len() implies !(#[trigger] q[i] is Terminal) by {
                    assert(h[before.len() + i] == q[i]);
                }
            }
            let step = control.step(wake);
            let mut batch = step.batch;
            let ghost added = batch@;
            out.append(&mut batch);
            answers = answer_all(step.released, &step.answer);
            proof {
                assert(out@ =~= before + added);
                if is_last(ahead[0]) {
                    assert(out@.last() == added.last());
                    assert(out@.drop_last() =~= before + added.drop_last());
                } else {
                    assert(heard(all) =~= out@ + heard(rest@));
                }
            }
        }
        proof {
            if !control.resolved {
                assert(out@ + heard(rest@) =~= out@);
            }
        }
        (out, control, answers)
    }
}

/// Where nothing that was queued up to the end is a terminal, the events of a turn are a trace: at most
/// one terminal, and that the last.
pub proof fn law_a_turn_yields_a_trace(wakes: Seq<Wake>, events: Seq<TurnEvent>, turn: TurnId)
    requires
        quiet(heard(wakes)),
        match ending(wakes) {
            Some((stop, value)) => ends_with_terminal(events, heard(wakes), turn, stop, value),
            None => events == heard(wakes),
        },
    ensures
        is_trace(events, ending(wakes) is Some),
{
}

/// The events of a turn that has resolved hold exactly one terminal, and it is the last event.
pub proof fn law_exactly_one_terminal(events: Seq<TurnEvent>)
    requires
        is_trace(events, true),
    ensures
        events.len() > 0,
        forall|i: int| 0 <= i < events.len() ==> ((#[trigger] events[i] is Terminal) <==> i == events.len() - 1),
{
    assert forall|i: int| 0 <= i < events.len() implies ((#[trigger] events[i] is Terminal) <==> i == events.len() - 1) by {
        if i < events.len() - 1 {
            assert(events.drop_last()[i] == events[i]);
        }
    }
}

/// The numbers of the updates among events, in the events' order.
pub open spec fn update_numbers(events: Seq<TurnEvent>) -> Seq<u64>
    decreases events.len(),
{
    if events.len() == 0 {
        Seq::empty()
    } else {
        match events.last() {
            TurnEvent::Update { seq, .. } => update_numbers(events.drop_last()).push(seq),
            _ => update_numbers(events.drop_last()),
        }
    }
}

/// The numbers of the callbacks among events, in the events' order.
pub open spec fn callback_numbers(events: Seq<TurnEvent>) -> Seq<u64>
    decreases events.len(),
{
    if events.len() == 0 {
        Seq::empty()
    } else {
        match events.last() {
            TurnEvent::Callback { id, .. } => callback_numbers(events.drop_last()).push(id.seq),
            _ => callback_numbers(events.drop_last()),
        }
    }
}

/// Whether events are what a turn emits: updates and callbacks of that turn, each kind
/// numbered as it was emitted, and no terminal.
pub open spec fn emitted_by(turn: TurnId, events: Seq<TurnEvent>) -> bool
    decreases events.len(),
{
    events.len() == 0 || {
        &&& emitted_by(turn, events.drop_last())
        &&& match events.last() {
            TurnEvent::Update { turn: t, seq, .. } => t == turn && seq == handler::seq_after(
                update_numbers(events.drop_last()).len(),
            ),
            TurnEvent::Callback { id, .. } => id.turn == turn && id.seq == handler::seq_after(
                callback_numbers(events.drop_last()).len(),
            ),
            TurnEvent::Terminal { .. } => false,
        }
    }
}

/// Whether a context and a router are those of a turn that has emitted events.
pub open spec fn have_emitted<T>(context: TurnContext, router: CallbackRouter<T>, events: Seq<TurnEvent>) -> bool {
    &&& context.turn_id == router.turn
    &&& emitted_by(router.turn, events)
    &&& context.update_seq == handler::seq_after(update_numbers(events).len())
    &&& router.seq == handler::seq_after(callback_numbers(events).len())
}

/// A turn that was just opened has emitted nothing.
pub proof fn law_an_opened_turn_has_emitted_nothing<T>(context: TurnContext, control: TurnControl<T>)
    requires
        control.wf(),
        control.is_fresh(),
        context.turn_id == control.turn,
        context.update_seq == 0,
    ensures
        have_emitted(context, control.router, Seq::empty()),
{
}

/// An update that a turn emits, and a callback that it issues, go on from what it has emitted.
pub proof fn law_emission_goes_on<T>(
    context: TurnContext,
    router: CallbackRouter<T>,
    events: Seq<TurnEvent>,
    content: Json,
    name: String,
    request: Json,
    context_after: TurnContext,
    router_after: CallbackRouter<T>,
)
    requires
        have_emitted(context, router, events),
        context_after == (TurnContext { update_seq: handler::next_seq(context.update_seq), ..context }),
        router_after.turn == router.turn,
        router_after.seq == handler::next_seq(router.seq),
    ensures
        have_emitted(
            context_after,
            router,
            events.push(TurnEvent::Update { turn: context.turn_id, seq: context.update_seq, content }),
        ),
        have_emitted(
            context,
            router_after,
            events.push(
                TurnEvent::Callback { id: CallbackId { turn: router.turn, seq: router.seq }, name, request },
            ),
        ),
{
    let u = TurnEvent::Update { turn: context.turn_id, seq: context.update_seq, content };
    let c = TurnEvent::Callback { id: CallbackId { turn: router.turn, seq: router.seq }, name, request };
    assert(events.push(u).drop_last() =~= events);
    assert(events.push(c).drop_last() =~= events);
}

proof fn lemma_emitted(turn: TurnId, events: Seq<TurnEvent>)
    requires
        emitted_by(turn, events),
        events.len() <= u64::MAX,
    ensures
        quiet(events),
        forall|i: int| 0 <= i < events.len() ==> event::event_turn(#[trigger] events[i]) == turn,
        update_numbers(events).len() <= events.len(),
        callback_numbers(events).len() <= events.len(),
        forall|k: int| 0 <= k < update_numbers(events).len() ==> #[trigger] update_numbers(events)[k] == k,
        forall|k: int| 0 <= k < callback_numbers(events).len() ==> #[trigger] callback_numbers(events)[k] == k,
    decreases events.len(),
{
    if events.len() > 0 {
        let rest = events.drop_last();
        lemma_emitted(turn, rest);
        handler::law_updates_are_numbered_without_gaps(update_numbers(rest).len());
        handler::law_updates_are_numbered_without_gaps(callback_numbers(rest).len());
        assert forall|i: int| 0 <= i < events.len() implies !(#[trigger] events[i] is Terminal) && event::event_turn(
            events[i],
        ) == turn by {
            if i < rest.len() {
                assert(events[i] == rest[i]);
            }
        }
    }
}

/// The events of a turn that was drained to its end: one terminal, and that the last; each
/// event of that turn; its updates numbered 0, 1, 2 and on in the order in which they come,
/// and its callbacks likewise, as long as the numbers last.
pub proof fn law_a_drained_turn_tells_its_own_story(turn: TurnId, wakes: Seq<Wake>, events: Seq<TurnEvent>)
    requires
        emitted_by(turn, heard(wakes)),
        heard(wakes).len() <= u64::MAX,
        ending(wakes) is Some,
        ends_with_terminal(events, heard(wakes), turn, (ending(wakes)->0).0, (ending(wakes)->0).1),
    ensures
        is_trace(events, true),
        forall|i: int| 0 <= i < events.len() ==> ((#[trigger] events[i] is Terminal) <==> i == events.len() - 1),
        forall|i: int| 0 <= i < events.len() ==> event::event_turn(#[trigger] events[i]) == turn,
        forall|k: int| 0 <= k < update_numbers(events).len() ==> #[trigger] update_numbers(events)[k] == k,
        forall|k: int| 0 <= k < callback_numbers(events).len() ==> #[trigger] callback_numbers(events)[k] == k,
{
    lemma_emitted(turn, heard(wakes));
    law_exactly_one_terminal(events);
    assert forall|i: int| 0 <= i < events.len() implies event::event_turn(#[trigger] events[i]) == turn by {
        if i < events.len() - 1 {
            assert(events.drop_last()[i] == events[i]);
            assert(heard(wakes)[i] == events[i]);
        }
    }
}

/// A turn that is cancelled resolves as cancelled, even where its handler has finished too.
pub proof fn law_cancellation_wins(finished: bool, queued: bool)
    ensures
        wake_of(true, finished, queued) == Some(WakeKind::Cancelled),
{
}

/// A turn opens exactly where nothing stands against it: of the method that is meant, the first
/// of its name, there is a handler; it is public or the caller has signed in; and the peer can
/// serve each callback that it declares. It opens on that method.
pub proof fn law_a_turn_opens_where_nothing_stands_against_it<H>(
    service: ActivationIr,
    handlers: HandlerTable<H>,
    name: Seq<char>,
    signed_in: bool,
    peer: Option<Seq<Seq<char>>>,
    i: int,
)
    requires
        0 <= i < service.methods@.len(),
        service.methods@[i].name@ == name,
        forall|j: int| 0 <= j < i ==> (#[trigger] service.methods@[j]).name@ != name,
    ensures
        preflight_for(service, handlers, name, signed_in, peer) is Ok <==> {
            &&& exists|k: int| 0 <= k < handlers.entries@.len() && (#[trigger] handlers.entries@[k]).0@ == name
            &&& service.methods@[i].auth == AuthRequirementIr::Public || signed_in
            &&& peer is None || forall|c: int|
                0 <= c < service.methods@[i].callbacks@.len() ==> peer->0.contains(
                    (#[trigger] service.methods@[i].callbacks@[c]).name@,
                )
        },
        preflight_for(service, handlers, name, signed_in, peer) matches Ok(at) ==> at == i,
{
    lemma_preflight_parts(service, handlers, name, peer, i);
}

proof fn lemma_preflight_parts<H>(
    service: ActivationIr,
    handlers: HandlerTable<H>,
    name: Seq<char>,
    peer: Option<Seq<Seq<char>>>,
    i: int,
)
    requires
        0 <= i < service.methods@.len(),
        service.methods@[i].name@ == name,
        forall|j: int| 0 <= j < i ==> (#[trigger] service.methods@[j]).name@ != name,
    ensures
        ir::method_at(service.methods@, name) == i,
        handler::last_under(handlers.entries@, name) is Some <==> exists|k: int|
            0 <= k < handlers.entries@.len() && (#[trigger] handlers.entries@[k]).0@ == name,
        callback::unserved(ir::callback_names(service.methods@[i].callbacks@), peer).len() == 0 <==> peer is None
            || forall|c: int|
            0 <= c < service.methods@[i].callbacks@.len() ==> peer->0.contains(
                (#[trigger] service.methods@[i].callbacks@[c]).name@,
            ),
{
    ir::law_the_first_of_a_name_is_found(service.methods@, name);
    let at = ir::method_at(service.methods@, name);
    if at < i {
        assert(service.methods@[at].name@ != name);
    } else if at > i {
        assert(service.methods@[i].name@ != name);
    }
    handler::law_the_last_handler_of_a_name_is_found(handlers.entries@, name);
    let calls = service.methods@[i].callbacks@;
    let names = ir::callback_names(calls);
    let missing = callback::unserved(names, peer);
    if peer is None {
        callback::law_unrestricted_peer_misses_nothing(names);
    } else {
        if missing.len() > 0 {
            callback::law_missing_is_what_is_asked_and_not_served(names, peer, missing[0]);
            assert(missing.contains(missing[0]));
            let c = choose|c: int| 0 <= c < names.len() && names[c] == missing[0];
            assert(!peer->0.contains(calls[c].name@));
        }
        assert forall|c: int| 0 <= c < calls.len() && missing.len() == 0 implies peer->0.contains(
            (#[trigger] calls[c]).name@,
        ) by {
            callback::law_missing_is_what_is_asked_and_not_served(names, peer, calls[c].name@);
            assert(names[c] == calls[c].name@);
            assert(names.contains(calls[c].name@));
        }
    }
}

/// Whoever signs in reaches no less: where a turn opens for nobody it opens for anybody, on the
/// same method. A peer that serves more reaches no less either.
pub proof fn law_signing_in_never_closes_a_turn<H>(
    service: ActivationIr,
    handlers: HandlerTable<H>,
    name: Seq<char>,
    signed_in: bool,
    peer: Option<Seq<Seq<char>>>,
    more: Option<Seq<Seq<char>>>,
)
    requires
        more is None || (peer is Some && forall|n: Seq<char>| #[trigger]
            peer->0.contains(n) ==> more->0.contains(n)),
    ensures
        preflight_for(service, handlers, name, false, peer) is Ok ==> preflight_for(
            service,
            handlers,
            name,
            true,
            peer,
        ) == preflight_for(service, handlers, name, false, peer),
        preflight_for(service, handlers, name, signed_in, peer) is Ok ==> preflight_for(
            service,
            handlers,
            name,
            signed_in,
            more,
        ) == preflight_for(service, handlers, name, signed_in, peer),
{
    ir::law_the_first_of_a_name_is_found(service.methods@, name);
    let at = ir::method_at(service.methods@, name);
    if at < service.methods@.len() {
        let names = ir::callback_names(service.methods@[at].callbacks@);
        let missing = callback::unserved(names, more);
        if callback::unserved(names, peer).len() == 0 && missing.len() > 0 {
            assert(missing.contains(missing[0]));
            callback::law_missing_is_what_is_asked_and_not_served(names, more, missing[0]);
            callback::law_missing_is_what_is_asked_and_not_served(names, peer, missing[0]);
            assert(callback::serves(peer, missing[0]));
            assert(!callback::serves(more, missing[0]));
            assert(peer is Some && peer->0.contains(missing[0]));
        }
        assert(callback::unserved(names, peer).len() == 0 ==> missing.len() == 0);
    }
}

/// Why a turn does not open is told by the first thing that stands against it: no method of the
/// name, no handler, no sign-in where one is required, callbacks that the peer cannot serve.
/// Each refusal names what it is about, and the last lists exactly the callbacks that the method
/// declares and the peer does not serve, in their order, and what the peer serves.
pub proof fn law_a_refusal_names_what_stands_against_the_turn<H>(
    service: ActivationIr,
    handlers: HandlerTable<H>,
    name: Seq<char>,
    signed_in: bool,
    peer: Option<Seq<Seq<char>>>,
)
    ensures
        (forall|j: int| 0 <= j < service.methods@.len() ==> (#[trigger] service.methods@[j]).name@ != name) ==> (
        preflight_for(service, handlers, name, signed_in, peer) == Err::<int, EntryErrorView>(
            EntryErrorView::MethodNotFound { activation: service.namespace@, method: name },
        )),
        forall|i: int|
            #![trigger service.methods@[i]]
            0 <= i < service.methods@.len() && service.methods@[i].name@ == name && (forall|j: int|
                0 <= j < i ==> (#[trigger] service.methods@[j]).name@ != name) ==> {
                let found = preflight_for(service, handlers, name, signed_in, peer);
                let handled = exists|k: int|
                    0 <= k < handlers.entries@.len() && (#[trigger] handlers.entries@[k]).0@ == name;
                let admitted = service.methods@[i].auth == AuthRequirementIr::Public || signed_in;
                &&& !handled ==> found == Err::<int, EntryErrorView>(
                    EntryErrorView::HandlerMissing { activation: service.namespace@, method: name },
                )
                &&& handled && !admitted ==> found == Err::<int, EntryErrorView>(
                    EntryErrorView::Unauthenticated { method: name },
                )
                &&& handled && admitted && found is Err ==> found == Err::<int, EntryErrorView>(
                    EntryErrorView::CapabilityMismatch {
                        method: name,
                        missing: Seq::new(
                            service.methods@[i].callbacks@.len(),
                            |c: int| service.methods@[i].callbacks@[c].name@,
                        ).filter(|n: Seq<char>| peer is Some && !peer->0.contains(n)),
                        advertised: match peer {
                            Some(names) => names,
                            None => Seq::empty(),
                        },
                    },
                )
            },
{
    ir::law_the_first_of_a_name_is_found(service.methods@, name);
    assert forall|i: int|
        #![trigger service.methods@[i]]
        0 <= i < service.methods@.len() && service.methods@[i].name@ == name && (forall|j: int|
            0 <= j < i ==> (#[trigger] service.methods@[j]).name@ != name) implies {
        let found = preflight_for(service, handlers, name, signed_in, peer);
        let handled = exists|k: int| 0 <= k < handlers.entries@.len() && (#[trigger] handlers.entries@[k]).0@ == name;
        let admitted = service.methods@[i].auth == AuthRequirementIr::Public || signed_in;
        &&& !handled ==> found == Err::<int, EntryErrorView>(
            EntryErrorView::HandlerMissing { activation: service.namespace@, method: name },
        )
        &&& handled && !admitted ==> found == Err::<int, EntryErrorView>(
            EntryErrorView::Unauthenticated { method: name },
        )
        &&& handled && admitted && found is Err ==> found == Err::<int, EntryErrorView>(
            EntryErrorView::CapabilityMismatch {
                method: name,
                missing: Seq::new(
                    service.methods@[i].callbacks@.len(),
                    |c: int| service.methods@[i].callbacks@[c].name@,
                ).filter(|n: Seq<char>| peer is Some && !peer->0.contains(n)),
                advertised: match peer {
                    Some(names) => names,
                    None => Seq::empty(),
                },
            },
        )
    } by {
        lemma_preflight_parts(service, handlers, name, peer, i);
        let calls = service.methods@[i].callbacks@;
        let names = ir::callback_names(calls);
        callback::law_what_is_missed_keeps_its_order(names, peer);
        assert(Seq::new(calls.len(), |c: int| calls[c].name@) =~= names);
        assert(callback::advertised_names(peer) == (match peer {
            Some(names) => names,
            None => Seq::empty(),
        }));
    }
}

/// A turn hears what its handler queued, up to its first end and no further: the events that
/// came one by one, then those that stood in the channel at the end. It ends as that first end
/// says, whatever comes later, and its callbacks are told what goes with it.
pub proof fn law_a_turn_hears_up_to_its_first_end(queued: Seq<TurnEvent>, last: Wake, later: Seq<Wake>, turn: TurnId)
    requires
        !(last is Queued),
    ensures
        ({
            let wakes = Seq::new(queued.len(), |i: int| Wake::Queued(queued[i])) + seq![last] + later;
            &&& heard(wakes) == queued + (match last {
                Wake::Cancelled { queued } => queued@,
                Wake::Finished { queued, .. } => queued@,
                Wake::Queued(_) => Seq::empty(),
            })
            &&& last is Cancelled ==> ending(wakes) == Some(
                ((StopView { kind: StopKind::Cancelled, detail: None, error: None }), None::<JsonView>),
            ) && parting_message(wakes, turn) == callback::cancelled_message(turn)
            &&& last matches Wake::Finished { end, .. } ==> ending(wakes) == Some(end_of(end)) && parting_message(
                wakes,
                turn,
            ) == callback::closing_message(turn)
        }),
    decreases queued.len(),
{
    let wakes = Seq::new(queued.len(), |i: int| Wake::Queued(queued[i])) + seq![last] + later;
    if queued.len() == 0 {
        assert(wakes[0] == last);
        assert(queued + queued_in(last) =~= queued_in(last));
    } else {
        let rest = queued.skip(1);
        law_a_turn_hears_up_to_its_first_end(rest, last, later, turn);
        let behind = Seq::new(rest.len(), |i: int| Wake::Queued(rest[i])) + seq![last] + later;
        assert(wakes[0] == Wake::Queued(queued[0]));
        assert(wakes.skip(1) =~= behind);
        assert(seq![queued[0]] + (rest + queued_in(last)) =~= queued + queued_in(last));
    }
}

/// A turn that wakes up to no end hears every event that was queued, and goes on.
pub proof fn law_a_turn_without_an_end_goes_on(queued: Seq<TurnEvent>, turn: TurnId)
    ensures
        heard(Seq::new(queued.len(), |i: int| Wake::Queued(queued[i]))) == queued,
        ending(Seq::new(queued.len(), |i: int| Wake::Queued(queued[i]))) is None,
    decreases queued.len(),
{
    let wakes = Seq::new(queued.len(), |i: int| Wake::Queued(queued[i]));
    if queued.len() > 0 {
        let rest = queued.skip(1);
        law_a_turn_without_an_end_goes_on(rest, turn);
        assert(wakes.skip(1) =~= Seq::new(rest.len(), |i: int| Wake::Queued(rest[i])));
        assert(seq![queued[0]] + rest =~= queued);
    }
}

/// What is run to its end yields every event that was queued up to then, each as it was and in
/// order, and then one terminal of the turn. Each callback that was in flight is answered with a
/// failure, in order, and none is in flight any more.
pub proof fn law_nothing_is_lost_on_the_way_to_the_terminal<T>(
    control: TurnControl<T>,
    queued: Seq<TurnEvent>,
    last: Wake,
    later: Seq<Wake>,
    events: Seq<TurnEvent>,
    after: TurnControl<T>,
    answers: Seq<Delivery<T>>,
)
    requires
        !(last is Queued),
        collected(
            control,
            Seq::new(queued.len(), |i: int| Wake::Queued(queued[i])) + seq![last] + later,
            events,
            after,
            answers,
        ),
    ensures
        ({
            let held = match last {
                Wake::Cancelled { queued } => queued@,
                Wake::Finished { queued, .. } => queued@,
                Wake::Queued(_) => Seq::empty(),
            };
            &&& events.len() == queued.len() + held.len() + 1
            &&& forall|i: int| 0 <= i < queued.len() ==> #[trigger] events[i] == queued[i]
            &&& forall|i: int| 0 <= i < held.len() ==> events[queued.len() + i] == #[trigger] held[i]
        }),
        events.last() is Terminal,
        events.last()->Terminal_turn == control.turn,
        last is Cancelled ==> events.last()->stop@.kind == StopKind::Cancelled && events.last()->value is None,
        answers.len() == control.router.pending@.len(),
        forall|i: int|
            0 <= i < answers.len() ==> (#[trigger] answers[i]).to == control.router.pending@[i].1 && answers[i].result is Err,
        after.resolved,
        after.router.pending@.len() == 0,
{
    let wakes = Seq::new(queued.len(), |i: int| Wake::Queued(queued[i])) + seq![last] + later;
    law_a_turn_hears_up_to_its_first_end(queued, last, later, control.turn);
    let all = heard(wakes);
    assert(events.drop_last() == all);
    assert forall|i: int| 0 <= i < queued.len() implies #[trigger] events[i] == queued[i] by {
        assert(events.drop_last()[i] == all[i]);
    }
    let held = queued_in(last);
    assert forall|i: int| 0 <= i < held.len() implies events[queued.len() + i] == #[trigger] held[i] by {
        assert(events.drop_last()[queued.len() + i] == all[queued.len() + i]);
    }
}

/// How a handler ends shows in the terminal: an outcome as the stop and the value that it says,
/// an error as a failure that carries every part of it and no value, and a handler that did not
/// complete as a failure with the code for that and a message that ends with the reason.
pub proof fn law_the_terminal_tells_how_the_handler_ended(e: TurnError, o: TurnOutcome, why: String)
    ensures
        end_of(HandlerEnd::Outcome(o)).0 == handler::terminal_of(o).0@,
        end_of(HandlerEnd::Outcome(o)).1 == (match handler::terminal_of(o).1 {
            Some(v) => Some(v@),
            None => None,
        }),
        end_of(HandlerEnd::Error(e)).0.kind == StopKind::Failed,
        e@.details != Some(JsonView::Null) ==> error::error_in(end_of(HandlerEnd::Error(e)).0.error->0) == e@,
        end_of(HandlerEnd::Error(e)).1 is None,
        end_of(HandlerEnd::Died(why)).0.kind == StopKind::Failed,
        error::error_in(end_of(HandlerEnd::Died(why)).0.error->0).code == codes::HANDLER_PANICKED@,
        text::ends_with(error::error_in(end_of(HandlerEnd::Died(why)).0.error->0).message, why@),
        end_of(HandlerEnd::Died(why)).1 is None,
{
    error::law_terminal_keeps_the_error(e@);
    if e@.details != Some(JsonView::Null) {
        error::law_an_error_reads_back_from_its_terminal(e@);
    }
    let message = "the handler task did not complete: "@ + why@;
    let died = error::bare_error(codes::HANDLER_PANICKED@, message);
    error::law_an_error_reads_back_from_its_terminal(died);
    assert(message.skip(message.len() - why@.len()) =~= why@);
}

/// What a turn wakes up to is something that is there, and it wakes up wherever something is:
/// the cancel signal hides the rest, and the end of the handler hides what it queued.
pub proof fn law_a_turn_wakes_up_to_what_is_there(cancelled: bool, finished: bool, queued: bool)
    ensures
        wake_of(cancelled, finished, queued) is None <==> !cancelled && !finished && !queued,
        wake_of(cancelled, finished, queued) == Some(WakeKind::Cancelled) <==> cancelled,
        wake_of(cancelled, finished, queued) == Some(WakeKind::Finished) <==> finished && !cancelled,
        wake_of(cancelled, finished, queued) == Some(WakeKind::Queued) <==> queued && !finished && !cancelled,
{
}

/// A turn that its handler ends says at its end what the handler said, whatever comes later; each
/// callback that was in flight is told that the turn was cancelled where it was, else that it
/// resolved.
pub proof fn law_the_end_of_a_turn_is_that_of_its_handler<T>(
    control: TurnControl<T>,
    queued: Seq<TurnEvent>,
    last: Wake,
    later: Seq<Wake>,
    events: Seq<TurnEvent>,
    after: TurnControl<T>,
    answers: Seq<Delivery<T>>,
)
    requires
        !(last is Queued),
        collected(
            control,
            Seq::new(queued.len(), |i: int| Wake::Queued(queued[i])) + seq![last] + later,
            events,
            after,
            answers,
        ),
    ensures
        last matches Wake::Finished { end, .. } ==> {
            &&& events.last()->stop@ == end_of(end).0
            &&& events.last()->value is None <==> end_of(end).1 is None
            &&& events.last()->value is Some ==> events.last()->value->0@ == end_of(end).1->0
        },
        after.turn == control.turn,
        after.cancel == control.cancel,
        forall|i: int|
            0 <= i < answers.len() ==> {
                &&& (#[trigger] answers[i]).to == control.router.pending@[i].1
                &&& answers[i].result is Err
                &&& answers[i].result->Err_0@ == if last is Cancelled {
                    callback::cancelled_message(control.turn)
                } else {
                    callback::closing_message(control.turn)
                }
            },
        forall|i: int| 0 <= i < events.len() - 1 ==> !(#[trigger] events[i] is Terminal),
{
    law_a_turn_hears_up_to_its_first_end(queued, last, later, control.turn);
    assert forall|i: int| 0 <= i < events.len() - 1 implies !(#[trigger] events[i] is Terminal) by {
        assert(events.drop_last()[i] == events[i]);
    }
}

/// A turn that has not come to an end is as it was: it has yielded what was queued and nothing
/// else, it can be answered as before, and no callback is told anything.
pub proof fn law_a_turn_in_between_is_as_it_was<T>(
    control: TurnControl<T>,
    queued: Seq<TurnEvent>,
    events: Seq<TurnEvent>,
    after: TurnControl<T>,
    answers: Seq<Delivery<T>>,
)
    requires
        collected(control, Seq::new(queued.len(), |i: int| Wake::Queued(queued[i])), events, after, answers),
    ensures
        events == queued,
        after == control,
        answers.len() == 0,
{
    law_a_turn_without_an_end_goes_on(queued, control.turn);
}

} // verus!
