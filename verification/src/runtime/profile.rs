//! The measurable prefix of opening a turn.

use crate::ir;
use crate::ir::{ActivationIr, AuthRequirementIr};
use crate::runtime::callback;
use crate::runtime::cancel::CancellationToken;
use crate::runtime::entry::TurnRequest;
use crate::runtime::handler;
use crate::runtime::handler::HandlerTable;
use crate::runtime::ids::TurnId;
use crate::text;
use vstd::prelude::*;

verus! {

/// The depth of the event channel that the ladder measures.
pub const TURN_EVENT_BUFFER: usize = 32;

/// How many callbacks of the asked method are missing, and how long its name is.
pub open spec fn weight(service: ActivationIr, req: TurnRequest) -> int {
    let m = service.methods@[ir::method_at(service.methods@, req.method@)];
    callback::unserved(ir::callback_names(m.callbacks@), req.peer@).len() as int + vstd::utf8::encode_utf8(
        m.name@,
    ).len() as int
}

/// What a rung of the ladder yields: zero where a sign-in is missing.
pub open spec fn rung(service: ActivationIr, req: TurnRequest) -> int {
    let m = service.methods@[ir::method_at(service.methods@, req.method@)];
    if m.auth == AuthRequirementIr::Required && req.auth is None {
        0
    } else {
        weight(service, req)
    }
}

/// Whether a request can stand on the ladder: its method and the handler are there.
pub open spec fn stands<H>(service: ActivationIr, handlers: HandlerTable<H>, req: TurnRequest) -> bool {
    &&& ir::method_at(service.methods@, req.method@) < service.methods@.len()
    &&& handler::last_under(handlers.entries@, req.method@) is Some
    &&& weight(service, req) <= usize::MAX
    &&& weight(service, req) <= u64::MAX
}

/// The checks before a turn, as a number.
pub fn s0_preflight<H>(service: &ActivationIr, handlers: &HandlerTable<H>, req: &TurnRequest) -> (r: u64)
    requires
        stands(*service, *handlers, *req),
    ensures
        r == rung(*service, *req),
{
    let at = ir::find_method(&service.methods, req.method.as_str());
    let method = &service.methods[at];
    let _handler = handlers.get(method.name.as_str());
    if method.auth == AuthRequirementIr::Required && req.auth.is_none() {
        return 0;
    }
    let missing = req.peer.missing_for(method);
    assert(text::texts(missing@).len() == missing@.len());
    (missing.len() + method.name.as_str().as_bytes().len()) as u64
}

/// The checks and the turn's identifier.
pub fn s1_turn_id<H>(service: &ActivationIr, handlers: &HandlerTable<H>, req: &TurnRequest) -> (r: u64)
    requires
        stands(*service, *handlers, *req),
    ensures
        r == rung(*service, *req),
{
    let n = s0_preflight(service, handlers, req);
    let _turn = TurnId::new();
    n
}

/// The checks, the turn's identifier and its token of cancellation.
pub fn s2_cancel<H>(service: &ActivationIr, handlers: &HandlerTable<H>, req: &TurnRequest) -> (r: u64)
    requires
        stands(*service, *handlers, *req),
    ensures
        r == rung(*service, *req),
{
    let n = s1_turn_id(service, handlers, req);
    let _cancel = CancellationToken::new();
    n
}

/// What the last rung yields: the checks and the events that were collected.
pub fn with_events(n: u64, events: u64) -> (r: u64)
    requires
        n + events <= u64::MAX,
    ensures
        r == n + events,
{
    n + events
}

/// A rung of the ladder counts what the checks look at: nothing where a sign-in is missing, else
/// the bytes of the name that is asked for, and those callbacks of its method that the peer cannot
/// serve, each once.
pub proof fn law_a_rung_counts_what_is_checked(service: ActivationIr, req: TurnRequest, i: int)
    requires
        0 <= i < service.methods@.len(),
        service.methods@[i].name@ == req.method@,
        forall|j: int| 0 <= j < i ==> (#[trigger] service.methods@[j]).name@ != req.method@,
    ensures
        service.methods@[i].auth == AuthRequirementIr::Required && req.auth is None ==> rung(service, req) == 0,
        service.methods@[i].auth == AuthRequirementIr::Public || req.auth is Some ==> rung(service, req)
            == vstd::utf8::encode_utf8(req.method@).len() + ir::callback_names(service.methods@[i].callbacks@).filter(
            |n: Seq<char>| req.peer@ is Some && !req.peer@->0.contains(n),
        ).len(),
        ir::callback_names(service.methods@[i].callbacks@) == Seq::new(
            service.methods@[i].callbacks@.len(),
            |c: int| service.methods@[i].callbacks@[c].name@,
        ),
{
    ir::law_the_first_of_a_name_is_found(service.methods@, req.method@);
    let at = ir::method_at(service.methods@, req.method@);
    if at < i {
        assert(service.methods@[at].name@ != req.method@);
    }
    if i < at {
        assert(service.methods@[i].name@ != req.method@);
    }
    let names = ir::callback_names(service.methods@[i].callbacks@);
    assert(names =~= Seq::new(service.methods@[i].callbacks@.len(), |c: int| service.methods@[i].callbacks@[c].name@));
    callback::law_what_is_missed_keeps_its_order(names, req.peer@);
    let asked = |n: Seq<char>| req.peer@ is Some && !req.peer@->0.contains(n);
    assert(callback::unserved(names, req.peer@) == names.filter(asked));
}

} // verus!
