//! Turns behind the hub: a service with its handlers, and a turn's events as stream items.

use crate::ir;
use crate::ir::{ActivationIr, AuthRequirementIr, MethodIr, StopReason};
use crate::json;
use crate::json::{put_entry, Json, JsonView};
use crate::plexus::registry;
use crate::plexus::registry::plugin_id;
use crate::plexus::streaming;
use crate::plexus::streaming::{ItemView, MetaView, PlexusStreamItem, StreamMetadata};
use crate::plexus::wire;
use crate::runtime::callback;
use crate::runtime::callback::{Delivery, PeerCapabilities};
use crate::runtime::entry;
use crate::runtime::entry::{OpenTurn, TurnControl, TurnHandle, TurnRequest, Wake};
use crate::runtime::error::{EntryError, EntryErrorView, RespondError};
use crate::runtime::event;
use crate::runtime::event::TurnEvent;
use crate::runtime::handler;
use crate::runtime::handler::HandlerTable;
use crate::runtime::ids;
use crate::runtime::ids::{CallbackId, TurnId};
use crate::table::Table;
use crate::text;
use crate::text::{dotted_text, join2};
use vstd::prelude::*;

verus! {

/// The timeout on projected requests: zero, for none is asserted.
pub const NO_ADVERTISED_TIMEOUT_MS: u64 = 0;

/// The methods of a service whose schemas live in its own document: none.
#[derive(Debug, Clone, Copy, PartialEq, Eq, Structural)]
pub struct IrMethods;

impl IrMethods {
    /// The names of the methods: none.
    pub fn method_names() -> (r: Vec<String>)
        ensures
            r@.len() == 0,
    {
        Vec::new()
    }
}

/// The stream items that stand for an event of a turn: data for an update, a request for a
/// callback, data and the end for the terminal.
pub open spec fn projection(dotted_id: Seq<char>, metadata: MetaView, event: TurnEvent) -> Seq<ItemView> {
    match event {
        TurnEvent::Update { content, .. } => seq![
            ItemView::Data { metadata, content_type: dotted_id + ".update"@, content: content@ },
        ],
        TurnEvent::Callback { id, name, request } => seq![
            ItemView::Request {
                request_id: ids::callback_form(id),
                request_data: JsonView::Object(
                    json::put(
                        json::put(Seq::empty(), "callback"@, JsonView::Text(name@)),
                        "request"@,
                        request@,
                    ),
                ),
                timeout_ms: NO_ADVERTISED_TIMEOUT_MS,
            },
        ],
        TurnEvent::Terminal { stop, value, .. } => seq![
            ItemView::Data {
                metadata,
                content_type: dotted_id + ".terminal"@,
                content: JsonView::Object(
                    json::put(
                        json::put(Seq::empty(), "stop"@, ir::stop_json(stop@)),
                        "value"@,
                        match value {
                            Some(v) => v@,
                            None => JsonView::Null,
                        },
                    ),
                ),
            },
            ItemView::Done { metadata },
        ],
    }
}

/// The stream items that stand for the events of a turn.
pub open spec fn projections(dotted_id: Seq<char>, metadata: MetaView, events: Seq<TurnEvent>) -> Seq<ItemView>
    decreases events.len(),
{
    if events.len() == 0 {
        Seq::empty()
    } else {
        projections(dotted_id, metadata, events.drop_last()) + projection(dotted_id, metadata, events.last())
    }
}

/// The stream items that stand for an event of a turn.
pub fn project_event(dotted_id: &str, metadata: &StreamMetadata, event: TurnEvent) -> (r: Vec<PlexusStreamItem>)
    ensures
        streaming::item_views(r@) == projection(dotted_id@, metadata@, event),
        match event {
            TurnEvent::Update { content, .. } => r@.len() == 1 && (r@[0] matches PlexusStreamItem::Data {
                content: c,
                ..
            } && c == content),
            TurnEvent::Callback { .. } => r@.len() == 1 && r@[0] is Request,
            TurnEvent::Terminal { .. } => r@.len() == 2 && r@[0] is Data && r@[1] is Done,
        },
{
    let mut items: Vec<PlexusStreamItem> = Vec::new();
    match event {
        TurnEvent::Update { content, .. } => {
            items.push(
                PlexusStreamItem::Data {
                    metadata: metadata.copy(),
                    content_type: join2(dotted_id, ".update"),
                    content,
                },
            );
        },
        TurnEvent::Callback { id, name, request } => {
            let mut data: Vec<(String, Json)> = Vec::new();
            assert(json::entries_view(data@) =~= Seq::empty());
            put_entry(&mut data, "callback", Json::Text(name));
            put_entry(&mut data, "request", request);
            proof {
                json::lemma_object_view(data);
            }
            items.push(
                PlexusStreamItem::Request {
                    request_id: id.to_text(),
                    request_data: Json::Object(data),
                    timeout_ms: NO_ADVERTISED_TIMEOUT_MS,
                },
            );
        },
        TurnEvent::Terminal { stop, value, .. } => {
            let mut data: Vec<(String, Json)> = Vec::new();
            assert(json::entries_view(data@) =~= Seq::empty());
            put_entry(&mut data, "stop", stop.to_json());
            let value = match value {
                Some(v) => v,
                None => Json::Null,
            };
            put_entry(&mut data, "value", value);
            proof {
                json::lemma_object_view(data);
            }
            items.push(
                PlexusStreamItem::Data {
                    metadata: metadata.copy(),
                    content_type: join2(dotted_id, ".terminal"),
                    content: Json::Object(data),
                },
            );
            items.push(PlexusStreamItem::Done { metadata: metadata.copy() });
        },
    }
    assert(streaming::item_views(items@) =~= projection(dotted_id@, metadata@, event));
    items
}

/// The stream items that stand for the events of a turn.
pub fn turn_stream_to_plexus_stream(dotted_id: &str, metadata: &StreamMetadata, events: Vec<TurnEvent>) -> (r: Vec<
    PlexusStreamItem,
>)
    ensures
        streaming::item_views(r@) == projections(dotted_id@, metadata@, events@),
{
    let ghost all = events@;
    let mut rest = events;
    let mut out: Vec<PlexusStreamItem> = Vec::new();
    let ghost mut done: int = 0;
    assert(all.skip(0) =~= all);
    assert(all.take(0) =~= Seq::empty());
    assert(streaming::item_views(out@) =~= Seq::empty());
    while rest.len() > 0
        invariant
            0 <= done <= all.len(),
            rest@ == all.skip(done),
            streaming::item_views(out@) == projections(dotted_id@, metadata@, all.take(done)),
        decreases rest.len(),
    {
        let ghost before = streaming::item_views(out@);
        let event = rest.remove(0);
        proof {
            assert(all.skip(done)[0] == all[done]);
            assert(all.skip(done).remove(0) =~= all.skip(done + 1));
            assert(all.take(done + 1).drop_last() =~= all.take(done));
            assert(all.take(done + 1).last() == all[done]);
        }
        let mut items = project_event(dotted_id, metadata, event);
        let ghost added = streaming::item_views(items@);
        out.append(&mut items);
        proof {
            assert(streaming::item_views(out@) =~= before + added);
            done = done + 1;
        }
    }
    proof {
        assert(all.take(all.len() as int) =~= all);
    }
    out
}

/// Where the events of a turn end with its one terminal, the stream that stands for them
/// ends with its one end item.
pub proof fn law_a_resolved_turn_ends_its_stream(dotted_id: Seq<char>, metadata: MetaView, events: Seq<TurnEvent>)
    requires
        entry::is_trace(events, true),
    ensures
        projections(dotted_id, metadata, events).len() > 0,
        forall|i: int|
            0 <= i < projections(dotted_id, metadata, events).len() ==> ((#[trigger] projections(
                dotted_id,
                metadata,
                events,
            )[i] is Done) <==> i == projections(dotted_id, metadata, events).len() - 1),
{
    let before = projections(dotted_id, metadata, events.drop_last());
    lemma_quiet_has_no_end(dotted_id, metadata, events.drop_last());
    let last = projection(dotted_id, metadata, events.last());
    assert forall|i: int| 0 <= i < projections(dotted_id, metadata, events).len() implies ((#[trigger] projections(
        dotted_id,
        metadata,
        events,
    )[i] is Done) <==> i == projections(dotted_id, metadata, events).len() - 1) by {
        if i < before.len() {
            assert(projections(dotted_id, metadata, events)[i] == before[i]);
        } else {
            assert(projections(dotted_id, metadata, events)[i] == last[i - before.len()]);
        }
    }
}

proof fn lemma_quiet_has_no_end(dotted_id: Seq<char>, metadata: MetaView, events: Seq<TurnEvent>)
    requires
        entry::quiet(events),
    ensures
        forall|i: int|
            0 <= i < projections(dotted_id, metadata, events).len() ==> !(#[trigger] projections(
                dotted_id,
                metadata,
                events,
            )[i] is Done),
    decreases events.len(),
{
    if events.len() > 0 {
        let rest = events.drop_last();
        assert forall|i: int| 0 <= i < rest.len() implies !(#[trigger] rest[i] is Terminal) by {
            assert(rest[i] == events[i]);
        }
        lemma_quiet_has_no_end(dotted_id, metadata, rest);
        let before = projections(dotted_id, metadata, rest);
        assert(!(events[events.len() - 1] is Terminal));
        assert forall|i: int| 0 <= i < projections(dotted_id, metadata, events).len() implies !(
        #[trigger] projections(dotted_id, metadata, events)[i] is Done) by {
            if i < before.len() {
                assert(projections(dotted_id, metadata, events)[i] == before[i]);
            } else {
                assert(projections(dotted_id, metadata, events)[i] == projection(
                    dotted_id,
                    metadata,
                    events.last(),
                )[i - before.len()]);
            }
        }
    }
}

/// A service with its handlers. `H` is a handler, `C` what a live turn is controlled with.
pub struct IrActivation<H, C> {
    pub service: ActivationIr,
    pub table: HandlerTable<H>,
    pub peer: PeerCapabilities,
    /// The live turns, by identifier: from their opening until they resolve.
    pub live: Table<u128, C>,
    /// Every turn that was opened, in order.
    pub opened: Vec<TurnId>,
}

/// The turn that was opened last; the one numbered 0 where none was.
pub open spec fn latest(opened: Seq<TurnId>) -> TurnId {
    if opened.len() == 0 {
        TurnId(0)
    } else {
        opened.last()
    }
}

/// Why a callback of a turn that is not live takes no answer: the turn has ended, or it is
/// none of the turns that were opened.
pub open spec fn not_live(opened: Seq<TurnId>, turn: TurnId) -> RespondError {
    if opened.contains(turn) {
        RespondError::TurnEnded(turn)
    } else {
        RespondError::WrongTurn { expected: latest(opened), actual: turn }
    }
}

/// The help text of a method: its description, unless that is empty.
pub open spec fn help_of(service: ActivationIr, name: Seq<char>) -> Option<Seq<char>> {
    let at = ir::method_at(service.methods@, name);
    if at < service.methods@.len() && service.methods@[at].description@.len() > 0 {
        Some(service.methods@[at].description@)
    } else {
        None
    }
}

/// The name of a method with its namespace: the one it declares, else its name behind the
/// service's.
pub open spec fn dotted_id_of(service: ActivationIr, name: Seq<char>) -> Seq<char> {
    let at = ir::method_at(service.methods@, name);
    if at < service.methods@.len() {
        service.methods@[at].dotted_id@
    } else {
        text::dotted(service.namespace@, name)
    }
}

/// The names of methods, in order.
pub open spec fn ir_method_names(methods: Seq<MethodIr>) -> Seq<Seq<char>> {
    Seq::new(methods.len(), |i: int| methods[i].name@)
}

/// What is found before an activation opens a turn on a request, which gets the activation's
/// peer where it does not say what its own can serve.
pub open spec fn asked_of<H, C>(activation: IrActivation<H, C>, request: TurnRequest) -> Result<int, EntryErrorView> {
    entry::preflight_for(
        activation.service,
        activation.table,
        request.method@,
        request.auth is Some,
        if request.peer@ is None {
            activation.peer@
        } else {
            request.peer@
        },
    )
}

impl<H, C> IrActivation<H, C> {
    /// What always holds of an activation: every live turn is one that was opened.
    pub open spec fn wf(&self) -> bool {
        forall|t: u128| #[trigger] self.live@.dom().contains(t) ==> self.opened@.contains(TurnId(t))
    }

    /// A service with its handlers, an unrestricted peer and no live turn.
    pub fn new(service: ActivationIr, table: HandlerTable<H>) -> (r: Self)
        ensures
            r.service == service,
            r.table == table,
            r.peer@ is None,
            r.live@ == Map::<u128, C>::empty(),
            r.opened@.len() == 0,
            r.wf(),
    {
        IrActivation { service, table, peer: PeerCapabilities::all(), live: Table::new(), opened: Vec::new() }
    }

    /// The same service with a peer of which it is known what it can serve.
    pub fn with_peer_capabilities(self, peer: PeerCapabilities) -> (r: Self)
        ensures
            r == (IrActivation { peer, ..self }),
    {
        IrActivation { service: self.service, table: self.table, peer, live: self.live, opened: self.opened }
    }

    /// The service.
    pub fn ir(&self) -> (r: &ActivationIr)
        ensures
            *r == self.service,
    {
        &self.service
    }

    /// The handlers.
    pub fn handlers(&self) -> (r: &HandlerTable<H>)
        ensures
            *r == self.table,
    {
        &self.table
    }

    /// The names of the methods, in order.
    pub fn methods(&self) -> (r: Vec<String>)
        ensures
            text::texts(r@) == ir_method_names(self.service.methods@),
    {
        let mut out: Vec<String> = Vec::new();
        let mut i: usize = 0;
        while i < self.service.methods.len()
            invariant
                i <= self.service.methods.len(),
                out@.len() == i,
                forall|j: int| 0 <= j < i ==> (#[trigger] out@[j])@ == self.service.methods@[j].name@,
            decreases self.service.methods.len() - i,
        {
            out.push(self.service.methods[i].name.clone());
            i += 1;
        }
        assert(text::texts(out@) =~= ir_method_names(self.service.methods@));
        out
    }

    /// The help text of a method.
    pub fn method_help(&self, method: &str) -> (r: Option<String>)
        ensures
            text::opt_text(r) == help_of(self.service, method@),
    {
        match self.service.method(method) {
            Some(m) => if m.description.as_str().is_empty() {
                None
            } else {
                Some(m.description.clone())
            },
            None => None,
        }
    }

    /// The name of a method with its namespace.
    pub fn dotted_id(&self, method: &str) -> (r: String)
        ensures
            r@ == dotted_id_of(self.service, method@),
    {
        match self.service.method(method) {
            Some(m) => m.dotted_id.clone(),
            None => dotted_text(self.service.namespace.as_str(), method),
        }
    }

    /// The identifier of the service.
    pub fn plugin_id(&self) -> (r: u128)
        ensures
            r == registry::plugin_id_of(self.service.namespace@, self.service.version@),
    {
        plugin_id(self.service.namespace.as_str(), self.service.version.as_str())
    }

    /// Opens a turn, which is live from then on under `control`. A request that does not say
    /// what its peer can serve gets the peer of this service.
    pub fn open_turn<'a, T>(&'a mut self, request: TurnRequest, control: C) -> (r: Result<
        OpenTurn<'a, H, (), T>,
        EntryError,
    >)
        ensures
            *final(self) == (IrActivation { live: final(self).live, opened: final(self).opened, ..*old(self) }),
            old(self).wf() ==> final(self).wf(),
            match r {
                Ok(t) => {
                    let at = ir::method_at(old(self).service.methods@, request.method@);
                    &&& asked_of(*old(self), request) == Ok::<int, EntryErrorView>(at)
                    &&& handler::last_under(
                        old(self).table.entries@,
                        old(self).service.methods@[at].name@,
                    ) == Some(*t.handler)
                    &&& t.params == request.params
                    &&& t.context.activation@ == old(self).service.namespace@
                    &&& t.context.method@ == old(self).service.methods@[at]@
                    &&& t.context.auth == request.auth
                    &&& t.context.raw_ctx == request.raw_ctx
                    &&& t.context.update_seq == 0
                    &&& t.context.turn_id == t.control.turn
                    &&& t.control.wf()
                    &&& t.control.is_fresh()
                    &&& final(self).live@ == old(self).live@.insert(t.control.turn.0, control)
                    &&& final(self).opened@ == old(self).opened@.push(t.control.turn)
                },
                Err(e) => asked_of(*old(self), request) == Err::<int, EntryErrorView>(e@) && *final(self) == *old(
                    self,
                ),
            },
    {
        let peer = if request.peer.is_unrestricted() {
            self.peer.copy()
        } else {
            request.peer.copy()
        };
        let asked = request.with_peer(peer);
        match entry::entry(&self.service, &self.table, asked) {
            Ok(t) => {
                let ghost before = self.opened@;
                let ghost known = self.live@;
                self.live.insert(t.control.turn.0, control);
                self.opened.push(t.control.turn);
                proof {
                    let turn = t.control.turn;
                    let after = self.opened@;
                    assert(after[before.len() as int] == turn);
                    assert forall|u: u128|
                        (#[trigger] known.insert(turn.0, control).dom().contains(u)) && (u == turn.0 || before.contains(
                            TurnId(u),
                        )) implies after.contains(TurnId(u)) by {
                        if u != turn.0 {
                            let i = choose|i: int| 0 <= i < before.len() && before[i] == TurnId(u);
                            assert(after[i] == TurnId(u));
                        }
                    }
                }
                Ok(t)
            },
            Err(e) => Err(e),
        }
    }

    /// The document of the service.
    pub fn connectome_subtree(&self) -> (r: ActivationIr)
        ensures
            r@ == self.service@,
    {
        self.service.copy()
    }

    /// What a live turn is controlled with; a turn that is not live has ended.
    pub fn control_for(&self, turn: TurnId) -> (r: Result<&C, RespondError>)
        ensures
            match r {
                Ok(c) => self.live@.dom().contains(turn.0) && *c == self.live@[turn.0],
                Err(e) => !self.live@.dom().contains(turn.0) && e == RespondError::TurnEnded(turn),
            },
    {
        match self.live.get(&turn.0) {
            Some(c) => Ok(c),
            None => Err(RespondError::TurnEnded(turn)),
        }
    }

    /// Whether a turn was opened.
    fn was_opened(&self, turn: TurnId) -> (r: bool)
        ensures
            r == self.opened@.contains(turn),
    {
        let mut i: usize = 0;
        while i < self.opened.len()
            invariant
                i <= self.opened.len(),
                forall|j: int| 0 <= j < i ==> #[trigger] self.opened@[j] != turn,
            decreases self.opened.len() - i,
        {
            if self.opened[i] == turn {
                return true;
            }
            i += 1;
        }
        false
    }

    /// The control of the live turn that an answer quotes.
    fn answerable(&self, turn: TurnId) -> (r: Result<&C, RespondError>)
        ensures
            match r {
                Ok(c) => self.live@.dom().contains(turn.0) && *c == self.live@[turn.0],
                Err(e) => !self.live@.dom().contains(turn.0) && e == not_live(self.opened@, turn),
            },
    {
        match self.live.get(&turn.0) {
            Some(c) => Ok(c),
            None => if self.was_opened(turn) {
                Err(RespondError::TurnEnded(turn))
            } else {
                let expected = if self.opened.len() == 0 {
                    TurnId(0)
                } else {
                    self.opened[self.opened.len() - 1]
                };
                Err(RespondError::WrongTurn { expected, actual: turn })
            },
        }
    }

    /// The control of the turn that a callback's answer goes to. An answer that quotes a turn
    /// which was never opened is addressed to the wrong turn; one that quotes a turn which was
    /// live and is so no more comes too late.
    pub fn respond(&self, id: CallbackId) -> (r: Result<&C, RespondError>)
        ensures
            match r {
                Ok(c) => self.live@.dom().contains(id.turn.0) && *c == self.live@[id.turn.0],
                Err(e) => !self.live@.dom().contains(id.turn.0) && e == not_live(self.opened@, id.turn),
            },
    {
        self.answerable(id.turn)
    }

    /// The control of the turn that a callback's failure goes to.
    pub fn fail_callback(&self, id: CallbackId) -> (r: Result<&C, RespondError>)
        ensures
            match r {
                Ok(c) => self.live@.dom().contains(id.turn.0) && *c == self.live@[id.turn.0],
                Err(e) => !self.live@.dom().contains(id.turn.0) && e == not_live(self.opened@, id.turn),
            },
    {
        self.answerable(id.turn)
    }

    /// The control of the turn that is to be cancelled.
    pub fn cancel_turn(&self, turn: TurnId) -> (r: Result<&C, RespondError>)
        ensures
            match r {
                Ok(c) => self.live@.dom().contains(turn.0) && *c == self.live@[turn.0],
                Err(e) => !self.live@.dom().contains(turn.0) && e == RespondError::TurnEnded(turn),
            },
    {
        self.control_for(turn)
    }

    /// A turn that has resolved is live no more.
    pub fn turn_resolved(&mut self, turn: TurnId)
        ensures
            *final(self) == (IrActivation { live: final(self).live, ..*old(self) }),
            final(self).live@ == old(self).live@.remove(turn.0),
            old(self).wf() ==> final(self).wf(),
    {
        let _ended = self.live.remove(&turn.0);
    }

    /// Runs an opened turn through what it wakes up to, as its handle does, and drops it from
    /// the live turns where it resolves.
    pub fn collect<T>(&mut self, handle: TurnHandle<T>, wakes: Vec<Wake>) -> (r: (
        Vec<TurnEvent>,
        TurnControl<T>,
        Vec<Delivery<T>>,
    ))
        requires
            handle.control.wf(),
            !handle.control.resolved,
            entry::quiet(entry::heard(wakes@)),
        ensures
            entry::collected(handle.control, wakes@, r.0@, r.1, r.2@),
            *final(self) == (IrActivation { live: final(self).live, ..*old(self) }),
            final(self).live@ == (if entry::ending(wakes@) is Some {
                old(self).live@.remove(handle.control.turn.0)
            } else {
                old(self).live@
            }),
            old(self).wf() ==> final(self).wf(),
    {
        let turn = handle.turn_id();
        let (events, control, answers) = handle.collect(wakes);
        if control.resolved {
            self.turn_resolved(turn);
        }
        (events, control, answers)
    }

    /// The stream items that stand for an event of a turn. A turn whose terminal goes out is
    /// live no more.
    pub fn project(&mut self, dotted_id: &str, metadata: &StreamMetadata, event: TurnEvent) -> (r: Vec<
        PlexusStreamItem,
    >)
        ensures
            streaming::item_views(r@) == projection(dotted_id@, metadata@, event),
            *final(self) == (IrActivation { live: final(self).live, ..*old(self) }),
            final(self).live@ == (match event {
                TurnEvent::Terminal { turn, .. } => old(self).live@.remove(turn.0),
                _ => old(self).live@,
            }),
            old(self).wf() ==> final(self).wf(),
    {
        match &event {
            TurnEvent::Terminal { turn, .. } => {
                self.turn_resolved(*turn);
            },
            _ => {},
        }
        project_event(dotted_id, metadata, event)
    }

    /// How many turns are live.
    pub fn live_turns(&self) -> (r: usize)
        ensures
            r == self.live@.dom().len(),
            self.live@.dom().finite(),
    {
        self.live.len()
    }
}

/// A turn that was opened and has resolved leaves the live turns as they were before it.
pub proof fn law_a_resolved_turn_is_live_no_more<C>(before: Map<u128, C>, turn: TurnId, control: C)
    requires
        !before.dom().contains(turn.0),
    ensures
        before.insert(turn.0, control).dom().contains(turn.0),
        before.insert(turn.0, control).remove(turn.0) == before,
{
    assert(before.insert(turn.0, control).remove(turn.0) =~= before);
}

/// An answer that quotes a turn which was never opened is refused as addressed to the wrong
/// turn; one that quotes a turn which was opened and is live no more, as too late.
pub proof fn law_a_quoted_turn_is_one_that_was_opened(opened: Seq<TurnId>, turn: TurnId)
    ensures
        !opened.contains(turn) ==> not_live(opened, turn) == (RespondError::WrongTurn {
            expected: latest(opened),
            actual: turn,
        }),
        opened.contains(turn) ==> not_live(opened, turn) == RespondError::TurnEnded(turn),
{
}

/// Once its terminal has gone out a turn takes no more answers, while the other turns go on.
pub proof fn law_a_turn_that_ended_takes_no_answers<C>(before: Map<u128, C>, turn: TurnId, other: TurnId)
    requires
        turn.0 != other.0,
    ensures
        !before.remove(turn.0).dom().contains(turn.0),
        before.remove(turn.0).dom().contains(other.0) == before.dom().contains(other.0),
        before.dom().contains(other.0) ==> before.remove(turn.0)[other.0] == before[other.0],
{
}

proof fn lemma_projections_split(dotted_id: Seq<char>, metadata: MetaView, a: Seq<TurnEvent>, b: Seq<TurnEvent>)
    ensures
        projections(dotted_id, metadata, a + b) == projections(dotted_id, metadata, a) + projections(
            dotted_id,
            metadata,
            b,
        ),
    decreases b.len(),
{
    if b.len() == 0 {
        assert(a + b =~= a);
        assert(projections(dotted_id, metadata, a) + projections(dotted_id, metadata, b) =~= projections(
            dotted_id,
            metadata,
            a,
        ));
    } else {
        assert((a + b).drop_last() =~= a + b.drop_last());
        assert((a + b).last() == b.last());
        lemma_projections_split(dotted_id, metadata, a, b.drop_last());
        assert(projections(dotted_id, metadata, a + b) =~= projections(dotted_id, metadata, a) + projections(
            dotted_id,
            metadata,
            b,
        ));
    }
}

proof fn lemma_projection_of_one(dotted_id: Seq<char>, metadata: MetaView, event: TurnEvent)
    ensures
        projections(dotted_id, metadata, seq![event]) == projection(dotted_id, metadata, event),
{
    assert(seq![event].drop_last() =~= Seq::empty());
    reveal_with_fuel(projections, 2);
    assert(projections(dotted_id, metadata, seq![event]) =~= projection(dotted_id, metadata, event));
}

proof fn lemma_projection_between(
    dotted_id: Seq<char>,
    metadata: MetaView,
    before: Seq<TurnEvent>,
    event: TurnEvent,
    after: Seq<TurnEvent>,
)
    ensures
        projections(dotted_id, metadata, before + seq![event] + after) == projections(dotted_id, metadata, before)
            + projection(dotted_id, metadata, event) + projections(dotted_id, metadata, after),
{
    lemma_projections_split(dotted_id, metadata, before, seq![event]);
    lemma_projections_split(dotted_id, metadata, before + seq![event], after);
    lemma_projection_of_one(dotted_id, metadata, event);
}

/// A turn that says nothing streams nothing.
pub proof fn law_no_event_no_item(dotted_id: Seq<char>, metadata: MetaView)
    ensures
        projections(dotted_id, metadata, Seq::empty()) == Seq::<ItemView>::empty(),
{
}

/// An update reaches the client whole: wherever it stands among the events of a turn, one data
/// item stands for it, in its place, under the method's name and with the update's content.
pub proof fn law_an_update_reaches_the_client(
    dotted_id: Seq<char>,
    metadata: MetaView,
    before: Seq<TurnEvent>,
    turn: TurnId,
    seq: u64,
    content: Json,
    after: Seq<TurnEvent>,
)
    ensures
        projections(dotted_id, metadata, before + seq![TurnEvent::Update { turn, seq, content }] + after)
            == projections(dotted_id, metadata, before) + seq![
            ItemView::Data { metadata, content_type: dotted_id + ".update"@, content: content@ },
        ] + projections(dotted_id, metadata, after),
{
    lemma_projection_between(dotted_id, metadata, before, TurnEvent::Update { turn, seq, content }, after);
}

/// A callback reaches the client whole: wherever it stands among the events of a turn, one
/// request stands for it, in its place. It carries the text of the callback's identifier and no
/// timeout; the callback's name stands under one key, what it asks under another, and nothing
/// under any other.
pub proof fn law_a_callback_reaches_the_client(
    dotted_id: Seq<char>,
    metadata: MetaView,
    before: Seq<TurnEvent>,
    id: CallbackId,
    name: String,
    request: Json,
    after: Seq<TurnEvent>,
)
    ensures
        exists|data: JsonView|
            {
                &&& #[trigger] json::json_get(data, "request"@) == Some(request@)
                &&& json::json_get(data, "callback"@) == Some(JsonView::Text(name@))
                &&& forall|k: Seq<char>|
                    k != "request"@ && k != "callback"@ ==> #[trigger] json::json_get(data, k) is None
                &&& projections(
                    dotted_id,
                    metadata,
                    before + seq![TurnEvent::Callback { id, name, request }] + after,
                ) == projections(dotted_id, metadata, before) + seq![
                    ItemView::Request { request_id: ids::callback_form(id), request_data: data, timeout_ms: 0 },
                ] + projections(dotted_id, metadata, after)
            },
{
    let event = TurnEvent::Callback { id, name, request };
    lemma_projection_between(dotted_id, metadata, before, event, after);
    let data = projection(dotted_id, metadata, event)[0]->request_data;
    assert("request"@ != "callback"@) by {
        reveal_strlit("request");
        reveal_strlit("callback");
        assert("request"@.len() != "callback"@.len());
    }
    assert(json::json_get(data, "request"@) == Some(request@)) by {
        lemma_callback_data(name@, request@, "request"@);
    }
    assert(json::json_get(data, "callback"@) == Some(JsonView::Text(name@))) by {
        lemma_callback_data(name@, request@, "callback"@);
    }
    assert forall|k: Seq<char>| k != "request"@ && k != "callback"@ implies #[trigger] json::json_get(data, k) is None by {
        lemma_callback_data(name@, request@, k);
    }
}

proof fn lemma_callback_data(name: Seq<char>, request: JsonView, k: Seq<char>)
    ensures
        json::entry_at(
            json::put(json::put(Seq::empty(), "callback"@, JsonView::Text(name)), "request"@, request),
            k,
        ) == (if k == "request"@ {
            Some(request)
        } else if k == "callback"@ {
            Some(JsonView::Text(name))
        } else {
            None
        }),
{
    broadcast use wire::lemma_read_put;

    assert(json::entry_at(Seq::empty(), k) is None);
}

/// A terminal reaches the client whole: data and then the end stand for it, in its place. The
/// data says how the turn stopped and with what value, null where there is none, and nothing
/// else.
pub proof fn law_a_terminal_reaches_the_client(
    dotted_id: Seq<char>,
    metadata: MetaView,
    before: Seq<TurnEvent>,
    turn: TurnId,
    stop: StopReason,
    value: Option<Json>,
    after: Seq<TurnEvent>,
)
    ensures
        exists|data: JsonView|
            {
                &&& #[trigger] json::json_get(data, "stop"@) == Some(ir::stop_json(stop@))
                &&& json::json_get(data, "value"@) == Some(
                    match value {
                        Some(v) => v@,
                        None => JsonView::Null,
                    },
                )
                &&& forall|k: Seq<char>|
                    k != "stop"@ && k != "value"@ ==> #[trigger] json::json_get(data, k) is None
                &&& projections(
                    dotted_id,
                    metadata,
                    before + seq![TurnEvent::Terminal { turn, stop, value }] + after,
                ) == projections(dotted_id, metadata, before) + seq![
                    ItemView::Data { metadata, content_type: dotted_id + ".terminal"@, content: data },
                    ItemView::Done { metadata },
                ] + projections(dotted_id, metadata, after)
            },
{
    let event = TurnEvent::Terminal { turn, stop, value };
    lemma_projection_between(dotted_id, metadata, before, event, after);
    let data = projection(dotted_id, metadata, event)[0]->content;
    let shown = match value {
        Some(v) => v@,
        None => JsonView::Null,
    };
    assert("stop"@ != "value"@) by {
        reveal_strlit("stop");
        reveal_strlit("value");
        assert("stop"@.len() != "value"@.len());
    }
    assert(json::json_get(data, "stop"@) == Some(ir::stop_json(stop@))) by {
        lemma_terminal_data(ir::stop_json(stop@), shown, "stop"@);
    }
    assert(json::json_get(data, "value"@) == Some(shown)) by {
        lemma_terminal_data(ir::stop_json(stop@), shown, "value"@);
    }
    assert forall|k: Seq<char>| k != "stop"@ && k != "value"@ implies #[trigger] json::json_get(data, k) is None by {
        lemma_terminal_data(ir::stop_json(stop@), shown, k);
    }
}

proof fn lemma_terminal_data(stop: JsonView, value: JsonView, k: Seq<char>)
    ensures
        json::entry_at(json::put(json::put(Seq::empty(), "stop"@, stop), "value"@, value), k) == (if k == "value"@ {
            Some(value)
        } else if k == "stop"@ {
            Some(stop)
        } else {
            None
        }),
{
    broadcast use wire::lemma_read_put;

    assert(json::entry_at(Seq::empty(), k) is None);
}

/// A service tells of a method what the first of its name declares: its description where it is
/// not empty, and its name with the namespace. Of a name that it does not declare it tells no
/// description, and the name stands behind the namespace and a dot.
pub proof fn law_a_service_tells_what_its_methods_declare(service: ActivationIr, name: Seq<char>, i: int)
    requires
        0 <= i <= service.methods@.len(),
        i < service.methods@.len() ==> service.methods@[i].name@ == name,
        forall|j: int| 0 <= j < i ==> (#[trigger] service.methods@[j]).name@ != name,
    ensures
        i < service.methods@.len() ==> {
            &&& dotted_id_of(service, name) == service.methods@[i].dotted_id@
            &&& help_of(service, name) is Some <==> service.methods@[i].description@.len() > 0
            &&& help_of(service, name) is Some ==> help_of(service, name)->0 == service.methods@[i].description@
        },
        i == service.methods@.len() ==> {
            &&& dotted_id_of(service, name) == service.namespace@ + seq!['.'] + name
            &&& help_of(service, name) is None
        },
        ir_method_names(service.methods@).len() == service.methods@.len(),
        forall|j: int|
            0 <= j < service.methods@.len() ==> #[trigger] ir_method_names(service.methods@)[j]
                == service.methods@[j].name@,
{
    ir::law_the_first_of_a_name_is_found(service.methods@, name);
    let at = ir::method_at(service.methods@, name);
    if at < i {
        assert(service.methods@[at].name@ != name);
    }
    if i < at {
        assert(service.methods@[i].name@ != name);
    }
    assert(text::dotted(service.namespace@, name) =~= service.namespace@ + seq!['.'] + name) by {
        reveal_strlit(".");
    }
}

/// A request that says nothing of its peer is measured by the activation's; one that does is
/// measured by its own, whatever the activation's can serve.
pub proof fn law_a_request_is_measured_by_its_own_peer<H, C>(
    activation: IrActivation<H, C>,
    request: TurnRequest,
    i: int,
)
    requires
        0 <= i < activation.service.methods@.len(),
        activation.service.methods@[i].name@ == request.method@,
        forall|j: int| 0 <= j < i ==> (#[trigger] activation.service.methods@[j]).name@ != request.method@,
    ensures
        asked_of(activation, request) is Ok <==> {
            &&& exists|k: int|
                0 <= k < activation.table.entries@.len() && (#[trigger] activation.table.entries@[k]).0@
                    == request.method@
            &&& activation.service.methods@[i].auth == AuthRequirementIr::Public || request.auth is Some
            &&& forall|c: int|
                0 <= c < activation.service.methods@[i].callbacks@.len() ==> {
                    let name = (#[trigger] activation.service.methods@[i].callbacks@[c]).name@;
                    &&& request.peer@ is Some ==> request.peer@->0.contains(name)
                    &&& request.peer@ is None && activation.peer@ is Some ==> activation.peer@->0.contains(name)
                }
        },
        asked_of(activation, request) matches Ok(at) ==> at == i,
{
    let peer = if request.peer@ is None {
        activation.peer@
    } else {
        request.peer@
    };
    entry::law_a_turn_opens_where_nothing_stands_against_it(
        activation.service,
        activation.table,
        request.method@,
        request.auth is Some,
        peer,
        i,
    );
}

/// An answer to a turn that is not live is refused as one to a turn that has ended where the turn
/// was once opened; else as one to the wrong turn, with the turn that was opened last as the one
/// that was expected.
pub proof fn law_an_answer_to_no_live_turn_is_refused(opened: Seq<TurnId>, turn: TurnId)
    ensures
        (exists|i: int| 0 <= i < opened.len() && opened[i] == turn) ==> not_live(opened, turn) == RespondError::TurnEnded(
            turn,
        ),
        (forall|i: int| 0 <= i < opened.len() ==> #[trigger] opened[i] != turn) ==> {
            &&& not_live(opened, turn) is WrongTurn
            &&& not_live(opened, turn)->actual == turn
            &&& opened.len() > 0 ==> not_live(opened, turn)->expected == opened[opened.len() - 1]
            &&& opened.len() == 0 ==> not_live(opened, turn)->expected == TurnId(0)
        },
{
}

} // verus!
