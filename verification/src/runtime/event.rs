//! What a turn emits: updates, callback requests, and one terminal.

use crate::ir;
use crate::ir::{StopReason, StopView};
use crate::json;
use crate::json::{put_entry, Json, JsonView};
use crate::plexus::wire;
use crate::runtime::ids;
use crate::runtime::ids::{CallbackId, TurnId};
use vstd::prelude::*;

verus! {

/// One item on a turn's event stream.
#[derive(Debug, PartialEq)]
pub enum TurnEvent {
    /// An intermediate value.
    Update { turn: TurnId, seq: u64, content: Json },
    /// A server-to-client request that awaits a response quoting `id`.
    Callback { id: CallbackId, name: String, request: Json },
    /// The turn's single terminal value.
    Terminal { turn: TurnId, stop: StopReason, value: Option<Json> },
}

/// The turn that an event belongs to.
pub open spec fn event_turn(e: TurnEvent) -> TurnId {
    match e {
        TurnEvent::Update { turn, .. } => turn,
        TurnEvent::Callback { id, .. } => id.turn,
        TurnEvent::Terminal { turn, .. } => turn,
    }
}

/// The wire tag of an event.
pub open spec fn event_tag(e: TurnEvent) -> Seq<char> {
    match e {
        TurnEvent::Update { .. } => "update"@,
        TurnEvent::Callback { .. } => "callback"@,
        TurnEvent::Terminal { .. } => "terminal"@,
    }
}

/// The wire form of a callback identifier with its parts apart.
pub open spec fn id_json(id: CallbackId) -> JsonView {
    JsonView::Object(
        json::put(
            json::put(Seq::empty(), "turn"@, JsonView::Text(ids::turn_form(id.turn))),
            "seq"@,
            JsonView::Unsigned(id.seq),
        ),
    )
}

/// The wire form of an event: an object tagged by `event`.
pub open spec fn event_json(e: TurnEvent) -> JsonView {
    let tagged = json::put(Seq::empty(), "event"@, JsonView::Text(event_tag(e)));
    JsonView::Object(
        match e {
            TurnEvent::Update { turn, seq, content } => json::put(
                json::put(
                    json::put(tagged, "turn"@, JsonView::Text(ids::turn_form(turn))),
                    "seq"@,
                    JsonView::Unsigned(seq),
                ),
                "content"@,
                content@,
            ),
            TurnEvent::Callback { id, name, request } => json::put(
                json::put(json::put(tagged, "id"@, id_json(id)), "name"@, JsonView::Text(name@)),
                "request"@,
                request@,
            ),
            TurnEvent::Terminal { turn, stop, value } => {
                let e = json::put(
                    json::put(tagged, "turn"@, JsonView::Text(ids::turn_form(turn))),
                    "stop"@,
                    ir::stop_json(stop@),
                );
                match value {
                    Some(v) => json::put(e, "value"@, v@),
                    None => e,
                }
            },
        },
    )
}

/// What an event says.
#[verifier::ext_equal]
pub enum EventView {
    Update { turn: TurnId, seq: u64, content: JsonView },
    Callback { id: CallbackId, name: Seq<char>, request: JsonView },
    Terminal { turn: TurnId, stop: StopView, value: Option<JsonView> },
}

impl View for TurnEvent {
    type V = EventView;

    open spec fn view(&self) -> EventView {
        match *self {
            TurnEvent::Update { turn, seq, content } => EventView::Update { turn, seq, content: content@ },
            TurnEvent::Callback { id, name, request } => EventView::Callback { id, name: name@, request: request@ },
            TurnEvent::Terminal { turn, stop, value } => EventView::Terminal {
                turn,
                stop: stop@,
                value: json::opt_json(value),
            },
        }
    }
}

proof fn lemma_keys_of_events_differ()
    ensures
        seq![
            "event"@,
            "turn"@,
            "seq"@,
            "content"@,
            "id"@,
            "name"@,
            "request"@,
            "stop"@,
            "value"@,
        ].no_duplicates(),
{
    reveal_strlit("event");
    reveal_strlit("turn");
    reveal_strlit("seq");
    reveal_strlit("content");
    reveal_strlit("id");
    reveal_strlit("name");
    reveal_strlit("request");
    reveal_strlit("stop");
    reveal_strlit("value");
    let k = seq!["event"@, "turn"@, "seq"@, "content"@, "id"@, "name"@, "request"@, "stop"@, "value"@];
    assert forall|i: int, j: int| 0 <= i < j < 9 implies k[i] != k[j] by {
        assert(k[i].len() != k[j].len() || k[i][0] != k[j][0]);
    }
}

/// What stands under the keys of an event's wire form: a tag that tells the three kinds apart,
/// and what the event says.
pub proof fn law_an_event_shows_what_it_says(e: TurnEvent)
    ensures
        json::json_get(event_json(e), "event"@) == Some(JsonView::Text(event_tag(e))),
        e is Update ==> {
            &&& json::json_get(event_json(e), "turn"@) == Some(JsonView::Text(ids::turn_form(e->Update_turn)))
            &&& json::json_get(event_json(e), "seq"@) == Some(JsonView::Unsigned(e->seq))
            &&& json::json_get(event_json(e), "content"@) == Some(e->content@)
            &&& json::json_get(event_json(e), "stop"@) is None
        },
        e is Callback ==> {
            &&& json::json_get(event_json(e), "id"@) == Some(id_json(e->id))
            &&& json::json_get(event_json(e), "name"@) == Some(JsonView::Text(e->name@))
            &&& json::json_get(event_json(e), "request"@) == Some(e->request@)
        },
        e is Terminal ==> {
            &&& json::json_get(event_json(e), "turn"@) == Some(JsonView::Text(ids::turn_form(e->Terminal_turn)))
            &&& json::json_get(event_json(e), "stop"@) == Some(ir::stop_json(e->stop@))
            &&& json::json_get(event_json(e), "value"@) == json::opt_json(e->value)
            &&& json::json_get(event_json(e), "content"@) is None
        },
{
    broadcast use wire::lemma_read_put;

    lemma_keys_of_events_differ();
    let k = seq!["event"@, "turn"@, "seq"@, "content"@, "id"@, "name"@, "request"@, "stop"@, "value"@];
    assert forall|i: int, j: int| 0 <= i < 9 && 0 <= j < 9 && i != j implies #[trigger] k[i] != #[trigger] k[j] by {}
    let none = Seq::<(Seq<char>, JsonView)>::empty();
    assert(json::entry_at(none, "value"@) is None);
    assert(json::entry_at(none, "content"@) is None);
    assert(json::entry_at(none, "stop"@) is None);
}

proof fn lemma_id_is_told_by_its_parts(a: CallbackId, b: CallbackId)
    requires
        id_json(a) == id_json(b),
    ensures
        a == b,
{
    broadcast use wire::lemma_read_put;

    reveal_strlit("turn");
    reveal_strlit("seq");
    assert("turn"@.len() == 4 && "seq"@.len() == 3);
    let x = id_json(a);
    let y = id_json(b);
    assert(json::json_get(x, "turn"@) == json::json_get(y, "turn"@));
    assert(json::json_get(x, "seq"@) == json::json_get(y, "seq"@));
    ids::law_a_turn_is_told_by_its_text(a.turn, b.turn);
}

/// An event is told by its wire form: of what kind it is, and everything that it says.
pub proof fn law_an_event_is_told_by_its_wire_form(a: TurnEvent, b: TurnEvent)
    requires
        event_json(a) == event_json(b),
    ensures
        a@ == b@,
{
    law_an_event_shows_what_it_says(a);
    law_an_event_shows_what_it_says(b);
    reveal_strlit("update");
    reveal_strlit("callback");
    reveal_strlit("terminal");
    assert("update"@[0] == 'u' && "callback"@[0] == 'c' && "terminal"@[0] == 't');
    match (a, b) {
        (TurnEvent::Update { turn: t, .. }, TurnEvent::Update { turn: u, .. }) => {
            ids::law_a_turn_is_told_by_its_text(t, u);
        },
        (TurnEvent::Callback { id: i, .. }, TurnEvent::Callback { id: j, .. }) => {
            lemma_id_is_told_by_its_parts(i, j);
        },
        (TurnEvent::Terminal { turn: t, stop: s, .. }, TurnEvent::Terminal { turn: u, stop: r, .. }) => {
            ids::law_a_turn_is_told_by_its_text(t, u);
            ir::law_a_stop_is_told_by_its_wire_form(s@, r@);
        },
        _ => {},
    }
}

impl TurnEvent {
    /// An update.
    pub fn update(turn: TurnId, seq: u64, content: Json) -> (r: Self)
        ensures
            r == (TurnEvent::Update { turn, seq, content }),
    {
        TurnEvent::Update { turn, seq, content }
    }

    /// A callback request.
    pub fn callback(id: CallbackId, name: String, request: Json) -> (r: Self)
        ensures
            r == (TurnEvent::Callback { id, name, request }),
    {
        TurnEvent::Callback { id, name, request }
    }

    /// A terminal.
    pub fn terminal(turn: TurnId, stop: StopReason, value: Option<Json>) -> (r: Self)
        ensures
            r == (TurnEvent::Terminal { turn, stop, value }),
    {
        TurnEvent::Terminal { turn, stop, value }
    }

    /// The turn that the event belongs to.
    pub fn turn(&self) -> (r: TurnId)
        ensures
            r == event_turn(*self),
    {
        match self {
            TurnEvent::Update { turn, .. } => *turn,
            TurnEvent::Callback { id, .. } => id.turn,
            TurnEvent::Terminal { turn, .. } => *turn,
        }
    }

    /// Whether this is the terminal.
    pub fn is_terminal(&self) -> (r: bool)
        ensures
            r == (self is Terminal),
    {
        match self {
            TurnEvent::Terminal { .. } => true,
            _ => false,
        }
    }

    /// Whether this is an update.
    pub fn is_update(&self) -> (r: bool)
        ensures
            r == (self is Update),
    {
        match self {
            TurnEvent::Update { .. } => true,
            _ => false,
        }
    }

    /// Whether this is a callback request.
    pub fn is_callback(&self) -> (r: bool)
        ensures
            r == (self is Callback),
    {
        match self {
            TurnEvent::Callback { .. } => true,
            _ => false,
        }
    }

    /// The stop reason, present only on the terminal.
    pub fn stop_reason(&self) -> (r: Option<&StopReason>)
        ensures
            match r {
                Some(s) => self is Terminal && *s == self->stop,
                None => !(self is Terminal),
            },
    {
        match self {
            TurnEvent::Terminal { stop, .. } => Some(stop),
            _ => None,
        }
    }

    /// The wire tag.
    pub fn tag(&self) -> (r: &'static str)
        ensures
            r@ == event_tag(*self),
    {
        match self {
            TurnEvent::Update { .. } => "update",
            TurnEvent::Callback { .. } => "callback",
            TurnEvent::Terminal { .. } => "terminal",
        }
    }

    /// The wire form.
    pub fn to_json(&self) -> (r: Json)
        ensures
            r@ == event_json(*self),
    {
        let mut out: Vec<(String, Json)> = Vec::new();
        assert(json::entries_view(out@) =~= Seq::empty());
        put_entry(&mut out, "event", Json::text(self.tag()));
        match self {
            TurnEvent::Update { turn, seq, content } => {
                put_entry(&mut out, "turn", Json::Text(turn.to_text()));
                put_entry(&mut out, "seq", Json::Unsigned(*seq));
                put_entry(&mut out, "content", content.clone());
            },
            TurnEvent::Callback { id, name, request } => {
                let mut parts: Vec<(String, Json)> = Vec::new();
                assert(json::entries_view(parts@) =~= Seq::empty());
                put_entry(&mut parts, "turn", Json::Text(id.turn.to_text()));
                put_entry(&mut parts, "seq", Json::Unsigned(id.seq));
                proof {
                    json::lemma_object_view(parts);
                }
                put_entry(&mut out, "id", Json::Object(parts));
                put_entry(&mut out, "name", Json::text(name.as_str()));
                put_entry(&mut out, "request", request.clone());
            },
            TurnEvent::Terminal { turn, stop, value } => {
                put_entry(&mut out, "turn", Json::Text(turn.to_text()));
                put_entry(&mut out, "stop", stop.to_json());
                match value {
                    Some(v) => put_entry(&mut out, "value", v.clone()),
                    None => {},
                }
            },
        }
        proof {
            json::lemma_object_view(out);
        }
        Json::Object(out)
    }
}

/// An event says what its fields hold.
pub proof fn law_an_event_says_what_it_holds(e: TurnEvent)
    ensures
        match e {
            TurnEvent::Update { turn, seq, content } => {
                &&& e@ is Update
                &&& e@->Update_turn == turn
                &&& e@->seq == seq
                &&& e@->content == content@
            },
            TurnEvent::Callback { id, name, request } => {
                &&& e@ is Callback
                &&& e@->id == id
                &&& e@->name == name@
                &&& e@->request == request@
            },
            TurnEvent::Terminal { turn, stop, value } => {
                &&& e@ is Terminal
                &&& e@->Terminal_turn == turn
                &&& e@->stop == stop@
                &&& value is None ==> e@->value is None
                &&& value is Some ==> e@->value == Some(value->0@)
            },
        },
{
}

} // verus!
