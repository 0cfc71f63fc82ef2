//! What a peer can serve, and how its answers find the callbacks that wait for them.

use crate::ir;
use crate::ir::MethodIr;
use crate::json::Json;
use crate::runtime::error::RespondError;
use crate::runtime::event::TurnEvent;
use crate::runtime::handler;
use crate::runtime::ids;
use crate::runtime::ids::{CallbackId, TurnId};
use crate::text;
use crate::text::{chars_of, copy_texts, holds_text, insert_sorted, join3};
use vstd::prelude::*;

verus! {

/// What server-to-client callbacks a peer has said it can serve: some names, or whatever
/// is asked for.
#[derive(Debug, PartialEq, Eq)]
pub struct PeerCapabilities {
    advertised: Option<Vec<String>>,
}

impl View for PeerCapabilities {
    type V = Option<Seq<Seq<char>>>;

    closed spec fn view(&self) -> Option<Seq<Seq<char>>> {
        match self.advertised {
            Some(v) => Some(text::texts(v@)),
            None => None,
        }
    }
}

/// Whether a peer can serve a name.
pub open spec fn serves(peer: Option<Seq<Seq<char>>>, name: Seq<char>) -> bool {
    match peer {
        Some(names) => names.contains(name),
        None => true,
    }
}

/// The names that a peer advertises; none for the unrestricted peer.
pub open spec fn advertised_names(peer: Option<Seq<Seq<char>>>) -> Seq<Seq<char>> {
    match peer {
        Some(names) => names,
        None => Seq::empty(),
    }
}

/// The names that a peer cannot serve, in order.
pub open spec fn unserved(names: Seq<Seq<char>>, peer: Option<Seq<Seq<char>>>) -> Seq<Seq<char>>
    decreases names.len(),
{
    if names.len() == 0 {
        Seq::empty()
    } else if serves(peer, names.last()) {
        unserved(names.drop_last(), peer)
    } else {
        unserved(names.drop_last(), peer).push(names.last())
    }
}

/// The unrestricted peer misses nothing.
pub proof fn law_unrestricted_peer_misses_nothing(names: Seq<Seq<char>>)
    ensures
        unserved(names, None) == Seq::<Seq<char>>::empty(),
    decreases names.len(),
{
    if names.len() > 0 {
        law_unrestricted_peer_misses_nothing(names.drop_last());
    }
}

/// A peer misses a name exactly when the name is asked for and the peer does not serve it.
pub proof fn law_missing_is_what_is_asked_and_not_served(
    names: Seq<Seq<char>>,
    peer: Option<Seq<Seq<char>>>,
    name: Seq<char>,
)
    ensures
        unserved(names, peer).contains(name) <==> names.contains(name) && !serves(peer, name),
    decreases names.len(),
{
    if names.len() > 0 {
        let rest = names.drop_last();
        law_missing_is_what_is_asked_and_not_served(rest, peer, name);
        if names.contains(name) && !serves(peer, name) {
            let i = choose|i: int| 0 <= i < names.len() && names[i] == name;
            if i < rest.len() {
                assert(rest[i] == name);
                let j = choose|j: int| 0 <= j < unserved(rest, peer).len() && unserved(rest, peer)[j] == name;
                assert(unserved(names, peer)[j] == name);
            } else {
                assert(unserved(names, peer).last() == name);
            }
        }
        if unserved(names, peer).contains(name) {
            let j = choose|j: int| 0 <= j < unserved(names, peer).len() && unserved(names, peer)[j] == name;
            if j < unserved(rest, peer).len() {
                assert(unserved(rest, peer)[j] == name);
                let i = choose|i: int| 0 <= i < rest.len() && rest[i] == name;
                assert(names[i] == name);
            } else {
                assert(names.last() == name);
            }
        }
    }
}

impl Default for PeerCapabilities {
    fn default() -> (r: Self)
        ensures
            r@ is None,
    {
        PeerCapabilities::all()
    }
}

impl PeerCapabilities {
    #[verifier::type_invariant]
    spec fn ordered(self) -> bool {
        self.advertised matches Some(v) ==> text::is_sorted(text::texts(v@)) && text::texts(v@).no_duplicates()
    }

    /// The peer that can serve whatever is asked for.
    pub fn all() -> (r: Self)
        ensures
            r@ is None,
    {
        PeerCapabilities { advertised: None }
    }

    /// The peer that can serve nothing.
    pub fn none() -> (r: Self)
        ensures
            r@ == Some(Seq::<Seq<char>>::empty()),
    {
        let names: Vec<String> = Vec::new();
        assert(text::texts(names@) =~= Seq::empty());
        PeerCapabilities { advertised: Some(names) }
    }

    /// The peer that can serve exactly these names.
    pub fn from_names(names: Vec<String>) -> (r: Self)
        ensures
            r@ is Some,
            forall|n: Seq<char>| #[trigger] r@->0.contains(n) <==> text::texts(names@).contains(n),
            text::is_sorted(r@->0),
            r@->0.no_duplicates(),
    {
        let mut out: Vec<String> = Vec::new();
        let mut i: usize = 0;
        assert(text::texts(out@) =~= Seq::empty());
        while i < names.len()
            invariant
                i <= names.len(),
                text::is_sorted(text::texts(out@)),
                text::texts(out@).no_duplicates(),
                forall|n: Seq<char>| #[trigger]
                    text::texts(out@).contains(n) <==> text::texts(names@.take(i as int)).contains(n),
            decreases names.len() - i,
        {
            let ghost before = text::texts(out@);
            let ghost here = text::texts(names@.take(i as int));
            let ghost next = text::texts(names@.take(i + 1));
            let ghost name = names@[i as int]@;
            proof {
                assert(next =~= here.push(name));
                assert(next.last() == name);
                assert forall|n: Seq<char>| next.contains(n) <==> here.contains(n) || n == name by {
                    if here.contains(n) {
                        let k = choose|k: int| 0 <= k < here.len() && here[k] == n;
                        assert(next[k] == n);
                    }
                    if next.contains(n) && n != name {
                        let k = choose|k: int| 0 <= k < next.len() && next[k] == n;
                        assert(here[k] == n);
                    }
                }
            }
            if !holds_text(&out, names[i].as_str()) {
                insert_sorted(&mut out, names[i].clone());
                proof {
                    let after = text::texts(out@);
                    broadcast use vstd::seq_lib::to_multiset_contains;
                    assert forall|n: Seq<char>| after.contains(n) <==> before.contains(n) || n == name by {
                        assert(after.contains(n) <==> after.to_multiset().contains(n));
                        assert(before.contains(n) <==> before.to_multiset().contains(n));
                    }
                    before.lemma_multiset_has_no_duplicates();
                    assert forall|n: Seq<char>| after.to_multiset().contains(n) implies after.to_multiset().count(n)
                        == 1 by {
                        assert(before.contains(n) <==> before.to_multiset().contains(n));
                        assert(before.contains(name) <==> before.to_multiset().contains(name));
                    }
                    after.lemma_multiset_has_no_duplicates_conv();
                }
            }
            i += 1;
        }
        assert(names@.take(names@.len() as int) =~= names@);
        PeerCapabilities { advertised: Some(out) }
    }

    /// Whether the peer can serve a name.
    pub fn advertises(&self, name: &str) -> (r: bool)
        ensures
            r == serves(self@, name@),
    {
        match &self.advertised {
            None => true,
            Some(names) => holds_text(names, name),
        }
    }

    /// Whether the peer can serve whatever is asked for.
    pub fn is_unrestricted(&self) -> (r: bool)
        ensures
            r == (self@ is None),
    {
        self.advertised.is_none()
    }

    /// The advertised names in order, each once; none for the unrestricted peer.
    pub fn names(&self) -> (r: Vec<String>)
        ensures
            text::texts(r@) == advertised_names(self@),
            text::is_sorted(text::texts(r@)),
            text::texts(r@).no_duplicates(),
    {
        proof {
            use_type_invariant(self);
        }
        match &self.advertised {
            Some(names) => copy_texts(names),
            None => {
                let none: Vec<String> = Vec::new();
                assert(text::texts(none@) =~= Seq::empty());
                none
            },
        }
    }

    /// A copy.
    pub fn copy(&self) -> (r: Self)
        ensures
            r@ == self@,
    {
        proof {
            use_type_invariant(self);
        }
        match &self.advertised {
            Some(names) => PeerCapabilities { advertised: Some(copy_texts(names)) },
            None => PeerCapabilities { advertised: None },
        }
    }

    /// The callbacks that a method declares and this peer cannot serve.
    pub fn missing_for(&self, method: &MethodIr) -> (r: Vec<String>)
        ensures
            text::texts(r@) == unserved(ir::callback_names(method.callbacks@), self@),
    {
        let ghost all = ir::callback_names(method.callbacks@);
        let mut out: Vec<String> = Vec::new();
        let mut i: usize = 0;
        assert(all.take(0) =~= Seq::empty());
        assert(text::texts(out@) =~= Seq::empty());
        while i < method.callbacks.len()
            invariant
                all == ir::callback_names(method.callbacks@),
                i <= method.callbacks.len(),
                text::texts(out@) == unserved(all.take(i as int), self@),
            decreases method.callbacks.len() - i,
        {
            let ghost before = out@;
            proof {
                assert(all.take(i + 1).drop_last() =~= all.take(i as int));
                assert(all.take(i + 1).last() == all[i as int]);
            }
            if !self.advertises(method.callbacks[i].name.as_str()) {
                out.push(method.callbacks[i].name.clone());
                assert(text::texts(out@) =~= text::texts(before).push(all[i as int]));
            }
            i += 1;
        }
        assert(all.take(all.len() as int) =~= all);
        out
    }
}

/// The callbacks of one turn that await an answer. `T` is what an answer is handed to.
pub struct CallbackRouter<T> {
    pub turn: TurnId,
    /// The number of the next callback.
    pub seq: u64,
    /// Whether the turn has resolved.
    pub closed: bool,
    /// The callbacks in flight, by their number.
    pub pending: Vec<(u64, T)>,
}

/// An answer and what it is handed to.
pub struct Delivery<T> {
    pub to: T,
    pub result: Result<Json, String>,
}

/// Whether a number is among those in flight.
pub open spec fn in_flight_at<T>(pending: Seq<(u64, T)>, seq: u64, i: int) -> bool {
    0 <= i < pending.len() && pending[i].0 == seq
}

/// Whether a number is among those in flight.
pub open spec fn awaits<T>(pending: Seq<(u64, T)>, seq: u64) -> bool {
    exists|i: int| in_flight_at(pending, seq, i)
}

/// What is in flight but for a number: the same without its entry, or the same where it has
/// none.
pub open spec fn without<T>(pending: Seq<(u64, T)>, seq: u64) -> Seq<(u64, T)>
    decreases pending.len(),
{
    if pending.len() == 0 {
        pending
    } else if pending.last().0 == seq {
        pending.drop_last()
    } else {
        without(pending.drop_last(), seq).push(pending.last())
    }
}

proof fn lemma_without<T>(pending: Seq<(u64, T)>, seq: u64, i: int)
    requires
        in_flight_at(pending, seq, i),
        forall|a: int, b: int| 0 <= a < b < pending.len() ==> (#[trigger] pending[a]).0 != (#[trigger] pending[b]).0,
    ensures
        without(pending, seq) == pending.remove(i),
    decreases pending.len(),
{
    let n = pending.len() - 1;
    let rest = pending.drop_last();
    if i == n {
        assert(pending.remove(i) =~= rest);
    } else {
        assert(pending[i].0 != pending[n].0);
        assert(rest[i] == pending[i]);
        assert forall|a: int, b: int| 0 <= a < b < rest.len() implies (#[trigger] rest[a]).0 != (#[trigger] rest[b]).0 by {
            assert(rest[a] == pending[a] && rest[b] == pending[b]);
        }
        lemma_without(rest, seq, i);
        assert(pending.remove(i) =~= rest.remove(i).push(pending.last()));
    }
}

proof fn lemma_without_absent<T>(pending: Seq<(u64, T)>, seq: u64)
    requires
        !awaits(pending, seq),
    ensures
        without(pending, seq) == pending,
    decreases pending.len(),
{
    if pending.len() > 0 {
        let rest = pending.drop_last();
        assert(!in_flight_at(pending, seq, pending.len() - 1));
        assert(!awaits(rest, seq)) by {
            if awaits(rest, seq) {
                let k = choose|k: int| in_flight_at(rest, seq, k);
                assert(rest[k] == pending[k]);
                assert(in_flight_at(pending, seq, k));
            }
        }
        lemma_without_absent(rest, seq);
        assert(rest.push(pending.last()) =~= pending);
    }
}

/// The refusal of a callback after the turn has resolved.
pub open spec fn resolved_message(turn: TurnId) -> Seq<char> {
    "turn "@ + ids::turn_form(turn) + " has resolved; no further callbacks"@
}

/// The answer to a callback that was in flight when its turn was cancelled.
pub open spec fn cancelled_message(turn: TurnId) -> Seq<char> {
    "turn "@ + ids::turn_form(turn) + " was cancelled while this callback was in flight"@
}

/// The answer to a callback that was in flight when its turn resolved.
pub open spec fn closing_message(turn: TurnId) -> Seq<char> {
    "turn "@ + ids::turn_form(turn) + " resolved while this callback was in flight"@
}

/// The failure of a callback whose request could not be put on the event stream.
pub open spec fn undelivered_message(turn: TurnId, name: Seq<char>) -> Seq<char> {
    "turn "@ + ids::turn_form(turn) + " event stream closed before callback `"@ + name + "` could be delivered"@
}

/// The failure of a callback that was dropped without an answer.
pub open spec fn dropped_message(turn: TurnId, name: Seq<char>) -> Seq<char> {
    "callback `"@ + name + "` on turn "@ + ids::turn_form(turn) + " was dropped without a response"@
}

impl<T> CallbackRouter<T> {
    /// What always holds of a router: no number is in flight twice, and nothing is in flight
    /// once the turn has resolved.
    pub open spec fn wf(&self) -> bool {
        &&& forall|i: int, j: int|
            0 <= i < j < self.pending@.len() ==> (#[trigger] self.pending@[i]).0 != (#[trigger] self.pending@[j]).0
        &&& self.closed ==> self.pending@.len() == 0
    }

    /// The router of a turn that has issued nothing.
    pub fn new(turn: TurnId) -> (r: Self)
        ensures
            r.wf(),
            r.turn == turn,
            r.seq == 0,
            !r.closed,
            r.pending@.len() == 0,
    {
        CallbackRouter { turn, seq: 0, closed: false, pending: Vec::new() }
    }

    /// The turn that this routes for.
    pub fn turn(&self) -> (r: TurnId)
        ensures
            r == self.turn,
    {
        self.turn
    }

    /// Takes a number from those in flight.
    fn take(&mut self, seq: u64) -> (r: Option<T>)
        requires
            old(self).wf(),
        ensures
            final(self).wf(),
            final(self).turn == old(self).turn,
            final(self).seq == old(self).seq,
            final(self).closed == old(self).closed,
            match r {
                Some(to) => exists|i: int| #[trigger]
                    in_flight_at(old(self).pending@, seq, i) && to == old(self).pending@[i].1
                        && final(self).pending@ == old(self).pending@.remove(i),
                None => !awaits(old(self).pending@, seq) && *final(self) == *old(self),
            },
    {
        let mut i: usize = 0;
        while i < self.pending.len()
            invariant
                *self == *old(self),
                self.wf(),
                i <= self.pending.len(),
                forall|j: int| 0 <= j < i ==> (#[trigger] self.pending@[j]).0 != seq,
            decreases self.pending.len() - i,
        {
            if self.pending[i].0 == seq {
                let ghost before = self.pending@;
                assert(in_flight_at(before, seq, i as int));
                let (_, to) = self.pending.remove(i);
                proof {
                    let after = self.pending@;
                    assert forall|a: int, b: int| 0 <= a < b < after.len() implies (#[trigger] after[a]).0 != (
                    #[trigger] after[b]).0 by {
                        let a0 = if a < i { a } else { a + 1 };
                        let b0 = if b < i { b } else { b + 1 };
                        assert(after[a] == before[a0]);
                        assert(after[b] == before[b0]);
                    }
                }
                return Some(to);
            }
            i += 1;
        }
        assert(!awaits(self.pending@, seq)) by {
            if awaits(self.pending@, seq) {
                let k = choose|k: int| in_flight_at(self.pending@, seq, k);
                assert(self.pending@[k].0 == seq);
            }
        }
        None
    }

    /// Issues one callback: numbers it, keeps what its answer is handed to, and gives the
    /// request for the event stream. A resolved turn issues none. Where the numbers have come
    /// round to one that still awaits an answer, the new callback takes its place, and what the
    /// old one's answer was to be handed to is dropped.
    pub fn issue(&mut self, name: &str, request: Json, to: T) -> (r: Result<TurnEvent, String>)
        requires
            old(self).wf(),
        ensures
            final(self).wf(),
            final(self).turn == old(self).turn,
            final(self).closed == old(self).closed,
            old(self).closed ==> r is Err && r->Err_0@ == resolved_message(old(self).turn) && *final(self) == *old(
                self,
            ),
            !old(self).closed ==> {
                &&& r matches Ok(ev) && ev matches TurnEvent::Callback { id, name: n, request: q } && id == (
                CallbackId { turn: old(self).turn, seq: old(self).seq }) && n@ == name@ && q == request
                &&& final(self).seq == handler::next_seq(old(self).seq)
                &&& final(self).pending@ == without(old(self).pending@, old(self).seq).push((old(self).seq, to))
                &&& !awaits(old(self).pending@, old(self).seq) ==> final(self).pending@ == old(self).pending@.push(
                    (old(self).seq, to),
                )
            },
    {
        if self.closed {
            return Err(join3("turn ", self.turn.to_text().as_str(), " has resolved; no further callbacks"));
        }
        let seq = self.seq;
        self.seq = seq.wrapping_add(1);
        let ghost mid = *self;
        let _replaced = self.take(seq);
        let ghost before = self.pending@;
        proof {
            if awaits(before, seq) {
                let k = choose|k: int| in_flight_at(before, seq, k);
                if awaits(mid.pending@, seq) {
                    let i = choose|i: int| #[trigger] in_flight_at(mid.pending@, seq, i) && before == mid.pending@.remove(i);
                    let k0 = if k < i { k } else { k + 1 };
                    assert(before[k] == mid.pending@[k0]);
                    assert(mid.pending@[k0].0 != mid.pending@[i].0);
                }
            }
            assert(!awaits(before, seq));
            lemma_taken_is_without(mid, before, seq, _replaced is Some);
            if !awaits(mid.pending@, seq) {
                lemma_without_absent(mid.pending@, seq);
            }
        }
        self.pending.push((seq, to));
        proof {
            let after = self.pending@;
            assert(in_flight_at(after, seq, before.len() as int));
            assert forall|a: int, b: int| 0 <= a < b < after.len() implies (#[trigger] after[a]).0 != (#[trigger] after[b]).0 by {
                assert(after[a] == before[a]);
                if b == before.len() {
                    assert(!in_flight_at(before, seq, a));
                } else {
                    assert(after[b] == before[b]);
                }
            }
        }
        Ok(TurnEvent::callback(CallbackId::new(self.turn, seq), name.to_owned(), request))
    }

    /// Takes back a callback whose request could not be put on the event stream; gives the
    /// message of its failure.
    pub fn retract(&mut self, seq: u64, name: &str) -> (r: String)
        requires
            old(self).wf(),
        ensures
            final(self).wf(),
            r@ == undelivered_message(old(self).turn, name@),
            final(self).turn == old(self).turn,
            final(self).seq == old(self).seq,
            final(self).closed == old(self).closed,
            final(self).pending@ == without(old(self).pending@, seq),
            !awaits(final(self).pending@, seq),
    {
        let ghost before = *self;
        let _gone = self.take(seq);
        proof {
            lemma_removed(before, self.pending@, seq, _gone is Some);
            lemma_taken_is_without(before, self.pending@, seq, _gone is Some);
        }
        let mut s = join3("turn ", self.turn.to_text().as_str(), " event stream closed before callback `");
        s.append(name);
        s.append("` could be delivered");
        s
    }

    /// The message of a callback that was dropped without an answer.
    pub fn dropped(&self, name: &str) -> (r: String)
        ensures
            r@ == dropped_message(self.turn, name@),
    {
        let mut s = join3("callback `", name, "` on turn ");
        s.append(self.turn.to_text().as_str());
        s.append(" was dropped without a response");
        s
    }

    /// Hands a peer's response to the callback that awaits it.
    pub fn respond(&mut self, id: CallbackId, response: Json) -> (r: Result<Delivery<T>, RespondError>)
        requires
            old(self).wf(),
        ensures
            final(self).wf(),
            delivered(*old(self), *final(self), id, r),
            r matches Ok(d) ==> d.result == Ok::<Json, String>(response),
    {
        match self.deliver(id) {
            Ok(to) => Ok(Delivery { to, result: Ok(response) }),
            Err(e) => Err(e),
        }
    }

    /// Hands a peer's failure to the callback that awaits an answer.
    pub fn fail(&mut self, id: CallbackId, message: String) -> (r: Result<Delivery<T>, RespondError>)
        requires
            old(self).wf(),
        ensures
            final(self).wf(),
            delivered(*old(self), *final(self), id, r),
            r matches Ok(d) ==> d.result == Err::<Json, String>(message),
    {
        match self.deliver(id) {
            Ok(to) => Ok(Delivery { to, result: Err(message) }),
            Err(e) => Err(e),
        }
    }

    /// Finds the callback that an answer is for. The turn is looked at before the number, so
    /// an answer to another turn is refused whatever its number.
    fn deliver(&mut self, id: CallbackId) -> (r: Result<T, RespondError>)
        requires
            old(self).wf(),
        ensures
            final(self).wf(),
            match r {
                Ok(to) => accepts(*old(self), id) && taken(*old(self), *final(self), id.seq, to),
                Err(e) => refusal(*old(self), id) == Some(e) && *final(self) == *old(self),
            },
    {
        if id.turn != self.turn {
            return Err(RespondError::WrongTurn { expected: self.turn, actual: id.turn });
        }
        if self.closed {
            return Err(RespondError::TurnEnded(self.turn));
        }
        let ghost before = *self;
        match self.take(id.seq) {
            Some(to) => {
                assert(taken(before, *self, id.seq, to));
                Ok(to)
            },
            None => {
                Err(RespondError::UnknownCallback(id))
            },
        }
    }

    /// Resolves the turn as cancelled: gives what each callback in flight is to be answered
    /// and to what the answers are handed.
    pub fn resolve_all_cancelled(&mut self) -> (r: (Vec<(u64, T)>, String))
        requires
            old(self).wf(),
        ensures
            final(self).wf(),
            final(self).closed,
            final(self).pending@.len() == 0,
            final(self).turn == old(self).turn,
            final(self).seq == old(self).seq,
            r.0@ == old(self).pending@,
            r.1@ == cancelled_message(old(self).turn),
    {
        let drained = self.drain();
        (
            drained,
            join3("turn ", self.turn.to_text().as_str(), " was cancelled while this callback was in flight"),
        )
    }

    /// Resolves the turn: gives what each callback in flight is to be answered and to what the
    /// answers are handed.
    pub fn close(&mut self) -> (r: (Vec<(u64, T)>, String))
        requires
            old(self).wf(),
        ensures
            final(self).wf(),
            final(self).closed,
            final(self).pending@.len() == 0,
            final(self).turn == old(self).turn,
            final(self).seq == old(self).seq,
            r.0@ == old(self).pending@,
            r.1@ == closing_message(old(self).turn),
    {
        let drained = self.drain();
        (drained, join3("turn ", self.turn.to_text().as_str(), " resolved while this callback was in flight"))
    }

    fn drain(&mut self) -> (r: Vec<(u64, T)>)
        ensures
            final(self).wf(),
            final(self).closed,
            final(self).pending@.len() == 0,
            final(self).turn == old(self).turn,
            final(self).seq == old(self).seq,
            r@ == old(self).pending@,
    {
        let mut drained: Vec<(u64, T)> = Vec::new();
        std::mem::swap(&mut drained, &mut self.pending);
        self.closed = true;
        drained
    }

    /// How many callbacks are in flight.
    pub fn in_flight(&self) -> (r: usize)
        ensures
            r == self.pending@.len(),
    {
        self.pending.len()
    }
}

/// Whether a router takes an answer.
pub open spec fn accepts<T>(router: CallbackRouter<T>, id: CallbackId) -> bool {
    id.turn == router.turn && !router.closed && awaits(router.pending@, id.seq)
}

/// Why a router refuses an answer; nothing where it takes it.
pub open spec fn refusal<T>(router: CallbackRouter<T>, id: CallbackId) -> Option<RespondError> {
    if id.turn != router.turn {
        Some(RespondError::WrongTurn { expected: router.turn, actual: id.turn })
    } else if router.closed {
        Some(RespondError::TurnEnded(router.turn))
    } else if !awaits(router.pending@, id.seq) {
        Some(RespondError::UnknownCallback(id))
    } else {
        None
    }
}

/// Whether `after` is `before` without the callback of a number, whose answer goes to `to`.
pub open spec fn taken<T>(before: CallbackRouter<T>, after: CallbackRouter<T>, seq: u64, to: T) -> bool {
    exists|i: int| #[trigger]
        in_flight_at(before.pending@, seq, i) && to == before.pending@[i].1 && after.pending@ == before.pending@.remove(i)
            && after.turn == before.turn && after.seq == before.seq && after.closed == before.closed
}

/// What an answer does to a router: the callback it names is taken out and gets it, or the
/// answer is refused and nothing changes.
pub open spec fn delivered<T>(
    before: CallbackRouter<T>,
    after: CallbackRouter<T>,
    id: CallbackId,
    r: Result<Delivery<T>, RespondError>,
) -> bool {
    match r {
        Ok(d) => accepts(before, id) && taken(before, after, id.seq, d.to),
        Err(e) => refusal(before, id) == Some(e) && after == before,
    }
}

proof fn lemma_taken_is_without<T>(before: CallbackRouter<T>, after: Seq<(u64, T)>, seq: u64, found: bool)
    requires
        before.wf(),
        found ==> exists|i: int| #[trigger]
            in_flight_at(before.pending@, seq, i) && after == before.pending@.remove(i),
        !found ==> !awaits(before.pending@, seq) && after == before.pending@,
    ensures
        after == without(before.pending@, seq),
{
    if found {
        let i = choose|i: int| #[trigger]
            in_flight_at(before.pending@, seq, i) && after == before.pending@.remove(i);
        lemma_without(before.pending@, seq, i);
    } else {
        lemma_without_absent(before.pending@, seq);
    }
}

proof fn lemma_removed<T>(before: CallbackRouter<T>, after: Seq<(u64, T)>, seq: u64, found: bool)
    requires
        before.wf(),
        found ==> exists|i: int| #[trigger]
            in_flight_at(before.pending@, seq, i) && after == before.pending@.remove(i),
        !found ==> !awaits(before.pending@, seq) && after == before.pending@,
    ensures
        !awaits(after, seq),
        forall|other: u64| other != seq ==> (#[trigger] awaits(after, other) <==> awaits(before.pending@, other)),
{
    if found {
        let p = before.pending@;
        let i = choose|i: int| #[trigger] in_flight_at(p, seq, i) && after == p.remove(i);
        assert(!awaits(after, seq)) by {
            if awaits(after, seq) {
                let k = choose|k: int| in_flight_at(after, seq, k);
                let k0 = if k < i { k } else { k + 1 };
                assert(after[k] == p[k0]);
                assert(p[k0].0 != p[i].0);
            }
        }
        assert forall|other: u64| other != seq implies (#[trigger] awaits(after, other) <==> awaits(p, other)) by {
            if awaits(after, other) {
                let k = choose|k: int| in_flight_at(after, other, k);
                let k0 = if k < i { k } else { k + 1 };
                assert(after[k] == p[k0]);
                assert(in_flight_at(p, other, k0));
            }
            if awaits(p, other) {
                let k = choose|k: int| in_flight_at(p, other, k);
                let k0 = if k < i { k } else { k - 1 };
                assert(after[k0] == p[k]);
                assert(in_flight_at(after, other, k0));
            }
        }
    }
}

/// An answer that names another turn is refused and changes nothing, whatever its number.
pub proof fn law_turns_do_not_cross_talk<T>(
    before: CallbackRouter<T>,
    after: CallbackRouter<T>,
    id: CallbackId,
    r: Result<Delivery<T>, RespondError>,
)
    requires
        id.turn != before.turn,
        delivered(before, after, id, r),
    ensures
        r matches Err(e) && e == (RespondError::WrongTurn { expected: before.turn, actual: id.turn }),
        after == before,
{
}

/// A callback is answered at most once: after an answer was taken, the same identifier is unknown.
pub proof fn law_a_callback_is_answered_once<T>(
    before: CallbackRouter<T>,
    after: CallbackRouter<T>,
    id: CallbackId,
    r: Result<Delivery<T>, RespondError>,
)
    requires
        before.wf(),
        delivered(before, after, id, r),
        r is Ok,
    ensures
        refusal(after, id) == Some(RespondError::UnknownCallback(id)),
        forall|other: u64| other != id.seq ==> (#[trigger] awaits(after.pending@, other) <==> awaits(
            before.pending@,
            other,
        )),
{
    lemma_removed(before, after.pending@, id.seq, true);
}

/// Once a turn has resolved, every answer to it is refused as too late.
pub proof fn law_a_resolved_turn_takes_no_answer<T>(router: CallbackRouter<T>, seq: u64)
    requires
        router.closed,
    ensures
        refusal(router, CallbackId { turn: router.turn, seq }) == Some(RespondError::TurnEnded(router.turn)),
{
}

/// The character with which an accessor's name has it.
pub open spec fn accessor_char(c: char) -> char {
    if c == '/' || c == '.' {
        '_'
    } else {
        c
    }
}

/// The name of the accessor of a callback: slashes and dots become underscores.
pub open spec fn accessor_name(name: Seq<char>) -> Seq<char> {
    Seq::new(name.len(), |i: int| accessor_char(name[i]))
}

/// The name of the accessor of a callback.
pub fn accessor_of(name: &str) -> (r: String)
    ensures
        r@ == accessor_name(name@),
{
    let cs = chars_of(name);
    let mut out = String::new();
    let mut i: usize = 0;
    while i < cs.len()
        invariant
            cs@ == name@,
            i <= cs.len(),
            out@ == accessor_name(name@).take(i as int),
        decreases cs.len() - i,
    {
        proof {
            reveal_strlit("_");
            assert(accessor_name(name@).take(i + 1) =~= accessor_name(name@).take(i as int) + seq![
                accessor_char(name@[i as int]),
            ]);
        }
        if cs[i] == '/' || cs[i] == '.' {
            out.append("_");
            assert("_"@ =~= seq!['_']);
        } else {
            let piece = name.substring_char(i, i + 1);
            assert(piece@ =~= seq![name@[i as int]]);
            out.append(piece);
        }
        i += 1;
    }
    assert(out@ =~= accessor_name(name@));
    out
}

/// Why a callback cannot be served without waiting, and what to use in its place.
pub open spec fn sync_refusal(name: Seq<char>) -> Seq<char> {
    "callback `"@ + name
        + "` was issued through the synchronous accessor; turn-scoped delivery awaits a correlated response, so use the `*_async` accessor (e.g. `client."@
        + accessor_name(name) + "_async(..).await`)"@
}

/// The error of the synchronous accessor of a callback.
pub fn refuse_sync(name: &str) -> (r: String)
    ensures
        r@ == sync_refusal(name@),
{
    let mut s = join3(
        "callback `",
        name,
        "` was issued through the synchronous accessor; turn-scoped delivery awaits a correlated response, so use the `*_async` accessor (e.g. `client.",
    );
    s.append(accessor_of(name).as_str());
    s.append("_async(..).await`)");
    s
}

/// What a peer misses are the names that are asked for, without those that it serves: in the
/// order in which they are asked for, and as often.
pub proof fn law_what_is_missed_keeps_its_order(names: Seq<Seq<char>>, peer: Option<Seq<Seq<char>>>)
    ensures
        unserved(names, peer) == names.filter(|n: Seq<char>| peer is Some && !peer->0.contains(n)),
    decreases names.len(),
{
    reveal(Seq::filter);
    if names.len() > 0 {
        law_what_is_missed_keeps_its_order(names.drop_last(), peer);
    }
}

/// An answer reaches the callback that it names: where that callback is in flight on the turn
/// that the answer quotes, what waits for it gets the answer, and the others wait on in their
/// order. Where it is not, the answer is refused as unknown and nothing changes.
pub proof fn law_an_answer_reaches_its_callback<T>(
    before: CallbackRouter<T>,
    after: CallbackRouter<T>,
    id: CallbackId,
    r: Result<Delivery<T>, RespondError>,
)
    requires
        before.wf(),
        delivered(before, after, id, r),
        id.turn == before.turn,
        !before.closed,
    ensures
        forall|i: int|
            0 <= i < before.pending@.len() && (#[trigger] before.pending@[i]).0 == id.seq ==> r is Ok && r->Ok_0.to
                == before.pending@[i].1 && after.pending@ == before.pending@.remove(i),
        (forall|i: int| 0 <= i < before.pending@.len() ==> (#[trigger] before.pending@[i]).0 != id.seq) ==> r is Err
            && r->Err_0 == RespondError::UnknownCallback(id) && after == before,
        after.turn == before.turn,
        after.seq == before.seq,
        !after.closed,
{
    let p = before.pending@;
    assert forall|i: int| 0 <= i < p.len() && (#[trigger] p[i]).0 == id.seq implies r is Ok && r->Ok_0.to == p[i].1
        && after.pending@ == p.remove(i) by {
        assert(in_flight_at(p, id.seq, i));
        if r is Ok {
            let k = choose|k: int| #[trigger]
                in_flight_at(p, id.seq, k) && r->Ok_0.to == p[k].1 && after.pending@ == p.remove(k);
            if k < i {
                assert(p[k].0 != p[i].0);
            } else if i < k {
                assert(p[i].0 != p[k].0);
            }
        }
    }
    if r is Ok {
        let k = choose|k: int| in_flight_at(p, id.seq, k);
        assert(p[k].0 == id.seq);
    }
}

/// A number that is taken out of those in flight is gone, and the others stay in their order.
pub proof fn law_taking_out_leaves_the_others<T>(pending: Seq<(u64, T)>, seq: u64)
    requires
        forall|a: int, b: int| 0 <= a < b < pending.len() ==> (#[trigger] pending[a]).0 != (#[trigger] pending[b]).0,
    ensures
        without(pending, seq) == pending.filter(|p: (u64, T)| p.0 != seq),
    decreases pending.len(),
{
    reveal(Seq::filter);
    if pending.len() > 0 {
        let rest = pending.drop_last();
        let keep = |p: (u64, T)| p.0 != seq;
        assert forall|a: int, b: int| 0 <= a < b < rest.len() implies (#[trigger] rest[a]).0 != (#[trigger] rest[b]).0 by {
            assert(rest[a] == pending[a] && rest[b] == pending[b]);
        }
        law_taking_out_leaves_the_others(rest, seq);
        if pending.last().0 == seq {
            assert(!awaits(rest, seq)) by {
                if awaits(rest, seq) {
                    let k = choose|k: int| in_flight_at(rest, seq, k);
                    assert(rest[k] == pending[k]);
                    assert(pending[k].0 != pending[pending.len() - 1].0);
                }
            }
            lemma_without_absent(rest, seq);
        }
    }
}

/// The name of an accessor is that of its callback, letter for letter, but for slashes and dots,
/// for each of which it has an underscore.
pub proof fn law_an_accessor_is_named_after_its_callback(name: Seq<char>)
    ensures
        accessor_name(name).len() == name.len(),
        forall|i: int|
            0 <= i < name.len() ==> {
                &&& #[trigger] accessor_name(name)[i] != '/'
                &&& accessor_name(name)[i] != '.'
                &&& name[i] != '/' && name[i] != '.' ==> accessor_name(name)[i] == name[i]
                &&& name[i] == '/' || name[i] == '.' ==> accessor_name(name)[i] == '_'
            },
{
}

/// What a callback is told that gets no answer names its turn: the same message is told on the
/// same turn only.
pub proof fn law_a_failure_names_its_turn(a: TurnId, b: TurnId)
    ensures
        cancelled_message(a) == cancelled_message(b) ==> a == b,
        closing_message(a) == closing_message(b) ==> a == b,
        resolved_message(a) == resolved_message(b) ==> a == b,
{
    reveal_strlit("turn ");
    ids::lemma_turn_form_len(a);
    ids::lemma_turn_form_len(b);
    let x = ids::turn_form(a);
    let y = ids::turn_form(b);
    assert(cancelled_message(a).subrange(5, 41) =~= x);
    assert(cancelled_message(b).subrange(5, 41) =~= y);
    assert(closing_message(a).subrange(5, 41) =~= x);
    assert(closing_message(b).subrange(5, 41) =~= y);
    assert(resolved_message(a).subrange(5, 41) =~= x);
    assert(resolved_message(b).subrange(5, 41) =~= y);
    if x == y {
        ids::law_a_turn_is_told_by_its_text(a, b);
    }
}

/// What is told of a callback that could not be delivered, that was dropped or that cannot be
/// served at once names the callback and, where there is one, its turn.
pub proof fn law_a_failed_callback_is_named(turn: TurnId, name: Seq<char>)
    ensures
        undelivered_message(turn, name) == "turn "@ + ids::turn_form(turn)
            + " event stream closed before callback `"@ + name + "` could be delivered"@,
        dropped_message(turn, name) == "callback `"@ + name + "` on turn "@ + ids::turn_form(turn)
            + " was dropped without a response"@,
        sync_refusal(name) == "callback `"@ + name
            + "` was issued through the synchronous accessor; turn-scoped delivery awaits a correlated response, so use the `*_async` accessor (e.g. `client."@
            + name.map_values(
            |c: char|
                if c == '/' || c == '.' {
                    '_'
                } else {
                    c
                },
        ) + "_async(..).await`)"@,
        cancelled_message(turn) == "turn "@ + ids::turn_form(turn)
            + " was cancelled while this callback was in flight"@,
        closing_message(turn) == "turn "@ + ids::turn_form(turn) + " resolved while this callback was in flight"@,
{
    assert(accessor_name(name) =~= name.map_values(
        |c: char|
            if c == '/' || c == '.' {
                '_'
            } else {
                c
            },
    ));
}

/// The unrestricted peer serves every name and advertises none; any other serves exactly what it
/// advertises.
pub proof fn law_a_peer_serves_what_it_advertises(names: Seq<Seq<char>>, name: Seq<char>)
    ensures
        serves(None, name),
        advertised_names(None) == Seq::<Seq<char>>::empty(),
        serves(Some(names), name) <==> advertised_names(Some(names)).contains(name),
        advertised_names(Some(names)) == names,
{
}

} // verus!
