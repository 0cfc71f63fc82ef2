//! How a handler says its turn ended, what it is told of the turn, and where it is found.

use crate::auth::AuthContext;
use crate::ir;
use crate::ir::{MethodIr, StopDetail, StopKind, StopReason, StopView};
use crate::json::Json;
use crate::request::RawRequestContext;
use crate::runtime::codes;
use crate::runtime::error;
use crate::runtime::error::TurnError;
use crate::runtime::event::TurnEvent;
use crate::runtime::ids;
use crate::runtime::ids::TurnId;
use crate::text;
use crate::text::{join2, join3, same_text};
use vstd::prelude::*;

verus! {

/// What a handler's error means: a failure, a considered no, or a bound that was hit.
#[derive(Debug, PartialEq)]
pub enum TurnStop {
    Failed(TurnError),
    Refused(StopDetail),
    Limited(StopDetail),
}

/// How an error type says which kind of stop it means.
pub trait IntoTurnStop: Sized {
    /// The stop that this error means.
    fn into_turn_stop(self) -> TurnStop;
}

impl<E: Into<TurnError>> IntoTurnStop for E {
    fn into_turn_stop(self) -> (r: TurnStop)
        ensures
            r matches TurnStop::Failed(e) && call_ensures(<E as Into<TurnError>>::into, (self,), e),
    {
        TurnStop::Failed(self.into())
    }
}

impl TurnStop {
    /// A refusal with a code.
    pub fn refused(code: String) -> (r: Self)
        ensures
            r matches TurnStop::Refused(d) && d@ == (ir::DetailView { code: code@, message: None, data: Seq::empty() }),
    {
        TurnStop::Refused(StopDetail::new(code))
    }

    /// A limit with a code.
    pub fn limited(code: String) -> (r: Self)
        ensures
            r matches TurnStop::Limited(d) && d@ == (ir::DetailView { code: code@, message: None, data: Seq::empty() }),
    {
        TurnStop::Limited(StopDetail::new(code))
    }

    /// What a handler with this stop returns: only a failure is an error.
    pub fn into_handler_result(self) -> (r: Result<TurnOutcome, TurnError>)
        ensures
            r == (match self {
                TurnStop::Failed(e) => Err::<TurnOutcome, TurnError>(e),
                TurnStop::Refused(d) => Ok::<TurnOutcome, TurnError>(TurnOutcome::Refused(d)),
                TurnStop::Limited(d) => Ok::<TurnOutcome, TurnError>(TurnOutcome::Limited(d)),
            }),
    {
        match self {
            TurnStop::Failed(e) => Err(e),
            TurnStop::Refused(d) => Ok(TurnOutcome::Refused(d)),
            TurnStop::Limited(d) => Ok(TurnOutcome::Limited(d)),
        }
    }
}

/// How a handler says its turn ended when it did not fail.
#[derive(Debug, PartialEq)]
pub enum TurnOutcome {
    /// The turn did what was asked.
    Complete { value: Option<Json>, detail: Option<StopDetail> },
    /// A considered no.
    Refused(StopDetail),
    /// A bound was hit.
    Limited(StopDetail),
    /// Any other reason, spelled out.
    Stopped { stop: StopReason, value: Option<Json> },
}

/// The stop and the value of an outcome.
pub open spec fn terminal_of(o: TurnOutcome) -> (StopReason, Option<Json>) {
    match o {
        TurnOutcome::Complete { value, detail } => (StopReason::Complete { detail }, value),
        TurnOutcome::Refused(d) => (StopReason::Refused { detail: Some(d) }, None),
        TurnOutcome::Limited(d) => (StopReason::Limited { detail: Some(d) }, None),
        TurnOutcome::Stopped { stop, value } => (stop, value),
    }
}

impl TurnOutcome {
    /// Complete, without a value.
    pub fn complete() -> (r: Self)
        ensures
            r == (TurnOutcome::Complete { value: None, detail: None }),
    {
        TurnOutcome::Complete { value: None, detail: None }
    }

    /// Complete, with a value.
    pub fn value(value: Json) -> (r: Self)
        ensures
            r == (TurnOutcome::Complete { value: Some(value), detail: None }),
    {
        TurnOutcome::Complete { value: Some(value), detail: None }
    }

    /// Complete with a serialized value, or the error that says why it could not be serialized.
    pub fn serialize(value: Result<Json, String>) -> (r: Result<Self, TurnError>)
        ensures
            match value {
                Ok(v) => r == Ok::<TurnOutcome, TurnError>(TurnOutcome::Complete { value: Some(v), detail: None }),
                Err(e) => r is Err && r->Err_0@ == error::bare_error(
                    codes::TERMINAL_UNSERIALIZABLE@,
                    "the turn's terminal value could not be serialized: "@ + e@,
                ),
            },
    {
        match value {
            Ok(v) => Ok(TurnOutcome::value(v)),
            Err(e) => Err(
                TurnError::new(
                    codes::TERMINAL_UNSERIALIZABLE,
                    join2("the turn's terminal value could not be serialized: ", e.as_str()),
                ),
            ),
        }
    }

    /// The same outcome with a detail, where it is a completion; else the same outcome.
    pub fn with_detail(self, d: StopDetail) -> (r: Self)
        ensures
            r == (match self {
                TurnOutcome::Complete { value, .. } => TurnOutcome::Complete { value, detail: Some(d) },
                other => other,
            }),
    {
        match self {
            TurnOutcome::Complete { value, .. } => TurnOutcome::Complete { value, detail: Some(d) },
            other => other,
        }
    }

    /// The stop and the value of the terminal.
    pub fn into_terminal(self) -> (r: (StopReason, Option<Json>))
        ensures
            r == terminal_of(self),
    {
        match self {
            TurnOutcome::Complete { value, detail } => (StopReason::Complete { detail }, value),
            TurnOutcome::Refused(d) => (StopReason::refused(d), None),
            TurnOutcome::Limited(d) => (StopReason::limited(d), None),
            TurnOutcome::Stopped { stop, value } => (stop, value),
        }
    }
}

/// A refusal or a limit is no error: it comes back as an outcome, and its terminal has the
/// kind that was meant, the detail that was given, no error and no value.
pub proof fn law_a_refusal_is_not_an_error(d: StopDetail)
    ensures
        terminal_of(TurnOutcome::Refused(d)).0@ == (StopView {
            kind: StopKind::Refused,
            detail: Some(d@),
            error: None,
        }),
        terminal_of(TurnOutcome::Limited(d)).0@ == (StopView {
            kind: StopKind::Limited,
            detail: Some(d@),
            error: None,
        }),
        terminal_of(TurnOutcome::Refused(d)).1 is None,
        terminal_of(TurnOutcome::Limited(d)).1 is None,
{
}

/// What a handler is told of the turn it serves.
pub struct TurnContext {
    pub turn_id: TurnId,
    /// The namespace of the activation.
    pub activation: String,
    pub method: MethodIr,
    pub auth: Option<AuthContext>,
    pub raw_ctx: Option<RawRequestContext>,
    /// The number of the next update.
    pub update_seq: u64,
}

/// An update could not be emitted: the turn's consumer is gone.
#[derive(Debug, Clone, Copy, PartialEq, Eq, Structural)]
pub struct TurnClosed(pub TurnId);

/// The message of a closed turn.
pub open spec fn closed_message(turn: TurnId) -> Seq<char> {
    "turn "@ + ids::turn_form(turn) + " is no longer accepting updates: its consumer dropped the event stream"@
}

impl TurnClosed {
    /// The message.
    pub fn message(&self) -> (r: String)
        ensures
            r@ == closed_message(self.0),
    {
        join3(
            "turn ",
            self.0.to_text().as_str(),
            " is no longer accepting updates: its consumer dropped the event stream",
        )
    }

    /// The error of a turn whose update could not be emitted.
    pub fn to_turn_error(&self) -> (r: TurnError)
        ensures
            r@ == error::bare_error(codes::TURN_CLOSED@, closed_message(self.0)),
    {
        TurnError::new(codes::TURN_CLOSED, self.message())
    }
}

impl TurnContext {
    /// The context of a turn that has emitted nothing.
    pub fn new(
        turn_id: TurnId,
        activation: String,
        method: MethodIr,
        auth: Option<AuthContext>,
        raw_ctx: Option<RawRequestContext>,
    ) -> (r: Self)
        ensures
            r == (TurnContext { turn_id, activation, method, auth, raw_ctx, update_seq: 0u64 }),
    {
        TurnContext { turn_id, activation, method, auth, raw_ctx, update_seq: 0 }
    }

    /// The turn's identifier.
    pub fn turn_id(&self) -> (r: TurnId)
        ensures
            r == self.turn_id,
    {
        self.turn_id
    }

    /// The namespace of the activation.
    pub fn activation(&self) -> (r: &str)
        ensures
            r@ == self.activation@,
    {
        self.activation.as_str()
    }

    /// The method that is served.
    pub fn method(&self) -> (r: &MethodIr)
        ensures
            *r == self.method,
    {
        &self.method
    }

    /// The caller, where there is one.
    pub fn auth(&self) -> (r: Option<&AuthContext>)
        ensures
            match r {
                Some(a) => self.auth == Some(*a),
                None => self.auth is None,
            },
    {
        self.auth.as_ref()
    }

    /// The raw request, where the transport supplied one.
    pub fn raw_context(&self) -> (r: Option<&RawRequestContext>)
        ensures
            match r {
                Some(c) => self.raw_ctx == Some(*c),
                None => self.raw_ctx is None,
            },
    {
        self.raw_ctx.as_ref()
    }

    /// The next update, numbered by the turn.
    pub fn emit(&mut self, content: Json) -> (r: TurnEvent)
        ensures
            r == (TurnEvent::Update { turn: old(self).turn_id, seq: old(self).update_seq, content }),
            *final(self) == (TurnContext { update_seq: next_seq(old(self).update_seq), ..*old(self) }),
    {
        let seq = self.update_seq;
        self.update_seq = seq.wrapping_add(1);
        TurnEvent::update(self.turn_id, seq, content)
    }

    /// The next update from a serialized value, or the error that says why it could not be
    /// serialized; a value that could not be serialized takes no number.
    pub fn emit_typed(&mut self, value: Result<Json, String>) -> (r: Result<TurnEvent, TurnError>)
        ensures
            match value {
                Ok(v) => r == Ok::<TurnEvent, TurnError>(
                    TurnEvent::Update { turn: old(self).turn_id, seq: old(self).update_seq, content: v },
                ) && *final(self) == (TurnContext { update_seq: next_seq(old(self).update_seq), ..*old(self) }),
                Err(e) => r is Err && r->Err_0@ == error::bare_error(
                    codes::UPDATE_UNSERIALIZABLE@,
                    "an update could not be serialized: "@ + e@,
                ) && *final(self) == *old(self),
            },
    {
        match value {
            Ok(v) => Ok(self.emit(v)),
            Err(e) => Err(
                TurnError::new(
                    codes::UPDATE_UNSERIALIZABLE,
                    join2("an update could not be serialized: ", e.as_str()),
                ),
            ),
        }
    }

    /// How many updates the turn has emitted.
    pub fn updates_emitted(&self) -> (r: u64)
        ensures
            r == self.update_seq,
    {
        self.update_seq
    }
}

/// The number behind a number; 0 behind the greatest.
pub open spec fn next_seq(seq: u64) -> u64 {
    if seq == u64::MAX {
        0
    } else {
        (seq + 1) as u64
    }
}

/// The number of the update that comes after `n` others.
pub open spec fn seq_after(n: nat) -> u64
    decreases n,
{
    if n == 0 {
        0
    } else {
        next_seq(seq_after((n - 1) as nat))
    }
}

/// A turn numbers its updates from 0, without a gap and without a repetition, as long as the
/// numbers last.
pub proof fn law_updates_are_numbered_without_gaps(n: nat)
    requires
        n <= u64::MAX,
    ensures
        seq_after(n) == n,
    decreases n,
{
    if n > 0 {
        law_updates_are_numbered_without_gaps((n - 1) as nat);
    }
}

/// Name to handler. The whole of dispatch.
pub struct HandlerTable<H> {
    pub entries: Vec<(String, H)>,
}

/// The names of entries, in order.
pub open spec fn entry_names<H>(entries: Seq<(String, H)>) -> Seq<Seq<char>> {
    Seq::new(entries.len(), |i: int| entries[i].0@)
}

/// The position of the last entry under a name, or -1 when there is none.
pub open spec fn last_at<H>(entries: Seq<(String, H)>, name: Seq<char>) -> int
    decreases entries.len(),
{
    if entries.len() == 0 {
        -1
    } else if entries.last().0@ == name {
        entries.len() - 1
    } else {
        last_at(entries.drop_last(), name)
    }
}

/// The last entry under a name.
pub open spec fn last_under<H>(entries: Seq<(String, H)>, name: Seq<char>) -> Option<H> {
    if last_at(entries, name) >= 0 {
        Some(entries[last_at(entries, name)].1)
    } else {
        None
    }
}

/// The names, each once, in the order in which they first occur.
pub open spec fn first_seen(names: Seq<Seq<char>>) -> Seq<Seq<char>>
    decreases names.len(),
{
    if names.len() == 0 {
        Seq::empty()
    } else if names.drop_last().contains(names.last()) {
        first_seen(names.drop_last())
    } else {
        first_seen(names.drop_last()).push(names.last())
    }
}

pub proof fn lemma_last_at<H>(entries: Seq<(String, H)>, name: Seq<char>)
    ensures
        -1 <= last_at(entries, name) < entries.len(),
        last_at(entries, name) >= 0 ==> entries[last_at(entries, name)].0@ == name,
        forall|k: int| last_at(entries, name) < k < entries.len() ==> (#[trigger] entries[k]).0@ != name,
    decreases entries.len(),
{
    if entries.len() > 0 && entries.last().0@ != name {
        lemma_last_at(entries.drop_last(), name);
        assert forall|k: int| last_at(entries, name) < k < entries.len() implies (#[trigger] entries[k]).0@ != name by {
            if k < entries.len() - 1 {
                assert(entries.drop_last()[k] == entries[k]);
            }
        }
    }
}

proof fn lemma_first_seen(names: Seq<Seq<char>>)
    ensures
        forall|n: Seq<char>| #[trigger] first_seen(names).contains(n) <==> names.contains(n),
        first_seen(names).no_duplicates(),
    decreases names.len(),
{
    if names.len() > 0 {
        let rest = names.drop_last();
        lemma_first_seen(rest);
        assert forall|n: Seq<char>| #[trigger] first_seen(names).contains(n) <==> names.contains(n) by {
            if names.contains(n) {
                let i = choose|i: int| 0 <= i < names.len() && names[i] == n;
                if i < rest.len() {
                    assert(rest[i] == n);
                    assert(first_seen(rest).contains(n));
                    let j = choose|j: int| 0 <= j < first_seen(rest).len() && first_seen(rest)[j] == n;
                    assert(first_seen(names)[j] == n);
                } else if rest.contains(n) {
                    assert(first_seen(rest).contains(n));
                } else {
                    assert(first_seen(names).last() == n);
                }
            }
            if first_seen(names).contains(n) {
                let j = choose|j: int| 0 <= j < first_seen(names).len() && first_seen(names)[j] == n;
                if j < first_seen(rest).len() {
                    assert(first_seen(rest).contains(first_seen(rest)[j]));
                    let i = choose|i: int| 0 <= i < rest.len() && rest[i] == n;
                    assert(names[i] == n);
                } else {
                    assert(names.last() == n);
                }
            }
        }
        if !rest.contains(names.last()) {
            assert(!first_seen(rest).contains(names.last()));
        }
    }
}

impl<H> HandlerTable<H> {
    /// A table: each name once, in the order in which they first occur, with the handler
    /// that was given last.
    pub fn new(entries: Vec<(String, H)>) -> (r: Self)
        ensures
            entry_names(r.entries@) == first_seen(entry_names(entries@)),
            forall|n: Seq<char>| #[trigger] last_under(r.entries@, n) == last_under(entries@, n),
    {
        let ghost all = entries@;
        let mut rest = entries;
        let mut out: Vec<(String, H)> = Vec::new();
        let ghost mut done: int = 0;
        assert(all.take(0) =~= Seq::empty());
        assert(all.skip(0) =~= all);
        assert(entry_names(out@) =~= Seq::empty());
        assert(entry_names(all.take(0)) =~= Seq::empty());
        while rest.len() > 0
            invariant
                0 <= done <= all.len(),
                rest@ == all.skip(done),
                entry_names(out@) == first_seen(entry_names(all.take(done))),
                forall|n: Seq<char>| #[trigger] last_under(out@, n) == last_under(all.take(done), n),
            decreases rest.len(),
        {
            let ghost before = out@;
            let (name, handler) = rest.remove(0);
            let ghost here = all.take(done);
            let ghost next = all.take(done + 1);
            proof {
                assert(all.skip(done)[0] == all[done]);
                assert(all.skip(done).remove(0) =~= all.skip(done + 1));
                assert(next.drop_last() =~= here);
                assert(next.last() == all[done]);
                assert(entry_names(next).drop_last() =~= entry_names(here));
                assert(entry_names(next).last() == name@);
                lemma_first_seen(entry_names(here));
            }
            let mut i: usize = 0;
            while i < out.len() && !same_text(out[i].0.as_str(), name.as_str())
                invariant
                    i <= out.len(),
                    out@ == before,
                    forall|j: int| 0 <= j < i ==> (#[trigger] out@[j]).0@ != name@,
                decreases out.len() - i,
            {
                i += 1;
            }
            let ghost entry = (name, handler);
            if i < out.len() {
                out.set(i, (name, handler));
                proof {
                    assert(entry_names(before)[i as int] == name@);
                    assert(entry_names(before).contains(name@));
                    assert(entry_names(out@) =~= entry_names(before));
                    assert forall|n: Seq<char>| #[trigger] last_under(out@, n) == last_under(next, n) by {
                        lemma_last_at(out@, n);
                        lemma_last_at(before, n);
                        lemma_last_at(here, n);
                        assert(last_under(before, n) == last_under(here, n));
                        assert forall|k: int| 0 <= k < before.len() && k != i implies (#[trigger] before[k]).0@
                            != name@ by {
                            assert(entry_names(before)[k] != entry_names(before)[i as int]);
                        }
                        if n == name@ {
                            assert(out@[i as int].0@ == n);
                            assert(last_at(out@, n) == i) by {
                                let l = last_at(out@, n);
                                if l != i && l >= 0 {
                                    assert(out@[l] == before[l]);
                                }
                            }
                        } else {
                            let l = last_at(before, n);
                            let m = last_at(out@, n);
                            if m >= 0 {
                                assert(m != i);
                                assert(before[m] == out@[m]);
                            }
                            if l >= 0 {
                                assert(l != i);
                                assert(before[l] == out@[l]);
                            }
                            assert(l == m);
                        }
                    }
                }
            } else {
                out.push((name, handler));
                proof {
                    assert(!entry_names(before).contains(name@)) by {
                        if entry_names(before).contains(name@) {
                            let j = choose|j: int| 0 <= j < before.len() && entry_names(before)[j] == name@;
                            assert(before[j].0@ == name@);
                        }
                    }
                    assert(!entry_names(here).contains(name@));
                    assert(entry_names(out@) =~= entry_names(before).push(name@));
                    assert(out@.drop_last() =~= before);
                    assert forall|n: Seq<char>| #[trigger] last_under(out@, n) == last_under(next, n) by {
                        assert(last_under(before, n) == last_under(here, n));
                        lemma_last_at(before, n);
                        lemma_last_at(here, n);
                    }
                }
            }
            proof {
                done = done + 1;
            }
        }
        proof {
            assert(all.take(all.len() as int) =~= all);
            if done < all.len() {
                assert(all.skip(done).len() > 0);
            }
        }
        HandlerTable { entries: out }
    }

    /// The handler under a name.
    pub fn get(&self, name: &str) -> (r: Option<&H>)
        ensures
            match r {
                Some(h) => last_under(self.entries@, name@) == Some(*h),
                None => last_under(self.entries@, name@) is None,
            },
    {
        let mut i: usize = self.entries.len();
        while i > 0
            invariant
                i <= self.entries.len(),
                forall|k: int| i <= k < self.entries@.len() ==> (#[trigger] self.entries@[k]).0@ != name@,
            decreases i,
        {
            i -= 1;
            if same_text(self.entries[i].0.as_str(), name) {
                proof {
                    lemma_last_at(self.entries@, name@);
                }
                return Some(&self.entries[i].1);
            }
        }
        proof {
            lemma_last_at(self.entries@, name@);
        }
        None
    }

    /// Whether there is a handler under a name.
    pub fn contains(&self, name: &str) -> (r: bool)
        ensures
            r == (last_under(self.entries@, name@) is Some),
    {
        self.get(name).is_some()
    }

    /// The names, in order.
    pub fn order(&self) -> (r: Vec<String>)
        ensures
            text::texts(r@) == entry_names(self.entries@),
    {
        let mut out: Vec<String> = Vec::new();
        let mut i: usize = 0;
        while i < self.entries.len()
            invariant
                i <= self.entries.len(),
                out@.len() == i,
                forall|j: int| 0 <= j < i ==> (#[trigger] out@[j])@ == self.entries@[j].0@,
            decreases self.entries.len() - i,
        {
            out.push(self.entries[i].0.clone());
            i += 1;
        }
        assert(text::texts(out@) =~= entry_names(self.entries@));
        out
    }

    /// How many names there are.
    pub fn len(&self) -> (r: usize)
        ensures
            r == self.entries@.len(),
    {
        self.entries.len()
    }

    /// Whether there is no name.
    pub fn is_empty(&self) -> (r: bool)
        ensures
            r == (self.entries@.len() == 0),
    {
        self.entries.len() == 0
    }
}

/// A handler is found under its name: the one that was given last, and none where no handler
/// was given under that name.
pub proof fn law_the_last_handler_of_a_name_is_found<H>(entries: Seq<(String, H)>, name: Seq<char>)
    ensures
        last_under(entries, name) is Some <==> exists|k: int|
            0 <= k < entries.len() && (#[trigger] entries[k]).0@ == name,
        forall|k: int|
            0 <= k < entries.len() && (#[trigger] entries[k]).0@ == name && (forall|j: int|
                k < j < entries.len() ==> (#[trigger] entries[j]).0@ != name) ==> last_under(entries, name) == Some(
                entries[k].1,
            ),
{
    lemma_last_at(entries, name);
    let at = last_at(entries, name);
    if at >= 0 {
        assert(entries[at].0@ == name);
    }
    assert forall|k: int|
        0 <= k < entries.len() && (#[trigger] entries[k]).0@ == name && (forall|j: int|
            k < j < entries.len() ==> (#[trigger] entries[j]).0@ != name) implies last_under(entries, name) == Some(
        entries[k].1,
    ) by {
        if at > k {
            assert(entries[at].0@ != name);
        }
    }
}

/// A table lists each of its names once, and all of them, in the order in which they first came.
pub proof fn law_a_table_lists_each_name_once(names: Seq<Seq<char>>)
    ensures
        first_seen(names).no_duplicates(),
        forall|n: Seq<char>| #[trigger] first_seen(names).contains(n) <==> names.contains(n),
        names.no_duplicates() ==> first_seen(names) == names,
    decreases names.len(),
{
    lemma_first_seen(names);
    if names.len() > 0 && names.no_duplicates() {
        let rest = names.drop_last();
        law_a_table_lists_each_name_once(rest);
        assert(!rest.contains(names.last())) by {
            if rest.contains(names.last()) {
                let i = choose|i: int| 0 <= i < rest.len() && rest[i] == names.last();
                assert(names[i] == names[names.len() - 1]);
            }
        }
        assert(rest.push(names.last()) =~= names);
    }
}

/// One more name leaves the listed names where they are: it comes behind them where it is new,
/// and changes nothing where it is not.
pub proof fn law_a_new_name_comes_last(names: Seq<Seq<char>>, name: Seq<char>)
    ensures
        first_seen(names.push(name)) == (if names.contains(name) {
            first_seen(names)
        } else {
            first_seen(names).push(name)
        }),
{
    assert(names.push(name).drop_last() =~= names);
}

/// The terminal of an outcome says what the outcome says: a completion its value and its detail,
/// any other stop itself and its value. A completion is a success and carries no error.
pub proof fn law_a_terminal_says_what_its_outcome_says(
    value: Option<Json>,
    detail: Option<StopDetail>,
    stop: StopReason,
)
    ensures
        terminal_of(TurnOutcome::Complete { value, detail }).0@.kind == StopKind::Complete,
        terminal_of(TurnOutcome::Complete { value, detail }).0@.error is None,
        terminal_of(TurnOutcome::Complete { value, detail }).0@.detail == (match detail {
            Some(d) => Some(d@),
            None => None,
        }),
        terminal_of(TurnOutcome::Complete { value, detail }).1 == value,
        terminal_of(TurnOutcome::Stopped { stop, value }) == (stop, value),
{
}

/// An update that finds its turn closed is told so, with the turn that it belongs to.
pub proof fn law_a_closed_turn_is_named(a: TurnId, b: TurnId)
    ensures
        closed_message(a) == "turn "@ + ids::turn_form(a)
            + " is no longer accepting updates: its consumer dropped the event stream"@,
        closed_message(a) == closed_message(b) ==> a == b,
{
    reveal_strlit("turn ");
    ids::lemma_turn_form_len(a);
    ids::lemma_turn_form_len(b);
    assert(closed_message(a).subrange(5, 41) =~= ids::turn_form(a));
    assert(closed_message(b).subrange(5, 41) =~= ids::turn_form(b));
    if ids::turn_form(a) == ids::turn_form(b) {
        ids::law_a_turn_is_told_by_its_text(a, b);
    }
}

} // verus!
