//! The error that a failed turn carries, and the refusals that come before and beside a turn.

use crate::ir::{DetailView, StopDetail, StopKind, StopReason, StopView};
use crate::json;
use crate::json::{put_entry, Json, JsonView};
use crate::outside;
use crate::outside::debug_list;
use crate::plexus::error::{PlexusError, PlexusErrorView};
use crate::plexus::wire;
use crate::runtime::codes;
use crate::runtime::ids;
use crate::runtime::ids::{CallbackId, TurnId};
use crate::text;
use crate::text::{dotted_text, join2, join3};
use vstd::prelude::*;

verus! {

/// The structured error of a failed turn.
#[derive(Debug, PartialEq)]
pub struct TurnError {
    /// Stable machine token.
    pub code: String,
    /// Human-readable summary.
    pub message: String,
    /// Whether retrying could plausibly succeed, when known.
    pub retryable: Option<bool>,
    /// The handler's own error value.
    pub details: Option<Json>,
    /// Further structured context, in the order of its keys.
    pub context: Vec<(String, Json)>,
}

/// What a `TurnError` says.
#[verifier::ext_equal]
pub struct TurnErrorView {
    pub code: Seq<char>,
    pub message: Seq<char>,
    pub retryable: Option<bool>,
    pub details: Option<JsonView>,
    pub context: Seq<(Seq<char>, JsonView)>,
}

impl View for TurnError {
    type V = TurnErrorView;

    open spec fn view(&self) -> TurnErrorView {
        TurnErrorView {
            code: self.code@,
            message: self.message@,
            retryable: self.retryable,
            details: json::opt_json(self.details),
            context: json::entries_view(self.context@),
        }
    }
}

/// An error with a code and a message and nothing else.
pub open spec fn bare_error(code: Seq<char>, message: Seq<char>) -> TurnErrorView {
    TurnErrorView { code, message, retryable: None, details: None, context: Seq::empty() }
}

/// The error with a value under a context key.
pub open spec fn with_entry(e: TurnErrorView, key: Seq<char>, value: JsonView) -> TurnErrorView {
    TurnErrorView { context: json::put(e.context, key, value), ..e }
}

/// The wire form of an error: what is missing is left out.
pub open spec fn turn_error_json(e: TurnErrorView) -> JsonView {
    let out = json::put(
        json::put(Seq::empty(), "code"@, JsonView::Text(e.code)),
        "message"@,
        JsonView::Text(e.message),
    );
    let out = match e.retryable {
        Some(b) => json::put(out, "retryable"@, JsonView::Bool(b)),
        None => out,
    };
    let out = match e.details {
        Some(d) => json::put(out, "details"@, d),
        None => out,
    };
    let out = if e.context.len() > 0 {
        json::put(out, "context"@, JsonView::Object(e.context))
    } else {
        out
    };
    JsonView::Object(out)
}

impl TurnError {
    /// An error with a code and a message and nothing else.
    pub fn new(code: &str, message: String) -> (r: Self)
        ensures
            r@ == bare_error(code@, message@),
    {
        let r = TurnError { code: code.to_owned(), message, retryable: None, details: None, context: Vec::new() };
        assert(json::entries_view(r.context@) =~= Seq::empty());
        r
    }

    /// An error with the handler's own error value, or with the reason why that value could
    /// not be serialized.
    pub fn structured(code: &str, message: String, details: Result<Json, String>) -> (r: Self)
        ensures
            r@ == (match details {
                Ok(v) => TurnErrorView { details: Some(v@), ..bare_error(code@, message@) },
                Err(e) => with_entry(bare_error(code@, message@), "details_error"@, JsonView::Text(e@)),
            }),
    {
        let err = TurnError::new(code, message);
        match details {
            Ok(v) => err.with_details(v),
            Err(e) => err.with_context("details_error", Json::Text(e)),
        }
    }

    /// The same error, marked retryable or not.
    pub fn retryable(self, b: bool) -> (r: Self)
        ensures
            r@ == (TurnErrorView { retryable: Some(b), ..self@ }),
    {
        TurnError {
            code: self.code,
            message: self.message,
            retryable: Some(b),
            details: self.details,
            context: self.context,
        }
    }

    /// The same error with a detail payload.
    pub fn with_details(self, v: Json) -> (r: Self)
        ensures
            r@ == (TurnErrorView { details: Some(v@), ..self@ }),
    {
        TurnError {
            code: self.code,
            message: self.message,
            retryable: self.retryable,
            details: Some(v),
            context: self.context,
        }
    }

    /// The same error with a value under a context key.
    pub fn with_context(self, k: &str, v: Json) -> (r: Self)
        ensures
            r@ == with_entry(self@, k@, v@),
    {
        let mut context = self.context;
        put_entry(&mut context, k, v);
        TurnError {
            code: self.code,
            message: self.message,
            retryable: self.retryable,
            details: self.details,
            context,
        }
    }

    /// Params that did not decode.
    pub fn invalid_params(message: String) -> (r: Self)
        ensures
            r@ == bare_error(codes::INVALID_PARAMS@, message@),
    {
        TurnError::new(codes::INVALID_PARAMS, message)
    }

    /// A callback that could not be completed.
    pub fn callback_failed(message: String) -> (r: Self)
        ensures
            r@ == bare_error(codes::CALLBACK_FAILED@, message@),
    {
        TurnError::new(codes::CALLBACK_FAILED, message)
    }

    /// The wire form.
    pub fn to_json(&self) -> (r: Json)
        ensures
            r@ == turn_error_json(self@),
    {
        let mut out: Vec<(String, Json)> = Vec::new();
        assert(json::entries_view(out@) =~= Seq::empty());
        put_entry(&mut out, "code", Json::text(self.code.as_str()));
        put_entry(&mut out, "message", Json::text(self.message.as_str()));
        match self.retryable {
            Some(b) => put_entry(&mut out, "retryable", Json::Bool(b)),
            None => {},
        }
        match &self.details {
            Some(d) => put_entry(&mut out, "details", d.clone()),
            None => {},
        }
        if self.context.len() > 0 {
            let context = Json::Object(json::copy_entries(&self.context));
            proof {
                json::lemma_object_view(context->Object_0);
            }
            put_entry(&mut out, "context", context);
        }
        proof {
            json::lemma_object_view(out);
        }
        Json::Object(out)
    }

    /// The stop reason of the turn that failed with this error: the whole error as the
    /// payload, its code and message repeated as the detail.
    pub fn into_stop_reason(self) -> (r: StopReason)
        ensures
            r@ == failed_stop(self@),
    {
        let error = self.to_json();
        let TurnError { code, message, .. } = self;
        let detail = StopDetail::new(code).with_message(message);
        assert(detail@ =~= failed_stop(self@).detail->0);
        StopReason::failed(error).with_detail(detail)
    }

    /// The code, a colon and the message.
    pub fn to_text(&self) -> (r: String)
        ensures
            r@ == self.code@ + ": "@ + self.message@,
    {
        join3(self.code.as_str(), ": ", self.message.as_str())
    }
}

/// The stop of a turn that failed with an error.
pub open spec fn failed_stop(e: TurnErrorView) -> StopView {
    StopView {
        kind: StopKind::Failed,
        detail: Some(DetailView { code: e.code, message: Some(e.message), data: Seq::empty() }),
        error: Some(turn_error_json(e)),
    }
}

/// The error that a payload says: what stands under each of its keys. A payload whose details
/// are null says no details.
pub open spec fn error_in(payload: JsonView) -> TurnErrorView {
    TurnErrorView {
        code: match json::json_get(payload, "code"@) {
            Some(JsonView::Text(t)) => t,
            _ => Seq::empty(),
        },
        message: match json::json_get(payload, "message"@) {
            Some(JsonView::Text(t)) => t,
            _ => Seq::empty(),
        },
        retryable: match json::json_get(payload, "retryable"@) {
            Some(JsonView::Bool(b)) => Some(b),
            _ => None,
        },
        details: match json::json_get(payload, "details"@) {
            Some(JsonView::Null) => None,
            other => other,
        },
        context: match json::json_get(payload, "context"@) {
            Some(JsonView::Object(entries)) => entries,
            _ => Seq::empty(),
        },
    }
}

/// Nothing of an error is flattened on its way into a terminal: its code, message, details,
/// context and whether it can be retried stand in the payload, each under its own key, and the
/// code and the message in the detail besides.
pub proof fn law_terminal_keeps_the_error(e: TurnErrorView)
    ensures
        failed_stop(e).kind == StopKind::Failed,
        failed_stop(e).error is Some,
        json::json_get(failed_stop(e).error->0, "code"@) == Some(JsonView::Text(e.code)),
        json::json_get(failed_stop(e).error->0, "message"@) == Some(JsonView::Text(e.message)),
        json::json_get(failed_stop(e).error->0, "retryable"@) == (match e.retryable {
            Some(b) => Some(JsonView::Bool(b)),
            None => None,
        }),
        json::json_get(failed_stop(e).error->0, "details"@) == e.details,
        json::json_get(failed_stop(e).error->0, "context"@) == (if e.context.len() > 0 {
            Some(JsonView::Object(e.context))
        } else {
            None
        }),
        failed_stop(e).detail is Some,
        failed_stop(e).detail->0.code == e.code,
        failed_stop(e).detail->0.message == Some(e.message),
{
    broadcast use wire::lemma_read_put;

    reveal_strlit("code");
    reveal_strlit("message");
    reveal_strlit("retryable");
    reveal_strlit("details");
    reveal_strlit("context");
    assert("code"@.len() == 4 && "message"@.len() == 7 && "retryable"@.len() == 9 && "details"@.len() == 7);
    assert("message"@[0] == 'm' && "details"@[0] == 'd' && "context"@[0] == 'c' && "context"@.len() == 7);
    let none = Seq::<(Seq<char>, JsonView)>::empty();
    assert(json::entry_at(none, "retryable"@) is None);
    assert(json::entry_at(none, "details"@) is None);
    assert(json::entry_at(none, "context"@) is None);
}

/// What a terminal says of an error is that error, every field of it, where its details are
/// not null. Null details read back as none.
pub proof fn law_an_error_reads_back_from_its_terminal(e: TurnErrorView)
    requires
        e.details != Some(JsonView::Null),
    ensures
        error_in(failed_stop(e).error->0) == e,
{
    law_terminal_keeps_the_error(e);
    assert(error_in(failed_stop(e).error->0) =~= e);
}

/// The order in which two context entries are attached does not show.
pub proof fn law_context_order_does_not_show(
    e: TurnErrorView,
    k1: Seq<char>,
    v1: JsonView,
    k2: Seq<char>,
    v2: JsonView,
)
    requires
        k1 != k2,
        text::is_sorted(json::keys(e.context)),
    ensures
        with_entry(with_entry(e, k1, v1), k2, v2) == with_entry(with_entry(e, k2, v2), k1, v1),
        text::is_sorted(json::keys(with_entry(e, k1, v1).context)),
{
    json::law_put_order_does_not_show(e.context, k1, v1, k2, v2);
    json::law_put_keeps_order(e.context, k1, v1);
}

/// The decoded params, or the error that says why the type could not be had from them.
pub fn decode_params<T>(target: &str, decoded: Result<T, String>) -> (r: Result<T, TurnError>)
    ensures
        match decoded {
            Ok(v) => r == Ok::<T, TurnError>(v),
            Err(e) => r is Err && r->Err_0@ == bare_error(
                codes::INVALID_PARAMS@,
                "could not decode params into `"@ + target@ + "`: "@ + e@,
            ),
        },
{
    match decoded {
        Ok(v) => Ok(v),
        Err(e) => {
            let mut message = join3("could not decode params into `", target, "`: ");
            message.append(e.as_str());
            Err(TurnError::invalid_params(message))
        },
    }
}

/// The value of one named param; null when the params have none.
pub open spec fn param_of(params: JsonView, name: Seq<char>) -> JsonView {
    match json::json_get(params, name) {
        Some(v) => v,
        None => JsonView::Null,
    }
}

/// The value of one named param; null when the params have none.
pub fn select_param(params: &Json, name: &str) -> (r: Json)
    ensures
        r@ == param_of(params@, name@),
{
    match params.get(name) {
        Some(v) => v.clone(),
        None => Json::Null,
    }
}

/// The decoded param, or the error that names the param and the type.
pub fn decode_param<T>(name: &str, target: &str, decoded: Result<T, String>) -> (r: Result<T, TurnError>)
    ensures
        match decoded {
            Ok(v) => r == Ok::<T, TurnError>(v),
            Err(e) => r is Err && r->Err_0@ == bare_error(
                codes::INVALID_PARAMS@,
                "could not decode param `"@ + name@ + "` into `"@ + target@ + "`: "@ + e@,
            ),
        },
{
    match decoded {
        Ok(v) => Ok(v),
        Err(e) => {
            let mut message = join3("could not decode param `", name, "` into `");
            message.append(target);
            message.append("`: ");
            message.append(e.as_str());
            Err(TurnError::invalid_params(message))
        },
    }
}

/// Why no turn was opened at all.
#[derive(Debug, PartialEq, Eq)]
pub enum EntryError {
    /// The activation declares no method by that name.
    MethodNotFound { activation: String, method: String },
    /// The method is declared but has no handler.
    HandlerMissing { activation: String, method: String },
    /// The method requires authentication and the request carried none.
    Unauthenticated { method: String },
    /// The peer cannot serve a callback that the method declares.
    CapabilityMismatch { method: String, missing: Vec<String>, advertised: Vec<String> },
}

/// What an `EntryError` says.
#[verifier::ext_equal]
pub enum EntryErrorView {
    MethodNotFound { activation: Seq<char>, method: Seq<char> },
    HandlerMissing { activation: Seq<char>, method: Seq<char> },
    Unauthenticated { method: Seq<char> },
    CapabilityMismatch { method: Seq<char>, missing: Seq<Seq<char>>, advertised: Seq<Seq<char>> },
}

impl View for EntryError {
    type V = EntryErrorView;

    open spec fn view(&self) -> EntryErrorView {
        match *self {
            EntryError::MethodNotFound { activation, method } => EntryErrorView::MethodNotFound {
                activation: activation@,
                method: method@,
            },
            EntryError::HandlerMissing { activation, method } => EntryErrorView::HandlerMissing {
                activation: activation@,
                method: method@,
            },
            EntryError::Unauthenticated { method } => EntryErrorView::Unauthenticated { method: method@ },
            EntryError::CapabilityMismatch { method, missing, advertised } => EntryErrorView::CapabilityMismatch {
                method: method@,
                missing: text::texts(missing@),
                advertised: text::texts(advertised@),
            },
        }
    }
}

/// The machine token of a refusal.
pub open spec fn entry_code(e: EntryErrorView) -> Seq<char> {
    match e {
        EntryErrorView::MethodNotFound { .. } => codes::METHOD_NOT_FOUND@,
        EntryErrorView::HandlerMissing { .. } => codes::HANDLER_MISSING@,
        EntryErrorView::Unauthenticated { .. } => codes::UNAUTHENTICATED@,
        EntryErrorView::CapabilityMismatch { .. } => codes::CAPABILITY_MISMATCH@,
    }
}

/// The message of a refusal.
pub open spec fn entry_message(e: EntryErrorView) -> Seq<char> {
    match e {
        EntryErrorView::MethodNotFound { activation, method } => "method not found: "@ + text::dotted(
            activation,
            method,
        ),
        EntryErrorView::HandlerMissing { activation, method } => "handler missing for declared method "@
            + text::dotted(activation, method) + ": the IR and the handler table disagree"@,
        EntryErrorView::Unauthenticated { method } => "authentication required for method `"@ + method + "`"@,
        EntryErrorView::CapabilityMismatch { method, missing, advertised } => "capability mismatch on `"@ + method
            + "`: peer does not advertise "@ + outside::debug_list_form(missing) + " (advertised: "@
            + outside::debug_list_form(advertised) + ")"@,
    }
}

/// The structured form of a refusal: its code and message, with what it names as context.
pub open spec fn entry_turn_error(e: EntryErrorView) -> TurnErrorView {
    let bare = bare_error(entry_code(e), entry_message(e));
    match e {
        EntryErrorView::MethodNotFound { activation, method } => with_entry(
            with_entry(bare, "activation"@, JsonView::Text(activation)),
            "method"@,
            JsonView::Text(method),
        ),
        EntryErrorView::HandlerMissing { activation, method } => with_entry(
            with_entry(bare, "activation"@, JsonView::Text(activation)),
            "method"@,
            JsonView::Text(method),
        ),
        EntryErrorView::Unauthenticated { method } => with_entry(bare, "method"@, JsonView::Text(method)),
        EntryErrorView::CapabilityMismatch { method, missing, advertised } => with_entry(
            with_entry(
                with_entry(bare, "method"@, JsonView::Text(method)),
                "missing"@,
                json::text_items(missing),
            ),
            "advertised"@,
            json::text_items(advertised),
        ),
    }
}

/// The hub error that stands for a refusal.
pub open spec fn entry_plexus_error(e: EntryErrorView) -> PlexusErrorView {
    match e {
        EntryErrorView::MethodNotFound { activation, method } => PlexusErrorView::MethodNotFound {
            activation,
            method,
        },
        EntryErrorView::HandlerMissing { .. } => PlexusErrorView::ExecutionError(entry_message(e)),
        EntryErrorView::Unauthenticated { .. } => PlexusErrorView::Unauthenticated(entry_message(e)),
        EntryErrorView::CapabilityMismatch { .. } => PlexusErrorView::InvalidParams(entry_message(e)),
    }
}

impl EntryError {
    /// The machine token of the refusal.
    pub fn code(&self) -> (r: &'static str)
        ensures
            r@ == entry_code(self@),
    {
        match self {
            EntryError::MethodNotFound { .. } => codes::METHOD_NOT_FOUND,
            EntryError::HandlerMissing { .. } => codes::HANDLER_MISSING,
            EntryError::Unauthenticated { .. } => codes::UNAUTHENTICATED,
            EntryError::CapabilityMismatch { .. } => codes::CAPABILITY_MISMATCH,
        }
    }

    /// The message of the refusal.
    pub fn message(&self) -> (r: String)
        ensures
            r@ == entry_message(self@),
    {
        match self {
            EntryError::MethodNotFound { activation, method } => join2(
                "method not found: ",
                dotted_text(activation.as_str(), method.as_str()).as_str(),
            ),
            EntryError::HandlerMissing { activation, method } => join3(
                "handler missing for declared method ",
                dotted_text(activation.as_str(), method.as_str()).as_str(),
                ": the IR and the handler table disagree",
            ),
            EntryError::Unauthenticated { method } => join3(
                "authentication required for method `",
                method.as_str(),
                "`",
            ),
            EntryError::CapabilityMismatch { method, missing, advertised } => {
                let mut s = join3("capability mismatch on `", method.as_str(), "`: peer does not advertise ");
                s.append(debug_list(missing).as_str());
                s.append(" (advertised: ");
                s.append(debug_list(advertised).as_str());
                s.append(")");
                s
            },
        }
    }

    /// The structured form of the refusal.
    pub fn to_turn_error(&self) -> (r: TurnError)
        ensures
            r@ == entry_turn_error(self@),
    {
        let e = TurnError::new(self.code(), self.message());
        match self {
            EntryError::MethodNotFound { activation, method } => e.with_context(
                "activation",
                Json::text(activation.as_str()),
            ).with_context("method", Json::text(method.as_str())),
            EntryError::HandlerMissing { activation, method } => e.with_context(
                "activation",
                Json::text(activation.as_str()),
            ).with_context("method", Json::text(method.as_str())),
            EntryError::Unauthenticated { method } => e.with_context("method", Json::text(method.as_str())),
            EntryError::CapabilityMismatch { method, missing, advertised } => e.with_context(
                "method",
                Json::text(method.as_str()),
            ).with_context("missing", Json::text_array(missing)).with_context(
                "advertised",
                Json::text_array(advertised),
            ),
        }
    }
}

impl vstd::std_specs::convert::FromSpecImpl<EntryError> for PlexusError {
    open spec fn obeys_from_spec() -> bool {
        false
    }

    open spec fn from_spec(e: EntryError) -> PlexusError {
        arbitrary()
    }
}

impl From<EntryError> for PlexusError {
    fn from(e: EntryError) -> (r: Self)
        ensures
            r@ == entry_plexus_error(e@),
    {
        match &e {
            EntryError::MethodNotFound { activation, method } => PlexusError::MethodNotFound {
                activation: activation.clone(),
                method: method.clone(),
            },
            EntryError::HandlerMissing { .. } => PlexusError::ExecutionError(e.message()),
            EntryError::Unauthenticated { .. } => PlexusError::Unauthenticated(e.message()),
            EntryError::CapabilityMismatch { .. } => PlexusError::InvalidParams(e.message()),
        }
    }
}

/// Why a callback response could not be delivered.
#[derive(Debug, Clone, Copy, PartialEq, Eq, Structural)]
pub enum RespondError {
    /// The response was addressed to a different turn.
    WrongTurn { expected: TurnId, actual: TurnId },
    /// No callback with that identifier is in flight.
    UnknownCallback(CallbackId),
    /// The turn has resolved.
    TurnEnded(TurnId),
}

/// The message of an undeliverable response.
pub open spec fn respond_message(e: RespondError) -> Seq<char> {
    match e {
        RespondError::WrongTurn { expected, actual } => "callback response addressed to turn "@ + ids::turn_form(
            actual,
        ) + " was offered to turn "@ + ids::turn_form(expected),
        RespondError::UnknownCallback(id) => "no in-flight callback "@ + ids::callback_form(id),
        RespondError::TurnEnded(turn) => "turn "@ + ids::turn_form(turn) + " has already resolved"@,
    }
}

impl RespondError {
    /// The message.
    pub fn message(&self) -> (r: String)
        ensures
            r@ == respond_message(*self),
    {
        match self {
            RespondError::WrongTurn { expected, actual } => {
                let mut s = join3(
                    "callback response addressed to turn ",
                    actual.to_text().as_str(),
                    " was offered to turn ",
                );
                s.append(expected.to_text().as_str());
                s
            },
            RespondError::UnknownCallback(id) => join2("no in-flight callback ", id.to_text().as_str()),
            RespondError::TurnEnded(turn) => join3("turn ", turn.to_text().as_str(), " has already resolved"),
        }
    }
}

/// A refusal keeps what it names: each name stands in the context of its structured form under its
/// own key, with the code of its kind and the message that the refusal has.
pub proof fn law_a_refusal_keeps_what_it_names(e: EntryErrorView)
    ensures
        entry_turn_error(e).code == entry_code(e),
        entry_turn_error(e).message == entry_message(e),
        ({
            let context = entry_turn_error(e).context;
            match e {
                EntryErrorView::MethodNotFound { activation, method } => {
                    &&& json::entry_at(context, "activation"@) == Some(JsonView::Text(activation))
                    &&& json::entry_at(context, "method"@) == Some(JsonView::Text(method))
                    &&& entry_code(e) == codes::METHOD_NOT_FOUND@
                },
                EntryErrorView::HandlerMissing { activation, method } => {
                    &&& json::entry_at(context, "activation"@) == Some(JsonView::Text(activation))
                    &&& json::entry_at(context, "method"@) == Some(JsonView::Text(method))
                    &&& entry_code(e) == codes::HANDLER_MISSING@
                },
                EntryErrorView::Unauthenticated { method } => {
                    &&& json::entry_at(context, "method"@) == Some(JsonView::Text(method))
                    &&& entry_code(e) == codes::UNAUTHENTICATED@
                },
                EntryErrorView::CapabilityMismatch { method, missing, advertised } => {
                    &&& json::entry_at(context, "method"@) == Some(JsonView::Text(method))
                    &&& json::entry_at(context, "missing"@) == Some(
                        JsonView::Array(Seq::new(missing.len(), |i: int| JsonView::Text(missing[i]))),
                    )
                    &&& json::entry_at(context, "advertised"@) == Some(
                        JsonView::Array(Seq::new(advertised.len(), |i: int| JsonView::Text(advertised[i]))),
                    )
                    &&& entry_code(e) == codes::CAPABILITY_MISMATCH@
                },
            }
        }),
{
    broadcast use wire::lemma_read_put;

    reveal_strlit("activation");
    reveal_strlit("method");
    reveal_strlit("missing");
    reveal_strlit("advertised");
    assert("activation"@.len() == 10 && "method"@.len() == 6 && "missing"@.len() == 7);
    assert("advertised"@.len() == 10);
}

/// A refusal reaches a caller of the hub as what it is: an unknown method as that, a missing sign-in
/// as that, callbacks that the peer cannot serve as bad parameters, and a missing handler as a
/// fault of the service. All but the first carry the refusal's message.
pub proof fn law_a_refusal_reaches_the_caller_as_what_it_is(e: EntryErrorView)
    ensures
        match entry_plexus_error(e) {
            PlexusErrorView::MethodNotFound { activation, method } => e == (EntryErrorView::MethodNotFound {
                activation,
                method,
            }),
            PlexusErrorView::Unauthenticated(m) => e is Unauthenticated && m == entry_message(e),
            PlexusErrorView::InvalidParams(m) => e is CapabilityMismatch && m == entry_message(e),
            PlexusErrorView::ExecutionError(m) => e is HandlerMissing && m == entry_message(e),
            _ => false,
        },
{
}

/// A named param is what stands under its name, and null where nothing does.
pub proof fn law_a_param_is_found_under_its_name(
    entries: Seq<(Seq<char>, JsonView)>,
    name: Seq<char>,
    v: JsonView,
)
    ensures
        param_of(JsonView::Object(json::put(entries, name, v)), name) == v,
        json::entry_at(entries, name) is None ==> param_of(JsonView::Object(entries), name) == JsonView::Null,
{
    json::law_put_then_read(entries, name, v, name);
}

/// What is told of an answer that reached no callback names what it was about, and which way
/// round: the turn that it was addressed to and the one that it was offered to, the callback that
/// is unknown, or the turn that had ended.
pub proof fn law_an_undeliverable_answer_is_explained(a: TurnId, b: TurnId, id: CallbackId)
    ensures
        respond_message(RespondError::WrongTurn { expected: a, actual: b }) == "callback response addressed to turn "@
            + ids::turn_form(b) + " was offered to turn "@ + ids::turn_form(a),
        respond_message(RespondError::UnknownCallback(id)) == "no in-flight callback "@ + ids::turn_form(id.turn)
            + seq![':'] + text::decimal(id.seq as nat),
        respond_message(RespondError::TurnEnded(a)) == "turn "@ + ids::turn_form(a) + " has already resolved"@,
{
    reveal_strlit(":");
    assert(":"@ =~= seq![':']);
    assert("no in-flight callback "@ + (ids::turn_form(id.turn) + ":"@ + text::decimal(id.seq as nat))
        =~= "no in-flight callback "@ + ids::turn_form(id.turn) + seq![':'] + text::decimal(id.seq as nat));
}

/// An error says what its fields hold, and a refusal likewise.
pub proof fn law_an_error_says_what_it_holds(e: TurnError, code: Seq<char>, message: Seq<char>)
    ensures
        e@.code == e.code@,
        e@.message == e.message@,
        e@.retryable == e.retryable,
        e.details is None ==> e@.details is None,
        e.details is Some ==> e@.details == Some(e.details->0@),
        e@.context.len() == e.context@.len(),
        forall|i: int| 0 <= i < e.context@.len() ==> #[trigger] e@.context[i] == (e.context@[i].0@, e.context@[i].1@),
        bare_error(code, message).code == code,
        bare_error(code, message).message == message,
        bare_error(code, message).retryable is None,
        bare_error(code, message).details is None,
        bare_error(code, message).context.len() == 0,
{
}

/// A refusal says what its fields hold.
pub proof fn law_a_refusal_says_what_it_holds(e: EntryError)
    ensures
        match e {
            EntryError::MethodNotFound { activation, method } => e@ is MethodNotFound && e@->MethodNotFound_activation
                == activation@ && e@->MethodNotFound_method == method@,
            EntryError::HandlerMissing { activation, method } => e@ is HandlerMissing && e@->HandlerMissing_activation
                == activation@ && e@->HandlerMissing_method == method@,
            EntryError::Unauthenticated { method } => e@ is Unauthenticated && e@->Unauthenticated_method == method@,
            EntryError::CapabilityMismatch { method, missing, advertised } => {
                &&& e@ is CapabilityMismatch
                &&& e@->CapabilityMismatch_method == method@
                &&& e@->missing == text::texts(missing@)
                &&& e@->advertised == text::texts(advertised@)
            },
        },
{
}

/// What a caller is told of a refusal says of which kind it is and names what stood against the
/// turn: the method behind its activation and a dot, or the method alone, with the callbacks that
/// are missing and those that the peer can serve.
pub proof fn law_a_refusal_is_told_with_what_it_names(
    activation: Seq<char>,
    method: Seq<char>,
    missing: Seq<Seq<char>>,
    advertised: Seq<Seq<char>>,
)
    ensures
        entry_message(EntryErrorView::MethodNotFound { activation, method }) == "method not found: "@ + (activation
            + seq!['.'] + method),
        entry_message(EntryErrorView::HandlerMissing { activation, method })
            == "handler missing for declared method "@ + (activation + seq!['.'] + method)
            + ": the IR and the handler table disagree"@,
        entry_message(EntryErrorView::Unauthenticated { method }) == "authentication required for method `"@ + method
            + "`"@,
        entry_message(EntryErrorView::CapabilityMismatch { method, missing, advertised })
            == "capability mismatch on `"@ + method + "`: peer does not advertise "@ + outside::debug_list_form(
            missing,
        ) + " (advertised: "@ + outside::debug_list_form(advertised) + ")"@,
{
}

} // verus!
