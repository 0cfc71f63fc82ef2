//! What a service declares of itself, and why a turn stops.

use crate::digest;
use crate::digest::digest_texts;
use crate::json;
use crate::json::{copy_entries, put_entry, Json, JsonView};
use crate::plexus::wire;
use crate::text;
use crate::text::{copy_opt, same_text, sort_texts};
use std::collections::hash_map::DefaultHasher;
use vstd::prelude::*;
use vstd::std_specs::hash::*;

verus! {

/// The closed set of ways in which a turn can stop.
#[derive(Debug, Clone, Copy, PartialEq, Eq, Structural)]
pub enum StopKind {
    Complete,
    Refused,
    Limited,
    Cancelled,
    Failed,
}

/// The open, domain-specific elaboration of a stop.
#[derive(Debug, PartialEq)]
pub struct StopDetail {
    pub code: String,
    pub message: Option<String>,
    pub data: Vec<(String, Json)>,
}

/// What a `StopDetail` says.
#[verifier::ext_equal]
pub struct DetailView {
    pub code: Seq<char>,
    pub message: Option<Seq<char>>,
    pub data: Seq<(Seq<char>, JsonView)>,
}

impl View for StopDetail {
    type V = DetailView;

    open spec fn view(&self) -> DetailView {
        DetailView {
            code: self.code@,
            message: text::opt_text(self.message),
            data: json::entries_view(self.data@),
        }
    }
}

impl StopDetail {
    /// A detail with a code and nothing else.
    pub fn new(code: String) -> (r: Self)
        ensures
            r.code == code,
            r.message is None,
            r@ == (DetailView { code: code@, message: None, data: Seq::empty() }),
    {
        let r = StopDetail { code, message: None, data: Vec::new() };
        assert(json::entries_view(r.data@) =~= Seq::empty());
        r
    }

    /// The same detail with a message.
    pub fn with_message(self, message: String) -> (r: Self)
        ensures
            r == (StopDetail { message: Some(message), ..self }),
    {
        StopDetail { code: self.code, message: Some(message), data: self.data }
    }

    /// The same detail with a value under a key.
    pub fn with_data(self, key: &str, value: Json) -> (r: Self)
        ensures
            r@ == (DetailView { data: json::put(self@.data, key@, value@), ..self@ }),
    {
        let mut data = self.data;
        put_entry(&mut data, key, value);
        StopDetail { code: self.code, message: self.message, data }
    }

    /// The wire form of the detail.
    pub fn to_json(&self) -> (r: Json)
        ensures
            r@ == detail_json(self@),
    {
        let mut out: Vec<(String, Json)> = Vec::new();
        assert(json::entries_view(out@) =~= Seq::empty());
        put_entry(&mut out, "code", Json::text(self.code.as_str()));
        match &self.message {
            Some(m) => put_entry(&mut out, "message", Json::text(m.as_str())),
            None => {},
        }
        if self.data.len() > 0 {
            let data = Json::Object(json::copy_entries(&self.data));
            proof {
                json::lemma_object_view(data->Object_0);
            }
            put_entry(&mut out, "data", data);
        }
        proof {
            json::lemma_object_view(out);
        }
        Json::Object(out)
    }
}

/// The wire form of a detail: its code, and its message and data where it has them.
pub open spec fn detail_json(d: DetailView) -> JsonView {
    let e = json::put(Seq::empty(), "code"@, JsonView::Text(d.code));
    let e = match d.message {
        Some(m) => json::put(e, "message"@, JsonView::Text(m)),
        None => e,
    };
    let e = if d.data.len() > 0 {
        json::put(e, "data"@, JsonView::Object(d.data))
    } else {
        e
    };
    JsonView::Object(e)
}

/// Why a turn stopped. Only a failure carries an error.
#[derive(Debug, PartialEq)]
pub enum StopReason {
    Complete { detail: Option<StopDetail> },
    Refused { detail: Option<StopDetail> },
    Limited { detail: Option<StopDetail> },
    Cancelled { detail: Option<StopDetail> },
    Failed { error: Json, detail: Option<StopDetail> },
}

/// What a `StopReason` says.
#[verifier::ext_equal]
pub struct StopView {
    pub kind: StopKind,
    pub detail: Option<DetailView>,
    pub error: Option<JsonView>,
}

/// What a detail that may be missing says.
pub open spec fn opt_detail(d: Option<StopDetail>) -> Option<DetailView> {
    match d {
        Some(x) => Some(x@),
        None => None,
    }
}

impl View for StopReason {
    type V = StopView;

    open spec fn view(&self) -> StopView {
        match *self {
            StopReason::Complete { detail } => StopView {
                kind: StopKind::Complete,
                detail: opt_detail(detail),
                error: None,
            },
            StopReason::Refused { detail } => StopView {
                kind: StopKind::Refused,
                detail: opt_detail(detail),
                error: None,
            },
            StopReason::Limited { detail } => StopView {
                kind: StopKind::Limited,
                detail: opt_detail(detail),
                error: None,
            },
            StopReason::Cancelled { detail } => StopView {
                kind: StopKind::Cancelled,
                detail: opt_detail(detail),
                error: None,
            },
            StopReason::Failed { error, detail } => StopView {
                kind: StopKind::Failed,
                detail: opt_detail(detail),
                error: Some(error@),
            },
        }
    }
}

/// The wire name of a kind.
pub open spec fn kind_name(k: StopKind) -> Seq<char> {
    match k {
        StopKind::Complete => "complete"@,
        StopKind::Refused => "refused"@,
        StopKind::Limited => "limited"@,
        StopKind::Cancelled => "cancelled"@,
        StopKind::Failed => "failed"@,
    }
}

/// The wire form of a stop: its kind, and its detail and error where it has them.
pub open spec fn stop_json(s: StopView) -> JsonView {
    let e = json::put(Seq::empty(), "kind"@, JsonView::Text(kind_name(s.kind)));
    let e = match s.detail {
        Some(d) => json::put(e, "detail"@, detail_json(d)),
        None => e,
    };
    let e = match s.error {
        Some(j) => json::put(e, "error"@, j),
        None => e,
    };
    JsonView::Object(e)
}

/// A detail is told by its wire form.
pub proof fn law_a_detail_is_told_by_its_wire_form(a: DetailView, b: DetailView)
    requires
        detail_json(a) == detail_json(b),
    ensures
        a == b,
{
    broadcast use wire::lemma_read_put;

    reveal_strlit("code");
    reveal_strlit("message");
    reveal_strlit("data");
    assert("code"@[0] == 'c' && "message"@[0] == 'm' && "data"@[0] == 'd');
    let none = Seq::<(Seq<char>, JsonView)>::empty();
    assert(json::entry_at(none, "message"@) is None);
    assert(json::entry_at(none, "data"@) is None);
    let x = detail_json(a);
    let y = detail_json(b);
    assert(json::json_get(x, "code"@) == json::json_get(y, "code"@));
    assert(json::json_get(x, "message"@) == json::json_get(y, "message"@));
    assert(json::json_get(x, "data"@) == json::json_get(y, "data"@));
    assert(a.data =~= b.data);
}

proof fn lemma_kind_is_told_by_its_name(a: StopKind, b: StopKind)
    requires
        kind_name(a) == kind_name(b),
    ensures
        a == b,
{
    reveal_strlit("complete");
    reveal_strlit("refused");
    reveal_strlit("limited");
    reveal_strlit("cancelled");
    reveal_strlit("failed");
    assert("complete"@.len() == 8 && "refused"@.len() == 7 && "limited"@.len() == 7);
    assert("cancelled"@.len() == 9 && "failed"@.len() == 6);
    assert("refused"@[0] == 'r' && "limited"@[0] == 'l');
}

/// A stop is told by its wire form.
pub proof fn law_a_stop_is_told_by_its_wire_form(a: StopView, b: StopView)
    requires
        stop_json(a) == stop_json(b),
    ensures
        a == b,
{
    broadcast use wire::lemma_read_put;

    reveal_strlit("kind");
    reveal_strlit("detail");
    reveal_strlit("error");
    assert("kind"@[0] == 'k' && "detail"@[0] == 'd' && "error"@[0] == 'e');
    let none = Seq::<(Seq<char>, JsonView)>::empty();
    assert(json::entry_at(none, "detail"@) is None);
    assert(json::entry_at(none, "error"@) is None);
    let x = stop_json(a);
    let y = stop_json(b);
    assert(json::json_get(x, "kind"@) == json::json_get(y, "kind"@));
    assert(json::json_get(x, "detail"@) == json::json_get(y, "detail"@));
    assert(json::json_get(x, "error"@) == json::json_get(y, "error"@));
    lemma_kind_is_told_by_its_name(a.kind, b.kind);
    match (a.detail, b.detail) {
        (Some(p), Some(q)) => law_a_detail_is_told_by_its_wire_form(p, q),
        _ => {},
    }
}

impl StopReason {
    /// The turn did what was asked.
    pub fn complete() -> (r: Self)
        ensures
            r == (StopReason::Complete { detail: None }),
    {
        StopReason::Complete { detail: None }
    }

    /// The turn was cancelled.
    pub fn cancelled() -> (r: Self)
        ensures
            r == (StopReason::Cancelled { detail: None }),
    {
        StopReason::Cancelled { detail: None }
    }

    /// A considered no.
    pub fn refused(d: StopDetail) -> (r: Self)
        ensures
            r == (StopReason::Refused { detail: Some(d) }),
    {
        StopReason::Refused { detail: Some(d) }
    }

    /// A bound was hit.
    pub fn limited(d: StopDetail) -> (r: Self)
        ensures
            r == (StopReason::Limited { detail: Some(d) }),
    {
        StopReason::Limited { detail: Some(d) }
    }

    /// The turn failed with an error.
    pub fn failed(error: Json) -> (r: Self)
        ensures
            r == (StopReason::Failed { error, detail: None }),
    {
        StopReason::Failed { error, detail: None }
    }

    /// The same reason with a detail.
    pub fn with_detail(self, d: StopDetail) -> (r: Self)
        ensures
            r@ == (StopView { detail: Some(d@), ..self@ }),
    {
        match self {
            StopReason::Complete { .. } => StopReason::Complete { detail: Some(d) },
            StopReason::Refused { .. } => StopReason::Refused { detail: Some(d) },
            StopReason::Limited { .. } => StopReason::Limited { detail: Some(d) },
            StopReason::Cancelled { .. } => StopReason::Cancelled { detail: Some(d) },
            StopReason::Failed { error, .. } => StopReason::Failed { error, detail: Some(d) },
        }
    }

    /// The kind of the stop.
    pub fn kind(&self) -> (r: StopKind)
        ensures
            r == self@.kind,
    {
        match self {
            StopReason::Complete { .. } => StopKind::Complete,
            StopReason::Refused { .. } => StopKind::Refused,
            StopReason::Limited { .. } => StopKind::Limited,
            StopReason::Cancelled { .. } => StopKind::Cancelled,
            StopReason::Failed { .. } => StopKind::Failed,
        }
    }

    /// The detail, where there is one.
    pub fn detail(&self) -> (r: Option<&StopDetail>)
        ensures
            match r {
                Some(d) => self@.detail == Some(d@),
                None => self@.detail is None,
            },
    {
        match self {
            StopReason::Complete { detail } => detail.as_ref(),
            StopReason::Refused { detail } => detail.as_ref(),
            StopReason::Limited { detail } => detail.as_ref(),
            StopReason::Cancelled { detail } => detail.as_ref(),
            StopReason::Failed { detail, .. } => detail.as_ref(),
        }
    }

    /// The error, present only on a failure.
    pub fn error(&self) -> (r: Option<&Json>)
        ensures
            match r {
                Some(j) => self@.error == Some(j@),
                None => self@.error is None,
            },
            r is Some <==> self@.kind == StopKind::Failed,
    {
        match self {
            StopReason::Failed { error, .. } => Some(error),
            _ => None,
        }
    }

    /// Whether the turn did what was asked.
    pub fn is_success(&self) -> (r: bool)
        ensures
            r == (self@.kind == StopKind::Complete),
    {
        match self {
            StopReason::Complete { .. } => true,
            _ => false,
        }
    }

    /// The wire form of the stop.
    pub fn to_json(&self) -> (r: Json)
        ensures
            r@ == stop_json(self@),
    {
        let name = match self {
            StopReason::Complete { .. } => "complete",
            StopReason::Refused { .. } => "refused",
            StopReason::Limited { .. } => "limited",
            StopReason::Cancelled { .. } => "cancelled",
            StopReason::Failed { .. } => "failed",
        };
        let mut out: Vec<(String, Json)> = Vec::new();
        assert(json::entries_view(out@) =~= Seq::empty());
        put_entry(&mut out, "kind", Json::text(name));
        match self.detail() {
            Some(d) => put_entry(&mut out, "detail", d.to_json()),
            None => {},
        }
        match self.error() {
            Some(j) => put_entry(&mut out, "error", j.clone()),
            None => {},
        }
        proof {
            json::lemma_object_view(out);
        }
        Json::Object(out)
    }
}

/// A stop that is not a failure carries no error.
pub proof fn law_only_a_failure_carries_an_error(s: StopReason)
    ensures
        s@.error is Some <==> s@.kind == StopKind::Failed,
{
}

/// A schema under a name.
#[derive(Debug, PartialEq)]
pub struct SchemaRef {
    pub name: String,
    pub schema: Json,
}

/// A server-to-client callback that a method declares.
#[derive(Debug, PartialEq)]
pub struct CallbackIr {
    /// The wire name, such as `fs/read_text_file`.
    pub name: String,
    pub request: SchemaRef,
    pub response: SchemaRef,
}

impl SchemaRef {
    /// A schema under a name.
    pub fn new(name: String, schema: Json) -> (r: Self)
        ensures
            r == (SchemaRef { name, schema }),
    {
        SchemaRef { name, schema }
    }

    /// A copy.
    pub fn copy(&self) -> (r: Self)
        ensures
            r.name == self.name,
            r.schema@ == self.schema@,
    {
        SchemaRef { name: self.name.clone(), schema: self.schema.clone() }
    }
}

/// What a `CallbackIr` says.
pub struct CallbackView {
    pub name: Seq<char>,
    pub request: (Seq<char>, JsonView),
    pub response: (Seq<char>, JsonView),
}

impl View for CallbackIr {
    type V = CallbackView;

    open spec fn view(&self) -> CallbackView {
        CallbackView {
            name: self.name@,
            request: (self.request.name@, self.request.schema@),
            response: (self.response.name@, self.response.schema@),
        }
    }
}

impl CallbackIr {
    /// A callback with its two schemas.
    pub fn new(name: String, request: SchemaRef, response: SchemaRef) -> (r: Self)
        ensures
            r == (CallbackIr { name, request, response }),
    {
        CallbackIr { name, request, response }
    }

    /// A copy.
    pub fn copy(&self) -> (r: Self)
        ensures
            r@ == self@,
    {
        CallbackIr { name: self.name.clone(), request: self.request.copy(), response: self.response.copy() }
    }
}

/// What callbacks say, in order.
pub open spec fn callback_views(v: Seq<CallbackIr>) -> Seq<CallbackView> {
    Seq::new(v.len(), |i: int| v[i]@)
}

/// The wire names of callbacks, in order.
pub open spec fn callback_names(v: Seq<CallbackIr>) -> Seq<Seq<char>> {
    Seq::new(v.len(), |i: int| v[i].name@)
}

/// A copy of a list of callbacks.
pub fn copy_callbacks(v: &Vec<CallbackIr>) -> (r: Vec<CallbackIr>)
    ensures
        callback_views(r@) == callback_views(v@),
{
    let mut out: Vec<CallbackIr> = Vec::new();
    let mut i: usize = 0;
    while i < v.len()
        invariant
            i <= v.len(),
            out@.len() == i,
            forall|j: int| 0 <= j < i ==> (#[trigger] out@[j])@ == v@[j]@,
        decreases v.len() - i,
    {
        out.push(v[i].copy());
        i += 1;
    }
    assert(callback_views(out@) =~= callback_views(v@));
    out
}

/// Who may call a method.
#[derive(Debug, Clone, Copy, PartialEq, Eq, Structural)]
pub enum AuthRequirementIr {
    Public,
    Required,
}

/// A method that a service declares.
#[derive(Debug, PartialEq)]
pub struct MethodIr {
    /// The local name.
    pub name: String,
    /// The name with its namespace.
    pub dotted_id: String,
    pub description: String,
    pub auth: AuthRequirementIr,
    pub callbacks: Vec<CallbackIr>,
    pub extensions: Vec<(String, Json)>,
}

impl MethodIr {
    /// A method that only authenticated callers reach and that declares nothing else.
    pub fn new(name: String, dotted_id: String) -> (r: Self)
        ensures
            r.name == name,
            r.dotted_id == dotted_id,
            r.description@.len() == 0,
            r.auth == AuthRequirementIr::Required,
            r.callbacks@.len() == 0,
            r.extensions@.len() == 0,
    {
        MethodIr {
            name,
            dotted_id,
            description: String::new(),
            auth: AuthRequirementIr::Required,
            callbacks: Vec::new(),
            extensions: Vec::new(),
        }
    }

    /// The same method with another auth requirement.
    pub fn with_auth(self, auth: AuthRequirementIr) -> (r: Self)
        ensures
            r == (MethodIr { auth, ..self }),
    {
        MethodIr {
            name: self.name,
            dotted_id: self.dotted_id,
            description: self.description,
            auth,
            callbacks: self.callbacks,
            extensions: self.extensions,
        }
    }

    /// The same method with a description.
    pub fn with_description(self, description: String) -> (r: Self)
        ensures
            r == (MethodIr { description, ..self }),
    {
        MethodIr {
            name: self.name,
            dotted_id: self.dotted_id,
            description,
            auth: self.auth,
            callbacks: self.callbacks,
            extensions: self.extensions,
        }
    }

    /// The same method with one more callback.
    pub fn with_callback(self, callback: CallbackIr) -> (r: Self)
        ensures
            r.callbacks@ == self.callbacks@.push(callback),
            r == (MethodIr { callbacks: r.callbacks, ..self }),
    {
        let mut callbacks = self.callbacks;
        callbacks.push(callback);
        MethodIr {
            name: self.name,
            dotted_id: self.dotted_id,
            description: self.description,
            auth: self.auth,
            callbacks,
            extensions: self.extensions,
        }
    }

    /// The same method with more callbacks.
    pub fn with_callbacks(self, more: Vec<CallbackIr>) -> (r: Self)
        ensures
            r.callbacks@ == self.callbacks@ + more@,
            r == (MethodIr { callbacks: r.callbacks, ..self }),
    {
        let mut callbacks = self.callbacks;
        let mut more = more;
        callbacks.append(&mut more);
        MethodIr {
            name: self.name,
            dotted_id: self.dotted_id,
            description: self.description,
            auth: self.auth,
            callbacks,
            extensions: self.extensions,
        }
    }

    /// The same method with a value under an extension key.
    pub fn with_extension(self, key: &str, value: Json) -> (r: Self)
        ensures
            json::entries_view(r.extensions@) == json::put(json::entries_view(self.extensions@), key@, value@),
            r == (MethodIr { extensions: r.extensions, ..self }),
    {
        let mut extensions = self.extensions;
        put_entry(&mut extensions, key, value);
        MethodIr {
            name: self.name,
            dotted_id: self.dotted_id,
            description: self.description,
            auth: self.auth,
            callbacks: self.callbacks,
            extensions,
        }
    }
}

/// The position of the first method with a name, or the number of methods when there is none.
pub open spec fn method_at(methods: Seq<MethodIr>, name: Seq<char>) -> int
    decreases methods.len(),
{
    if methods.len() == 0 {
        0
    } else if methods[0].name@ == name {
        0
    } else {
        1 + method_at(methods.skip(1), name)
    }
}

/// Finds the first method with a name.
pub fn find_method(methods: &Vec<MethodIr>, name: &str) -> (r: usize)
    ensures
        r == method_at(methods@, name@),
        r <= methods@.len(),
        r < methods@.len() ==> methods@[r as int].name@ == name@,
        forall|j: int| 0 <= j < r ==> methods@[j].name@ != name@,
{
    let mut i: usize = 0;
    assert(methods@.skip(0) =~= methods@);
    while i < methods.len() && !same_text(methods[i].name.as_str(), name)
        invariant
            i <= methods.len(),
            method_at(methods@, name@) == i + method_at(methods@.skip(i as int), name@),
            forall|j: int| 0 <= j < i ==> methods@[j].name@ != name@,
        decreases methods.len() - i,
    {
        assert(methods@.skip(i as int)[0] == methods@[i as int]);
        assert(methods@.skip(i as int).skip(1) =~= methods@.skip(i + 1));
        i += 1;
    }
    proof {
        if i < methods.len() {
            assert(methods@.skip(i as int)[0] == methods@[i as int]);
        }
    }
    i
}

/// What a service declares of itself.
pub struct ActivationIr {
    pub namespace: String,
    pub version: String,
    pub description: String,
    pub long_description: Option<String>,
    pub methods: Vec<MethodIr>,
    pub children: Vec<ChildEdge>,
    /// The backend that serves the document.
    pub backend_name: Option<String>,
    /// The method through which callback responses come back.
    pub respond_method: Option<String>,
    /// The version of the form of the document.
    pub ir_version: Option<String>,
    /// How the hashes were computed.
    pub hash_algorithm: Option<String>,
    /// The hash of the document with what its root says of the backend.
    pub ir_hash: Option<String>,
    pub hash: String,
}

/// A child of a service: its whole document, its name and hash, or a template for many.
pub enum ChildEdge {
    Static { child: Box<ActivationIr> },
    Dynamic { namespace: String, hash: String, description: String },
    Indexed {
        namespace: String,
        list_method: String,
        search_method: Option<String>,
        id_field: String,
        path_template: String,
        template: Box<ActivationIr>,
        description: String,
    },
}

impl ActivationIr {
    /// A service that declares nothing yet.
    pub fn new(namespace: String, version: String) -> (r: Self)
        ensures
            r.namespace == namespace,
            r.version == version,
            r.description@.len() == 0,
            r.long_description is None,
            r.methods@.len() == 0,
            r.children@.len() == 0,
            r.backend_name is None,
            r.respond_method is None,
            r.ir_version is None,
            r.hash_algorithm is None,
            r.ir_hash is None,
            r.hash@.len() == 0,
    {
        ActivationIr {
            namespace,
            version,
            description: String::new(),
            long_description: None,
            methods: Vec::new(),
            children: Vec::new(),
            backend_name: None,
            respond_method: None,
            ir_version: None,
            hash_algorithm: None,
            ir_hash: None,
            hash: String::new(),
        }
    }

    /// The same service with one more method.
    pub fn with_method(self, method: MethodIr) -> (r: Self)
        ensures
            r.methods@ == self.methods@.push(method),
            r == (ActivationIr { methods: r.methods, ..self }),
    {
        let mut ir = self;
        ir.methods.push(method);
        ir
    }

    /// The first method with a name.
    pub fn method<'a>(&'a self, name: &str) -> (r: Option<&'a MethodIr>)
        ensures
            match r {
                Some(m) => method_at(self.methods@, name@) < self.methods@.len() && *m == self.methods@[method_at(
                    self.methods@,
                    name@,
                )] && m.name@ == name@,
                None => method_at(self.methods@, name@) == self.methods@.len(),
            },
    {
        let i = find_method(&self.methods, name);
        if i < self.methods.len() {
            Some(&self.methods[i])
        } else {
            None
        }
    }
}

/// What a `MethodIr` says.
pub struct MethodView {
    pub name: Seq<char>,
    pub dotted_id: Seq<char>,
    pub description: Seq<char>,
    pub auth: AuthRequirementIr,
    pub callbacks: Seq<CallbackView>,
    pub extensions: Seq<(Seq<char>, JsonView)>,
}

impl View for MethodIr {
    type V = MethodView;

    open spec fn view(&self) -> MethodView {
        MethodView {
            name: self.name@,
            dotted_id: self.dotted_id@,
            description: self.description@,
            auth: self.auth,
            callbacks: callback_views(self.callbacks@),
            extensions: json::entries_view(self.extensions@),
        }
    }
}

impl MethodIr {
    /// A copy.
    pub fn copy(&self) -> (r: Self)
        ensures
            r@ == self@,
    {
        MethodIr {
            name: self.name.clone(),
            dotted_id: self.dotted_id.clone(),
            description: self.description.clone(),
            auth: self.auth,
            callbacks: copy_callbacks(&self.callbacks),
            extensions: copy_entries(&self.extensions),
        }
    }
}

/// What methods say, in order.
pub open spec fn method_views(v: Seq<MethodIr>) -> Seq<MethodView> {
    Seq::new(v.len(), |i: int| v[i]@)
}

/// A copy of a list of methods.
pub fn copy_methods(v: &Vec<MethodIr>) -> (r: Vec<MethodIr>)
    ensures
        method_views(r@) == method_views(v@),
{
    let mut out: Vec<MethodIr> = Vec::new();
    let mut i: usize = 0;
    while i < v.len()
        invariant
            i <= v.len(),
            out@.len() == i,
            forall|j: int| 0 <= j < i ==> (#[trigger] out@[j])@ == v@[j]@,
        decreases v.len() - i,
    {
        out.push(v[i].copy());
        i += 1;
    }
    assert(method_views(out@) =~= method_views(v@));
    out
}

/// What an `ActivationIr` says.
#[verifier::ext_equal]
pub struct IrView {
    pub namespace: Seq<char>,
    pub version: Seq<char>,
    pub description: Seq<char>,
    pub long_description: Option<Seq<char>>,
    pub methods: Seq<MethodView>,
    pub children: Seq<EdgeView>,
    pub backend_name: Option<Seq<char>>,
    pub respond_method: Option<Seq<char>>,
    pub ir_version: Option<Seq<char>>,
    pub hash_algorithm: Option<Seq<char>>,
    pub ir_hash: Option<Seq<char>>,
    pub hash: Seq<char>,
}

/// What a `ChildEdge` says.
#[verifier::ext_equal]
pub enum EdgeView {
    Static { child: Box<IrView> },
    Dynamic { namespace: Seq<char>, hash: Seq<char>, description: Seq<char> },
    Indexed {
        namespace: Seq<char>,
        list_method: Seq<char>,
        search_method: Option<Seq<char>>,
        id_field: Seq<char>,
        path_template: Seq<char>,
        template: Box<IrView>,
        description: Seq<char>,
    },
}

/// What a document says.
pub open spec fn ir_view(d: ActivationIr) -> IrView
    decreases d,
{
    IrView {
        namespace: d.namespace@,
        version: d.version@,
        description: d.description@,
        long_description: text::opt_text(d.long_description),
        methods: method_views(d.methods@),
        children: Seq::new(
            d.children@.len(),
            |i: int|
                if 0 <= i < d.children@.len() {
                    edge_view(d.children@[i])
                } else {
                    arbitrary()
                },
        ),
        backend_name: text::opt_text(d.backend_name),
        respond_method: text::opt_text(d.respond_method),
        ir_version: text::opt_text(d.ir_version),
        hash_algorithm: text::opt_text(d.hash_algorithm),
        ir_hash: text::opt_text(d.ir_hash),
        hash: d.hash@,
    }
}

/// What an edge says.
pub open spec fn edge_view(e: ChildEdge) -> EdgeView
    decreases e,
{
    match e {
        ChildEdge::Static { child } => EdgeView::Static { child: Box::new(ir_view(*child)) },
        ChildEdge::Dynamic { namespace, hash, description } => EdgeView::Dynamic {
            namespace: namespace@,
            hash: hash@,
            description: description@,
        },
        ChildEdge::Indexed {
            namespace,
            list_method,
            search_method,
            id_field,
            path_template,
            template,
            description,
        } => EdgeView::Indexed {
            namespace: namespace@,
            list_method: list_method@,
            search_method: text::opt_text(search_method),
            id_field: id_field@,
            path_template: path_template@,
            template: Box::new(ir_view(*template)),
            description: description@,
        },
    }
}

impl View for ActivationIr {
    type V = IrView;

    open spec fn view(&self) -> IrView {
        ir_view(*self)
    }
}

impl View for ChildEdge {
    type V = EdgeView;

    open spec fn view(&self) -> EdgeView {
        edge_view(*self)
    }
}

/// What edges say, in order.
pub open spec fn edge_views(v: Seq<ChildEdge>) -> Seq<EdgeView> {
    Seq::new(v.len(), |i: int| v[i]@)
}

pub proof fn lemma_ir_children(d: ActivationIr)
    ensures
        d@.children == edge_views(d.children@),
{
    assert(d@.children =~= edge_views(d.children@));
}

impl ActivationIr {
    /// A copy.
    pub fn copy(&self) -> (r: Self)
        ensures
            r@ == self@,
        decreases self,
    {
        let mut children: Vec<ChildEdge> = Vec::new();
        let mut i: usize = 0;
        while i < self.children.len()
            invariant
                i <= self.children.len(),
                children@.len() == i,
                forall|j: int| 0 <= j < i ==> (#[trigger] children@[j])@ == self.children@[j]@,
            decreases self.children.len() - i,
        {
            proof {
                assert(decreases_to!(*self => self.children));
                assert(decreases_to!(self.children => self.children@));
                assert(decreases_to!(self.children@ => self.children@[i as int]));
            }
            let edge = self.children[i].copy();
            children.push(edge);
            i += 1;
        }
        let r = ActivationIr {
            namespace: self.namespace.clone(),
            version: self.version.clone(),
            description: self.description.clone(),
            long_description: copy_opt(&self.long_description),
            methods: copy_methods(&self.methods),
            children,
            backend_name: copy_opt(&self.backend_name),
            respond_method: copy_opt(&self.respond_method),
            ir_version: copy_opt(&self.ir_version),
            hash_algorithm: copy_opt(&self.hash_algorithm),
            ir_hash: copy_opt(&self.ir_hash),
            hash: self.hash.clone(),
        };
        proof {
            lemma_ir_children(r);
            lemma_ir_children(*self);
            assert(edge_views(r.children@) =~= edge_views(self.children@));
        }
        r
    }
}

impl ChildEdge {
    /// A copy.
    pub fn copy(&self) -> (r: Self)
        ensures
            r@ == self@,
        decreases self,
    {
        match self {
            ChildEdge::Static { child } => {
                let c = child.copy();
                ChildEdge::Static { child: Box::new(c) }
            },
            ChildEdge::Dynamic { namespace, hash, description } => ChildEdge::Dynamic {
                namespace: namespace.clone(),
                hash: hash.clone(),
                description: description.clone(),
            },
            ChildEdge::Indexed {
                namespace,
                list_method,
                search_method,
                id_field,
                path_template,
                template,
                description,
            } => {
                let t = template.copy();
                ChildEdge::Indexed {
                    namespace: namespace.clone(),
                    list_method: list_method.clone(),
                    search_method: copy_opt(search_method),
                    id_field: id_field.clone(),
                    path_template: path_template.clone(),
                    template: Box::new(t),
                    description: description.clone(),
                }
            },
        }
    }
}

/// The texts by which a method enters the hash of its document.
pub open spec fn method_parts(m: MethodView) -> Seq<Seq<char>> {
    seq![m.name, m.dotted_id, m.description]
}

/// The version of the form of documents that this library writes.
pub const IR_VERSION: &'static str = "1";

/// The name under which documents say how their hashes were computed. The digest behind it is
/// the library's own: `own_hash` and `document_hash` say what enters it, and
/// [`digest`](crate::digest::digest) how it is taken. A hash under the same name that was
/// computed elsewhere need not be comparable with it.
pub const HASH_ALGORITHM: &'static str = "CONNECTOME-HASH/1";

/// The text by which an edge enters the hash of its document: the child's name and hash,
/// digested.
pub open spec fn edge_part(e: EdgeView) -> Seq<char> {
    match e {
        EdgeView::Static { child } => digest::digest(seq![child.namespace, child.hash]),
        EdgeView::Dynamic { namespace, hash, .. } => digest::digest(seq![namespace, hash]),
        EdgeView::Indexed { namespace, template, .. } => digest::digest(seq![namespace, template.hash]),
    }
}

/// The texts by which edges enter the hash of their document, in the edges' order.
pub open spec fn edge_parts(es: Seq<EdgeView>) -> Seq<Seq<char>> {
    es.map_values(|e: EdgeView| edge_part(e))
}

/// The texts by which methods enter the hash of their document.
pub open spec fn methods_parts(ms: Seq<MethodView>) -> Seq<Seq<char>>
    decreases ms.len(),
{
    if ms.len() == 0 {
        Seq::empty()
    } else {
        methods_parts(ms.drop_last()) + method_parts(ms.last())
    }
}

/// The hash of a node whose children have theirs. The edges enter as a set; what a root says
/// of its backend does not enter.
pub open spec fn own_hash(d: IrView) -> Seq<char> {
    digest::digest(
        seq![d.namespace, d.version, d.description] + methods_parts(d.methods) + text::in_order(edge_parts(d.children)),
    )
}

/// The node with its hash and those of the nodes within it computed from the inside out, as
/// it stands in another document: without what only a root says.
pub open spec fn folded(d: IrView) -> IrView
    decreases d,
{
    let e = IrView {
        children: Seq::new(
            d.children.len(),
            |i: int|
                if 0 <= i < d.children.len() {
                    folded_edge(d.children[i])
                } else {
                    arbitrary()
                },
        ),
        backend_name: None,
        respond_method: None,
        ir_version: None,
        hash_algorithm: None,
        ir_hash: None,
        ..d
    };
    IrView { hash: own_hash(e), ..e }
}

/// The edge with the hashes of the nodes within it computed. What a lazy edge advertises
/// stays as it is.
pub open spec fn folded_edge(e: EdgeView) -> EdgeView
    decreases e,
{
    match e {
        EdgeView::Static { child } => EdgeView::Static { child: Box::new(folded(*child)) },
        EdgeView::Dynamic { namespace, hash, description } => EdgeView::Dynamic { namespace, hash, description },
        EdgeView::Indexed {
            namespace,
            list_method,
            search_method,
            id_field,
            path_template,
            template,
            description,
        } => EdgeView::Indexed {
            namespace,
            list_method,
            search_method,
            id_field,
            path_template,
            template: Box::new(folded(*template)),
            description,
        },
    }
}

/// The texts of a fact that a root may leave unsaid.
pub open spec fn fact_parts(fact: Option<Seq<char>>) -> Seq<Seq<char>> {
    match fact {
        Some(f) => seq!["1"@, f],
        None => seq!["0"@],
    }
}

/// The hash of a document: its node's hash and what the root says of the backend.
pub open spec fn document_hash(hash: Seq<char>, backend_name: Option<Seq<char>>, respond_method: Option<Seq<char>>) -> Seq<char> {
    digest::digest(seq![HASH_ALGORITHM@, hash] + fact_parts(backend_name) + fact_parts(respond_method))
}

/// The document with all its hashes computed.
pub open spec fn rehashed(d: IrView) -> IrView {
    let node = folded(d);
    IrView {
        backend_name: d.backend_name,
        respond_method: d.respond_method,
        ir_version: Some(IR_VERSION@),
        hash_algorithm: Some(HASH_ALGORITHM@),
        ir_hash: Some(document_hash(node.hash, d.backend_name, d.respond_method)),
        ..node
    }
}

/// Folding a node again changes nothing.
pub proof fn law_folding_is_stable(d: IrView)
    ensures
        folded(folded(d)) == folded(d),
    decreases d,
{
    let once = folded(d);
    let twice = folded(once);
    assert forall|i: int| 0 <= i < d.children.len() implies #[trigger] folded_edge(folded_edge(d.children[i]))
        == folded_edge(d.children[i]) by {
        law_folding_an_edge_is_stable(d.children[i]);
    }
    assert(twice.children =~= once.children) by {
        assert forall|i: int| 0 <= i < once.children.len() implies twice.children[i] == once.children[i] by {
            assert(once.children[i] == folded_edge(d.children[i]));
            assert(twice.children[i] == folded_edge(once.children[i]));
            assert(folded_edge(folded_edge(d.children[i])) == folded_edge(d.children[i]));
        }
    }
}

/// Folding an edge again changes nothing.
pub proof fn law_folding_an_edge_is_stable(e: EdgeView)
    ensures
        folded_edge(folded_edge(e)) == folded_edge(e),
    decreases e,
{
    match e {
        EdgeView::Static { child } => {
            law_folding_is_stable(*child);
        },
        EdgeView::Dynamic { .. } => {},
        EdgeView::Indexed { template, .. } => {
            law_folding_is_stable(*template);
        },
    }
}

proof fn lemma_folding_forgets(d: IrView, e: IrView)
    requires
        d.namespace == e.namespace,
        d.version == e.version,
        d.description == e.description,
        d.long_description == e.long_description,
        d.methods == e.methods,
        d.children == e.children,
    ensures
        folded(d) == folded(e),
{
    assert(folded(d).children =~= folded(e).children);
}

/// Computing the hashes of a document again changes nothing.
pub proof fn law_rehashing_is_stable(d: IrView)
    ensures
        rehashed(rehashed(d)) == rehashed(d),
{
    law_folding_is_stable(d);
    lemma_folding_forgets(rehashed(d), folded(d));
}

/// What a root says of its backend moves the hash of the document only: the hash of the
/// node, and everything within it, stays.
pub proof fn law_root_facts_leave_the_node_alone(
    d: IrView,
    backend_name: Option<Seq<char>>,
    respond_method: Option<Seq<char>>,
)
    ensures
        rehashed(IrView { backend_name, respond_method, ..d }).hash == rehashed(d).hash,
        rehashed(IrView { backend_name, respond_method, ..d }).children == rehashed(d).children,
        rehashed(IrView { backend_name, respond_method, ..d }).methods == rehashed(d).methods,
{
    lemma_folding_forgets(IrView { backend_name, respond_method, ..d }, d);
}

/// A node has the same hash embedded in another document and served as one of its own.
pub proof fn law_a_served_node_keeps_its_hash(d: IrView)
    ensures
        rehashed(folded(d)).hash == folded(d).hash,
        rehashed(d).hash == folded(d).hash,
{
    law_folding_is_stable(d);
}

/// Whether a node and all within it leave unsaid what only a root says.
pub open spec fn says_no_root_fact(d: IrView) -> bool
    decreases d,
{
    &&& d.backend_name is None
    &&& d.respond_method is None
    &&& d.ir_version is None
    &&& d.hash_algorithm is None
    &&& d.ir_hash is None
    &&& forall|i: int| 0 <= i < d.children.len() ==> edge_says_no_root_fact(#[trigger] d.children[i])
}

/// Whether the nodes within an edge leave unsaid what only a root says.
pub open spec fn edge_says_no_root_fact(e: EdgeView) -> bool
    decreases e,
{
    match e {
        EdgeView::Static { child } => says_no_root_fact(*child),
        EdgeView::Dynamic { .. } => true,
        EdgeView::Indexed { template, .. } => says_no_root_fact(*template),
    }
}

/// Whatever was declared on a node, it says nothing below a root that only a root says.
pub proof fn law_no_root_fact_below_the_root(d: IrView)
    ensures
        says_no_root_fact(folded(d)),
    decreases d,
{
    assert forall|i: int| 0 <= i < folded(d).children.len() implies edge_says_no_root_fact(
        #[trigger] folded(d).children[i],
    ) by {
        assert(folded(d).children[i] == folded_edge(d.children[i]));
        match d.children[i] {
            EdgeView::Static { child } => {
                assert(decreases_to!(d => d.children));
                assert(decreases_to!(d.children => d.children[i]));
                law_no_root_fact_below_the_root(*child);
            },
            EdgeView::Dynamic { .. } => {},
            EdgeView::Indexed { template, .. } => {
                assert(decreases_to!(d => d.children));
                assert(decreases_to!(d.children => d.children[i]));
                law_no_root_fact_below_the_root(*template);
            },
        }
    }
}

/// The order in which children were declared does not show in a hash.
pub proof fn law_child_order_does_not_show(a: IrView, b: IrView)
    requires
        a.children.to_multiset() == b.children.to_multiset(),
        b == (IrView { children: b.children, ..a }),
    ensures
        rehashed(a).hash == rehashed(b).hash,
        rehashed(a).ir_hash == rehashed(b).ir_hash,
{
    let f = |e: EdgeView| folded_edge(e);
    let g = |e: EdgeView| edge_part(e);
    let fa = folded(a).children;
    let fb = folded(b).children;
    assert(fa =~= a.children.map_values(f));
    assert(fb =~= b.children.map_values(f));
    text::lemma_map_keeps_multisets(a.children, b.children, f);
    text::lemma_map_keeps_multisets(fa, fb, g);
    text::lemma_in_order_follows_multiset(edge_parts(fa), edge_parts(fb));
    assert(own_hash(folded(a)) == own_hash(folded(b)));
}

fn push_method_parts(parts: &mut Vec<String>, methods: &Vec<MethodIr>)
    ensures
        text::texts(final(parts)@) == text::texts(old(parts)@) + methods_parts(method_views(methods@)),
{
    let ghost all = method_views(methods@);
    let ghost start = text::texts(parts@);
    assert(all.take(0) =~= Seq::empty());
    assert(start + methods_parts(all.take(0)) =~= start);
    let mut i: usize = 0;
    while i < methods.len()
        invariant
            all == method_views(methods@),
            i <= methods.len(),
            text::texts(parts@) == start + methods_parts(all.take(i as int)),
        decreases methods.len() - i,
    {
        let ghost before = text::texts(parts@);
        proof {
            assert(all.take(i + 1).drop_last() =~= all.take(i as int));
            assert(all.take(i + 1).last() == all[i as int]);
        }
        parts.push(methods[i].name.clone());
        parts.push(methods[i].dotted_id.clone());
        parts.push(methods[i].description.clone());
        proof {
            assert(text::texts(parts@) =~= before + method_parts(all[i as int]));
            assert(text::texts(parts@) =~= start + methods_parts(all.take(i + 1)));
        }
        i += 1;
    }
    assert(all.take(all.len() as int) =~= all);
}

fn part_of_edge(edge: &ChildEdge) -> (r: String)
    ensures
        r@ == edge_part(edge@),
{
    let mut parts: Vec<String> = Vec::new();
    match edge {
        ChildEdge::Static { child } => {
            parts.push(child.namespace.clone());
            parts.push(child.hash.clone());
            assert(text::texts(parts@) =~= seq![child@.namespace, child@.hash]);
        },
        ChildEdge::Dynamic { namespace, hash, .. } => {
            parts.push(namespace.clone());
            parts.push(hash.clone());
            assert(text::texts(parts@) =~= seq![namespace@, hash@]);
        },
        ChildEdge::Indexed { namespace, template, .. } => {
            parts.push(namespace.clone());
            parts.push(template.hash.clone());
            assert(text::texts(parts@) =~= seq![namespace@, template@.hash]);
        },
    }
    digest_texts(&parts)
}

fn parts_of_edges(edges: &Vec<ChildEdge>) -> (r: Vec<String>)
    ensures
        text::texts(r@) == text::in_order(edge_parts(edge_views(edges@))),
{
    let mut parts: Vec<String> = Vec::new();
    let mut i: usize = 0;
    while i < edges.len()
        invariant
            i <= edges.len(),
            parts@.len() == i,
            forall|j: int| 0 <= j < i ==> (#[trigger] parts@[j])@ == edge_part(edges@[j]@),
        decreases edges.len() - i,
    {
        parts.push(part_of_edge(&edges[i]));
        i += 1;
    }
    assert(text::texts(parts@) =~= edge_parts(edge_views(edges@)));
    let r = sort_texts(&parts);
    proof {
        text::lemma_in_order_is(text::texts(parts@), text::texts(r@));
    }
    r
}

fn push_fact(parts: &mut Vec<String>, fact: &Option<String>)
    ensures
        text::texts(final(parts)@) == text::texts(old(parts)@) + fact_parts(text::opt_text(*fact)),
{
    let ghost before = text::texts(parts@);
    match fact {
        Some(f) => {
            parts.push("1".to_owned());
            parts.push(f.clone());
        },
        None => {
            parts.push("0".to_owned());
        },
    }
    assert(text::texts(parts@) =~= before + fact_parts(text::opt_text(*fact)));
}

impl ActivationIr {
    /// The node with all its hashes computed, as it stands in another document.
    pub fn folded_node(&self) -> (r: Self)
        ensures
            r@ == folded(self@),
        decreases self,
    {
        let mut children: Vec<ChildEdge> = Vec::new();
        let mut i: usize = 0;
        while i < self.children.len()
            invariant
                i <= self.children.len(),
                children@.len() == i,
                forall|j: int| 0 <= j < i ==> (#[trigger] children@[j])@ == folded_edge(self.children@[j]@),
            decreases self.children.len() - i,
        {
            proof {
                assert(decreases_to!(*self => self.children));
                assert(decreases_to!(self.children => self.children@));
                assert(decreases_to!(self.children@ => self.children@[i as int]));
            }
            let edge = self.children[i].recompute_hashes();
            children.push(edge);
            i += 1;
        }
        let mut parts: Vec<String> = Vec::new();
        parts.push(self.namespace.clone());
        parts.push(self.version.clone());
        parts.push(self.description.clone());
        assert(text::texts(parts@) =~= seq![self.namespace@, self.version@, self.description@]);
        push_method_parts(&mut parts, &self.methods);
        let ghost before = text::texts(parts@);
        let mut edges = parts_of_edges(&children);
        let ghost added = text::texts(edges@);
        parts.append(&mut edges);
        assert(text::texts(parts@) =~= before + added);
        let hash = digest_texts(&parts);
        let r = ActivationIr {
            namespace: self.namespace.clone(),
            version: self.version.clone(),
            description: self.description.clone(),
            long_description: copy_opt(&self.long_description),
            methods: copy_methods(&self.methods),
            children,
            backend_name: None,
            respond_method: None,
            ir_version: None,
            hash_algorithm: None,
            ir_hash: None,
            hash,
        };
        proof {
            lemma_ir_children(r);
            lemma_ir_children(*self);
            assert(r@.children =~= folded(self@).children) by {
                assert forall|j: int| 0 <= j < r@.children.len() implies r@.children[j] == folded(self@).children[j] by {
                    assert(r@.children[j] == r.children@[j]@);
                    assert(self@.children[j] == self.children@[j]@);
                }
            }
        }
        r
    }

    /// The document with all its hashes computed, and the facts of a root on it.
    pub fn recompute_hashes(&self) -> (r: Self)
        ensures
            r@ == rehashed(self@),
    {
        let node = self.folded_node();
        let mut parts: Vec<String> = Vec::new();
        parts.push(HASH_ALGORITHM.to_owned());
        parts.push(node.hash.clone());
        assert(text::texts(parts@) =~= seq![HASH_ALGORITHM@, node@.hash]);
        push_fact(&mut parts, &self.backend_name);
        push_fact(&mut parts, &self.respond_method);
        let ir_hash = digest_texts(&parts);
        let r = ActivationIr {
            namespace: node.namespace,
            version: node.version,
            description: node.description,
            long_description: node.long_description,
            methods: node.methods,
            children: node.children,
            backend_name: copy_opt(&self.backend_name),
            respond_method: copy_opt(&self.respond_method),
            ir_version: Some(IR_VERSION.to_owned()),
            hash_algorithm: Some(HASH_ALGORITHM.to_owned()),
            ir_hash: Some(ir_hash),
            hash: node.hash,
        };
        proof {
            lemma_ir_children(r);
            lemma_ir_children(node);
        }
        r
    }

    /// The same service with a description.
    pub fn with_description(self, description: String) -> (r: Self)
        ensures
            r == (ActivationIr { description, ..self }),
    {
        let mut d = self;
        d.description = description;
        d
    }

    /// The same service served by a named backend.
    pub fn with_backend_name(self, name: String) -> (r: Self)
        ensures
            r == (ActivationIr { backend_name: Some(name), ..self }),
    {
        let mut d = self;
        d.backend_name = Some(name);
        d
    }

    /// The same service with the method through which callback responses come back.
    pub fn with_respond_method(self, method: String) -> (r: Self)
        ensures
            r == (ActivationIr { respond_method: Some(method), ..self }),
    {
        let mut d = self;
        d.respond_method = Some(method);
        d
    }

    /// The same service with one more child.
    pub fn with_child(self, edge: ChildEdge) -> (r: Self)
        ensures
            r.children@ == self.children@.push(edge),
            r == (ActivationIr { children: r.children, ..self }),
    {
        let mut d = self;
        d.children.push(edge);
        d
    }

    /// The first edge to a child with a name.
    pub fn child<'a>(&'a self, name: &str) -> (r: Option<&'a ChildEdge>)
        ensures
            match r {
                Some(e) => first_edge(self@.children, name@) == Some(e@) && self.children@.contains(*e),
                None => first_edge(self@.children, name@) is None,
            },
    {
        proof {
            lemma_ir_children(*self);
            assert(self@.children.skip(0) =~= self@.children);
        }
        let mut i: usize = 0;
        while i < self.children.len()
            invariant
                i <= self.children.len(),
                self@.children == edge_views(self.children@),
                first_edge(self@.children, name@) == first_edge(self@.children.skip(i as int), name@),
            decreases self.children.len() - i,
        {
            proof {
                assert(self@.children.skip(i as int)[0] == self.children@[i as int]@);
                assert(self@.children.skip(i as int).skip(1) =~= self@.children.skip(i + 1));
            }
            if same_text(self.children[i].name(), name) {
                return Some(&self.children[i]);
            }
            i += 1;
        }
        None
    }
}

/// The name of the child that an edge leads to.
pub open spec fn edge_name(e: EdgeView) -> Seq<char> {
    match e {
        EdgeView::Static { child } => child.namespace,
        EdgeView::Dynamic { namespace, .. } => namespace,
        EdgeView::Indexed { namespace, .. } => namespace,
    }
}

/// The document that an edge carries: none when it is lazy.
pub open spec fn edge_document(e: EdgeView) -> Option<IrView> {
    match e {
        EdgeView::Static { child } => Some(*child),
        EdgeView::Dynamic { .. } => None,
        EdgeView::Indexed { template, .. } => Some(*template),
    }
}

/// The first edge to a child with a name.
pub open spec fn first_edge(es: Seq<EdgeView>, name: Seq<char>) -> Option<EdgeView>
    decreases es.len(),
{
    if es.len() == 0 {
        None
    } else if edge_name(es[0]) == name {
        Some(es[0])
    } else {
        first_edge(es.skip(1), name)
    }
}

impl ChildEdge {
    /// An edge that carries a whole document.
    pub fn embedded(child: ActivationIr) -> (r: Self)
        ensures
            r == (ChildEdge::Static { child: Box::new(child) }),
    {
        ChildEdge::Static { child: Box::new(child) }
    }

    /// An edge that carries a name and a hash.
    pub fn lazy(namespace: String, hash: String, description: String) -> (r: Self)
        ensures
            r == (ChildEdge::Dynamic { namespace, hash, description }),
    {
        ChildEdge::Dynamic { namespace, hash, description }
    }

    /// The name of the child that the edge leads to.
    pub fn name(&self) -> (r: &str)
        ensures
            r@ == edge_name(self@),
    {
        match self {
            ChildEdge::Static { child } => child.namespace.as_str(),
            ChildEdge::Dynamic { namespace, .. } => namespace.as_str(),
            ChildEdge::Indexed { namespace, .. } => namespace.as_str(),
        }
    }

    /// The document that the edge carries.
    pub fn child(&self) -> (r: Option<&ActivationIr>)
        ensures
            match r {
                Some(d) => edge_document(self@) == Some(d@),
                None => edge_document(self@) is None,
            },
    {
        match self {
            ChildEdge::Static { child } => Some(&**child),
            ChildEdge::Dynamic { .. } => None,
            ChildEdge::Indexed { template, .. } => Some(&**template),
        }
    }

    /// The edge with all the hashes within it computed.
    pub fn recompute_hashes(&self) -> (r: Self)
        ensures
            r@ == folded_edge(self@),
        decreases self,
    {
        match self {
            ChildEdge::Static { child } => {
                let c = child.folded_node();
                ChildEdge::Static { child: Box::new(c) }
            },
            ChildEdge::Dynamic { .. } => self.copy(),
            ChildEdge::Indexed {
                namespace,
                list_method,
                search_method,
                id_field,
                path_template,
                template,
                description,
            } => {
                let t = template.folded_node();
                ChildEdge::Indexed {
                    namespace: namespace.clone(),
                    list_method: list_method.clone(),
                    search_method: copy_opt(search_method),
                    id_field: id_field.clone(),
                    path_template: path_template.clone(),
                    template: Box::new(t),
                    description: description.clone(),
                }
            },
        }
    }
}

/// A method is found under its name: the first that has it, and none where none has it.
pub proof fn law_the_first_of_a_name_is_found(methods: Seq<MethodIr>, name: Seq<char>)
    ensures
        0 <= method_at(methods, name) <= methods.len(),
        method_at(methods, name) < methods.len() ==> methods[method_at(methods, name)].name@ == name,
        forall|j: int| 0 <= j < method_at(methods, name) ==> (#[trigger] methods[j]).name@ != name,
    decreases methods.len(),
{
    if methods.len() > 0 && methods[0].name@ != name {
        let rest = methods.skip(1);
        law_the_first_of_a_name_is_found(rest, name);
        assert forall|j: int| 0 <= j < method_at(methods, name) implies (#[trigger] methods[j]).name@ != name by {
            if j > 0 {
                assert(rest[j - 1] == methods[j]);
            }
        }
        if method_at(methods, name) < methods.len() {
            assert(rest[method_at(rest, name)] == methods[method_at(methods, name)]);
        }
    }
}

/// Folding keeps what a node declares: its names and texts, its methods, and its children in their
/// places, each under its name. What a lazy edge advertises stays, every embedded node is folded
/// itself, and the hash of the node is that of what it then holds.
pub proof fn law_folding_keeps_what_is_declared(d: IrView)
    ensures
        folded(d).namespace == d.namespace,
        folded(d).version == d.version,
        folded(d).description == d.description,
        folded(d).long_description == d.long_description,
        folded(d).methods == d.methods,
        folded(d).children.len() == d.children.len(),
        forall|i: int|
            0 <= i < d.children.len() ==> match #[trigger] d.children[i] {
                EdgeView::Static { child } => folded(d).children[i] == (EdgeView::Static {
                    child: Box::new(folded(*child)),
                }),
                EdgeView::Dynamic { .. } => folded(d).children[i] == d.children[i],
                EdgeView::Indexed {
                    namespace,
                    list_method,
                    search_method,
                    id_field,
                    path_template,
                    template,
                    description,
                } => folded(d).children[i] == (EdgeView::Indexed {
                    namespace,
                    list_method,
                    search_method,
                    id_field,
                    path_template,
                    template: Box::new(folded(*template)),
                    description,
                }),
            },
        folded(d).hash == own_hash(folded(d)),
{
    assert forall|i: int| 0 <= i < d.children.len() implies match #[trigger] d.children[i] {
        EdgeView::Static { child } => folded(d).children[i] == (EdgeView::Static { child: Box::new(folded(*child)) }),
        EdgeView::Dynamic { .. } => folded(d).children[i] == d.children[i],
        EdgeView::Indexed { namespace, list_method, search_method, id_field, path_template, template, description } =>
        folded(d).children[i] == (EdgeView::Indexed {
            namespace,
            list_method,
            search_method,
            id_field,
            path_template,
            template: Box::new(folded(*template)),
            description,
        }),
    } by {
        assert(folded(d).children[i] == folded_edge(d.children[i]));
    }
}

/// Computing the hashes of a document changes nothing but hashes: it keeps what the document
/// declares, and what its root says of the backend.
pub proof fn law_rehashing_keeps_what_is_declared(d: IrView)
    ensures
        rehashed(d).namespace == d.namespace,
        rehashed(d).version == d.version,
        rehashed(d).description == d.description,
        rehashed(d).long_description == d.long_description,
        rehashed(d).methods == d.methods,
        rehashed(d).children == folded(d).children,
        rehashed(d).backend_name == d.backend_name,
        rehashed(d).respond_method == d.respond_method,
        rehashed(d).hash == own_hash(rehashed(d)),
{
    law_folding_keeps_what_is_declared(d);
    assert(own_hash(rehashed(d)) == own_hash(folded(d)));
}

/// What methods enter a hash by: three texts each, its name, its name with the namespace and its
/// description, one method after the other.
pub proof fn law_each_method_enters_by_three_texts(ms: Seq<MethodView>)
    ensures
        methods_parts(ms).len() == 3 * ms.len(),
        forall|i: int|
            0 <= i < ms.len() ==> {
                &&& methods_parts(ms)[3 * i] == (#[trigger] ms[i]).name
                &&& methods_parts(ms)[3 * i + 1] == ms[i].dotted_id
                &&& methods_parts(ms)[3 * i + 2] == ms[i].description
            },
    decreases ms.len(),
{
    if ms.len() > 0 {
        let rest = ms.drop_last();
        law_each_method_enters_by_three_texts(rest);
        assert forall|i: int| 0 <= i < ms.len() implies {
            &&& methods_parts(ms)[3 * i] == (#[trigger] ms[i]).name
            &&& methods_parts(ms)[3 * i + 1] == ms[i].dotted_id
            &&& methods_parts(ms)[3 * i + 2] == ms[i].description
        } by {
            if i < rest.len() {
                assert(rest[i] == ms[i]);
                assert(3 * i + 2 < methods_parts(rest).len());
            }
        }
    }
}

/// What is hashed of a node.
spec fn node_parts(d: IrView) -> Seq<Seq<char>> {
    seq![d.namespace, d.version, d.description] + methods_parts(d.methods) + text::in_order(edge_parts(d.children))
}

/// A change of a node shows in what is hashed of it. Two nodes have the same hash exactly where the
/// hasher ends alike on the two; and the same is hashed of two nodes with equally many methods
/// only where they have the same namespace, version and description, the same names and
/// descriptions of their methods, and the same digests of their children, up to order.
pub proof fn law_a_change_of_a_node_is_hashed(a: IrView, b: IrView) -> (r: (Seq<Seq<char>>, Seq<Seq<char>>))
    ensures
        own_hash(a) == digest::digest(r.0),
        own_hash(b) == digest::digest(r.1),
        own_hash(a) == own_hash(b) <==> DefaultHasher::spec_finish(digest::hashed(r.0)) == DefaultHasher::spec_finish(
            digest::hashed(r.1),
        ),
        digest::hashed(r.0) == digest::hashed(r.1) ==> {
            &&& a.namespace == b.namespace
            &&& a.version == b.version
            &&& a.description == b.description
        },
        digest::hashed(r.0) == digest::hashed(r.1) && a.methods.len() == b.methods.len() ==> {
            &&& forall|i: int|
                0 <= i < a.methods.len() ==> (#[trigger] a.methods[i]).name == b.methods[i].name && a.methods[i].dotted_id
                    == b.methods[i].dotted_id && a.methods[i].description == b.methods[i].description
            &&& a.children.map_values(|e: EdgeView| edge_part(e)).to_multiset() == b.children.map_values(
                |e: EdgeView| edge_part(e),
            ).to_multiset()
        },
{
    let p = node_parts(a);
    let q = node_parts(b);
    digest::law_a_digest_is_told_by_the_hasher(p, q);
    if digest::hashed(p) == digest::hashed(q) {
        digest::law_what_is_hashed_tells_the_texts(p, q);
        assert(p[0] == a.namespace && p[1] == a.version && p[2] == a.description);
        assert(q[0] == b.namespace && q[1] == b.version && q[2] == b.description);
        if a.methods.len() == b.methods.len() {
            law_each_method_enters_by_three_texts(a.methods);
            law_each_method_enters_by_three_texts(b.methods);
            let n = 3 * a.methods.len() as int;
            assert(p.subrange(3, 3 + n) =~= methods_parts(a.methods));
            assert(q.subrange(3, 3 + n) =~= methods_parts(b.methods));
            assert forall|i: int| 0 <= i < a.methods.len() implies (#[trigger] a.methods[i]).name == b.methods[i].name
                && a.methods[i].dotted_id == b.methods[i].dotted_id && a.methods[i].description
                == b.methods[i].description by {
                assert(methods_parts(a.methods)[3 * i] == methods_parts(b.methods)[3 * i]);
            }
            assert(p.skip(3 + n) =~= text::in_order(edge_parts(a.children)));
            assert(q.skip(3 + n) =~= text::in_order(edge_parts(b.children)));
            text::lemma_in_order_exists(edge_parts(a.children));
            text::lemma_in_order_exists(edge_parts(b.children));
        }
    }
    (p, q)
}

/// A child enters the hash of its parent by its name and its own hash, whatever kind of edge leads
/// to it, so that a change below shows above.
pub proof fn law_a_child_enters_by_its_name_and_hash(
    child: IrView,
    namespace: Seq<char>,
    hash: Seq<char>,
    description: Seq<char>,
)
    ensures
        edge_part(EdgeView::Static { child: Box::new(child) }) == digest::digest(seq![child.namespace, child.hash]),
        edge_part(EdgeView::Dynamic { namespace, hash, description }) == digest::digest(seq![namespace, hash]),
        forall|list_method: Seq<char>, search_method: Option<Seq<char>>, id_field: Seq<char>, path_template: Seq<char>|
            edge_part(
                #[trigger] indexed_edge(
                    namespace,
                    list_method,
                    search_method,
                    id_field,
                    path_template,
                    child,
                    description,
                ),
            ) == digest::digest(seq![namespace, child.hash]),
{
}

/// An edge to many children that follow a template.
pub open spec fn indexed_edge(
    namespace: Seq<char>,
    list_method: Seq<char>,
    search_method: Option<Seq<char>>,
    id_field: Seq<char>,
    path_template: Seq<char>,
    template: IrView,
    description: Seq<char>,
) -> EdgeView {
    EdgeView::Indexed {
        namespace,
        list_method,
        search_method,
        id_field,
        path_template,
        template: Box::new(template),
        description,
    }
}

/// What is hashed of a document.
spec fn document_parts(hash: Seq<char>, backend_name: Option<Seq<char>>, respond_method: Option<Seq<char>>) -> Seq<
    Seq<char>,
> {
    seq![HASH_ALGORITHM@, hash] + fact_parts(backend_name) + fact_parts(respond_method)
}

/// A change of what a root says shows in what is hashed of the document. Two documents have the
/// same hash exactly where the hasher ends alike on the two, and the same is hashed of them only
/// where their nodes have the same hash and their roots say the same of the backend.
pub proof fn law_a_change_of_a_root_is_hashed(
    hash: Seq<char>,
    backend_name: Option<Seq<char>>,
    respond_method: Option<Seq<char>>,
    other_hash: Seq<char>,
    other_name: Option<Seq<char>>,
    other_method: Option<Seq<char>>,
) -> (r: (Seq<Seq<char>>, Seq<Seq<char>>))
    ensures
        document_hash(hash, backend_name, respond_method) == digest::digest(r.0),
        document_hash(other_hash, other_name, other_method) == digest::digest(r.1),
        document_hash(hash, backend_name, respond_method) == document_hash(other_hash, other_name, other_method)
            <==> DefaultHasher::spec_finish(digest::hashed(r.0)) == DefaultHasher::spec_finish(digest::hashed(r.1)),
        digest::hashed(r.0) == digest::hashed(r.1) ==> hash == other_hash && backend_name == other_name
            && respond_method == other_method,
{
    let p = document_parts(hash, backend_name, respond_method);
    let q = document_parts(other_hash, other_name, other_method);
    digest::law_a_digest_is_told_by_the_hasher(p, q);
    if digest::hashed(p) == digest::hashed(q) {
        digest::law_what_is_hashed_tells_the_texts(p, q);
        reveal_strlit("0");
        reveal_strlit("1");
        assert("0"@[0] == '0' && "1"@[0] == '1');
        assert(p[1] == hash && q[1] == other_hash);
        assert(p[2] == fact_parts(backend_name)[0] && q[2] == fact_parts(other_name)[0]);
        let n = 2 + fact_parts(backend_name).len() as int;
        assert(fact_parts(backend_name).len() == fact_parts(other_name).len());
        if backend_name is Some {
            assert(p[3] == backend_name->0 && q[3] == other_name->0);
        }
        assert(p[n] == fact_parts(respond_method)[0] && q[n] == fact_parts(other_method)[0]);
        if respond_method is Some {
            assert(p[n + 1] == respond_method->0 && q[n + 1] == other_method->0);
        }
    }
    (p, q)
}

/// A child is found under its name: the first that has it, and none where none has it. What an edge
/// carries is the document that was embedded, or the template; a lazy edge carries none.
pub proof fn law_the_first_child_of_a_name_is_found(es: Seq<EdgeView>, name: Seq<char>, i: int)
    requires
        0 <= i <= es.len(),
        forall|j: int| 0 <= j < i ==> edge_name(#[trigger] es[j]) != name,
        i < es.len() ==> edge_name(es[i]) == name,
    ensures
        i < es.len() ==> first_edge(es, name) == Some(es[i]),
        i == es.len() ==> first_edge(es, name) is None,
    decreases es.len(),
{
    if es.len() > 0 && i > 0 {
        let rest = es.skip(1);
        assert(edge_name(es[0]) != name);
        assert forall|j: int| 0 <= j < i - 1 implies edge_name(#[trigger] rest[j]) != name by {
            assert(rest[j] == es[j + 1]);
        }
        if i < es.len() {
            assert(rest[i - 1] == es[i]);
        }
        law_the_first_child_of_a_name_is_found(rest, name, i - 1);
    }
}

/// An edge leads to the child that it names, and carries that child's document where it carries
/// any.
pub proof fn law_an_edge_carries_its_child(
    child: IrView,
    namespace: Seq<char>,
    hash: Seq<char>,
    description: Seq<char>,
)
    ensures
        edge_name(EdgeView::Static { child: Box::new(child) }) == child.namespace,
        edge_document(EdgeView::Static { child: Box::new(child) }) == Some(child),
        edge_name(EdgeView::Dynamic { namespace, hash, description }) == namespace,
        edge_document(EdgeView::Dynamic { namespace, hash, description }) is None,
        forall|list_method: Seq<char>, search_method: Option<Seq<char>>, id_field: Seq<char>, path_template: Seq<char>|
            {
                let e = #[trigger] indexed_edge(
                    namespace,
                    list_method,
                    search_method,
                    id_field,
                    path_template,
                    child,
                    description,
                );
                edge_name(e) == namespace && edge_document(e) == Some(child)
            },
{
}

/// A document says what its fields hold, and so does each of its methods and their callbacks.
pub proof fn law_a_document_says_what_it_holds(d: ActivationIr)
    ensures
        d@.namespace == d.namespace@,
        d@.version == d.version@,
        d@.description == d.description@,
        d@.long_description == text::opt_text(d.long_description),
        d@.backend_name == text::opt_text(d.backend_name),
        d@.respond_method == text::opt_text(d.respond_method),
        d@.ir_version == text::opt_text(d.ir_version),
        d@.hash_algorithm == text::opt_text(d.hash_algorithm),
        d@.ir_hash == text::opt_text(d.ir_hash),
        d@.hash == d.hash@,
        d@.methods.len() == d.methods@.len(),
        d@.children.len() == d.children@.len(),
        forall|i: int|
            0 <= i < d.methods@.len() ==> {
                let m = d.methods@[i];
                let says = #[trigger] d@.methods[i];
                &&& says.name == m.name@
                &&& says.dotted_id == m.dotted_id@
                &&& says.description == m.description@
                &&& says.auth == m.auth
                &&& says.callbacks.len() == m.callbacks@.len()
                &&& says.extensions == json::entries_view(m.extensions@)
            },
        forall|i: int| 0 <= i < d.children@.len() ==> #[trigger] d@.children[i] == d.children@[i]@,
{
    lemma_ir_children(d);
}

/// A callback says what its fields hold.
pub proof fn law_a_callback_says_what_it_holds(m: MethodIr, i: int)
    requires
        0 <= i < m.callbacks@.len(),
    ensures
        m@.callbacks[i].name == m.callbacks@[i].name@,
        m@.callbacks[i].request.0 == m.callbacks@[i].request.name@,
        m@.callbacks[i].request.1 == m.callbacks@[i].request.schema@,
        m@.callbacks[i].response.0 == m.callbacks@[i].response.name@,
        m@.callbacks[i].response.1 == m.callbacks@[i].response.schema@,
{
}

/// An edge says what its fields hold.
pub proof fn law_an_edge_says_what_it_holds(e: ChildEdge)
    ensures
        match e {
            ChildEdge::Static { child } => e@ is Static && *e@->child == child@,
            ChildEdge::Dynamic { namespace, hash, description } => {
                &&& e@ is Dynamic
                &&& e@->Dynamic_namespace == namespace@
                &&& e@->hash == hash@
                &&& e@->Dynamic_description == description@
            },
            ChildEdge::Indexed {
                namespace,
                list_method,
                search_method,
                id_field,
                path_template,
                template,
                description,
            } => {
                &&& e@ is Indexed
                &&& e@->Indexed_namespace == namespace@
                &&& e@->list_method == list_method@
                &&& e@->search_method == text::opt_text(search_method)
                &&& e@->id_field == id_field@
                &&& e@->path_template == path_template@
                &&& *e@->template == template@
                &&& e@->Indexed_description == description@
            },
        },
{
}

/// A stop says its kind, and the detail and the error that it carries.
pub proof fn law_a_stop_says_what_it_holds(s: StopReason)
    ensures
        s is Complete <==> s@.kind == StopKind::Complete,
        s is Refused <==> s@.kind == StopKind::Refused,
        s is Limited <==> s@.kind == StopKind::Limited,
        s is Cancelled <==> s@.kind == StopKind::Cancelled,
        s is Failed <==> s@.kind == StopKind::Failed,
        s matches StopReason::Failed { error, .. } ==> s@.error == Some(error@),
        !(s is Failed) ==> s@.error is None,
        ({
            let detail = match s {
                StopReason::Complete { detail } => detail,
                StopReason::Refused { detail } => detail,
                StopReason::Limited { detail } => detail,
                StopReason::Cancelled { detail } => detail,
                StopReason::Failed { detail, .. } => detail,
            };
            &&& detail is None ==> s@.detail is None
            &&& detail matches Some(d) ==> {
                &&& s@.detail is Some
                &&& s@.detail->0.code == d.code@
                &&& s@.detail->0.message == text::opt_text(d.message)
                &&& s@.detail->0.data == json::entries_view(d.data@)
            }
        }),
{
}

} // verus!
