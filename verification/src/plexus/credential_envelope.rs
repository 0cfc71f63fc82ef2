//! How minted credentials travel beside a payload, and which of them become cookies.

use crate::json;
use crate::json::{put_entry, Json, JsonView};
use crate::text;
use crate::text::{decimal_text, join3, sorted_order};
use vstd::prelude::*;

verus! {

/// Where a client attaches a credential.
#[derive(Debug, Clone, PartialEq, Eq)]
pub enum AttachmentSite {
    Header { name: String },
    Cookie { name: String },
    FirstFrame { setup_method: String, param: String },
    InRpcParam { param: String },
}

impl AttachmentSite {
    /// A copy.
    pub fn copy(&self) -> (r: Self)
        ensures
            r == *self,
    {
        match self {
            AttachmentSite::Header { name } => AttachmentSite::Header { name: name.clone() },
            AttachmentSite::Cookie { name } => AttachmentSite::Cookie { name: name.clone() },
            AttachmentSite::FirstFrame { setup_method, param } => AttachmentSite::FirstFrame {
                setup_method: setup_method.clone(),
                param: param.clone(),
            },
            AttachmentSite::InRpcParam { param } => AttachmentSite::InRpcParam { param: param.clone() },
        }
    }
}

/// A credential that was minted while a payload was serialized.
pub struct CapturedCredential {
    pub id: String,
    pub value: Json,
    pub attach_as: AttachmentSite,
    /// The wire form of the credential's metadata.
    pub metadata: Json,
}

/// Which cookie credentials a transport turns into cookies.
#[derive(Debug, Clone, Copy, PartialEq, Eq, Structural)]
pub enum CookieProjector {
    /// Every one: the transport can set cookies.
    All,
    /// None: the transport has no cookies.
    Nothing,
}

impl Default for CookieProjector {
    fn default() -> (r: Self)
        ensures
            r == CookieProjector::Nothing,
    {
        CookieProjector::Nothing
    }
}

impl CookieProjector {
    /// Whether the transport sets the cookie.
    pub fn projects(&self, name: &str) -> (r: bool)
        ensures
            r == (*self == CookieProjector::All),
    {
        match self {
            CookieProjector::All => true,
            CookieProjector::Nothing => false,
        }
    }
}

/// A cookie that the transport is to set.
pub struct CookieProjectionHint {
    pub cookie_name: String,
    pub cookie_value: Json,
    pub metadata: Json,
}

/// What a captured credential says.
pub struct CapturedView {
    pub id: Seq<char>,
    pub value: JsonView,
    /// The cookie that it is attached as, if it is one.
    pub cookie: Option<Seq<char>>,
    pub metadata: JsonView,
}

/// What a projection hint says.
pub struct HintView {
    pub cookie_name: Seq<char>,
    pub cookie_value: JsonView,
    pub metadata: JsonView,
}

/// The cookie that a credential is attached as, if it is one.
pub open spec fn cookie_of(site: AttachmentSite) -> Option<Seq<char>> {
    match site {
        AttachmentSite::Cookie { name } => Some(name@),
        _ => None,
    }
}

impl View for CapturedCredential {
    type V = CapturedView;

    open spec fn view(&self) -> CapturedView {
        CapturedView {
            id: self.id@,
            value: self.value@,
            cookie: cookie_of(self.attach_as),
            metadata: self.metadata@,
        }
    }
}

impl View for CookieProjectionHint {
    type V = HintView;

    open spec fn view(&self) -> HintView {
        HintView { cookie_name: self.cookie_name@, cookie_value: self.cookie_value@, metadata: self.metadata@ }
    }
}

/// What hints say, in order.
pub open spec fn hint_views(v: Seq<CookieProjectionHint>) -> Seq<HintView> {
    Seq::new(v.len(), |i: int| v[i]@)
}

/// The identifiers of credentials, in order.
pub open spec fn captured_ids(v: Seq<CapturedCredential>) -> Seq<Seq<char>> {
    Seq::new(v.len(), |i: int| v[i].id@)
}

/// Whether a credential becomes a cookie.
pub open spec fn is_projected(c: CapturedView, projector: CookieProjector) -> bool {
    c.cookie is Some && projector == CookieProjector::All
}

/// The wire form of a credential: its metadata, and its value unless it becomes a cookie.
pub open spec fn wire_entry(c: CapturedView, with_value: bool) -> JsonView {
    let e = if with_value {
        json::put(Seq::empty(), "value"@, c.value)
    } else {
        Seq::empty()
    };
    JsonView::Object(json::put(e, "metadata"@, c.metadata))
}

/// The sidecar of the first `n` credentials in an order: each under its identifier.
pub open spec fn sidecar(
    captured: Seq<CapturedCredential>,
    order: Seq<usize>,
    n: int,
    projector: CookieProjector,
) -> Seq<(Seq<char>, JsonView)>
    decreases n,
{
    if n <= 0 {
        Seq::empty()
    } else {
        let c = captured[order[n - 1] as int]@;
        json::put(sidecar(captured, order, n - 1, projector), c.id, wire_entry(c, !is_projected(c, projector)))
    }
}

/// The cookies to be set for the first `n` credentials in an order.
pub open spec fn hints_of(
    captured: Seq<CapturedCredential>,
    order: Seq<usize>,
    n: int,
    projector: CookieProjector,
) -> Seq<HintView>
    decreases n,
{
    if n <= 0 {
        Seq::empty()
    } else {
        let c = captured[order[n - 1] as int]@;
        let before = hints_of(captured, order, n - 1, projector);
        if is_projected(c, projector) {
            before.push(HintView { cookie_name: c.cookie->0, cookie_value: c.value, metadata: c.metadata })
        } else {
            before
        }
    }
}

/// The wire form of a captured credential.
fn captured_to_wire_json(captured: &CapturedCredential, include_value: bool) -> (r: Json)
    ensures
        r@ == wire_entry(captured@, include_value),
{
    let mut obj: Vec<(String, Json)> = Vec::new();
    assert(json::entries_view(obj@) =~= Seq::empty());
    if include_value {
        put_entry(&mut obj, "value", captured.value.clone());
    }
    put_entry(&mut obj, "metadata", captured.metadata.clone());
    proof {
        json::lemma_object_view(obj);
    }
    Json::Object(obj)
}

/// Whether a sidecar and its cookies are those of the captured credentials, taken in the
/// order of their identifiers. No credential, no sidecar.
pub open spec fn is_envelope(
    credentials: Option<JsonView>,
    hints: Seq<HintView>,
    captured: Seq<CapturedCredential>,
    projector: CookieProjector,
) -> bool {
    if captured.len() == 0 {
        credentials is None && hints.len() == 0
    } else {
        exists|order: Seq<usize>| #[trigger]
            text::is_order(order, captured_ids(captured)) && credentials == Some(
                JsonView::Object(sidecar(captured, order, captured.len() as int, projector)),
            ) && hints == hints_of(captured, order, captured.len() as int, projector)
    }
}

/// The sidecar of captured credentials, and the cookies to be set for them.
pub fn build_credentials_envelope(captured: &Vec<CapturedCredential>, projector: CookieProjector) -> (r: (
    Option<Json>,
    Vec<CookieProjectionHint>,
))
    ensures
        is_envelope(json::opt_json(r.0), hint_views(r.1@), captured@, projector),
{
    if captured.len() == 0 {
        return (None, Vec::new());
    }
    let mut ids: Vec<String> = Vec::new();
    let mut i: usize = 0;
    while i < captured.len()
        invariant
            i <= captured.len(),
            ids@.len() == i,
            forall|j: int| 0 <= j < i ==> (#[trigger] ids@[j])@ == captured@[j].id@,
        decreases captured.len() - i,
    {
        ids.push(captured[i].id.clone());
        i += 1;
    }
    assert(text::texts(ids@) =~= captured_ids(captured@));
    let order = sorted_order(&ids);
    let mut wire_map: Vec<(String, Json)> = Vec::new();
    let mut hints: Vec<CookieProjectionHint> = Vec::new();
    assert(json::entries_view(wire_map@) =~= Seq::empty());
    assert(hint_views(hints@) =~= Seq::empty());
    let mut n: usize = 0;
    while n < order.len()
        invariant
            n <= order.len(),
            text::is_order(order@, captured_ids(captured@)),
            json::entries_view(wire_map@) == sidecar(captured@, order@, n as int, projector),
            hint_views(hints@) == hints_of(captured@, order@, n as int, projector),
        decreases order.len() - n,
    {
        let ghost so_far = hint_views(hints@);
        let cap = &captured[order[n]];
        let should_project = match &cap.attach_as {
            AttachmentSite::Cookie { name } => {
                let should = projector.projects(name.as_str());
                if should {
                    hints.push(
                        CookieProjectionHint {
                            cookie_name: name.clone(),
                            cookie_value: cap.value.clone(),
                            metadata: cap.metadata.clone(),
                        },
                    );
                    assert(hint_views(hints@) =~= so_far.push(hints@.last()@));
                }
                should
            },
            _ => false,
        };
        put_entry(&mut wire_map, cap.id.as_str(), captured_to_wire_json(cap, !should_project));
        n += 1;
    }
    proof {
        json::lemma_object_view(wire_map);
    }
    (Some(Json::Object(wire_map)), hints)
}

/// A payload with its sidecar: unchanged where there is none, with the sidecar under the
/// reserved key of an object, and wrapped where it is no object.
pub open spec fn with_sidecar(payload: JsonView, credentials: Option<JsonView>) -> JsonView {
    match credentials {
        None => payload,
        Some(c) => match payload {
            JsonView::Object(entries) => JsonView::Object(json::put(entries, "_credentials"@, c)),
            other => JsonView::Object(
                json::put(json::put(Seq::empty(), "value"@, other), "_credentials"@, c),
            ),
        },
    }
}

/// Whether a content and its cookies are those of a payload and the captured credentials.
pub open spec fn is_content(
    content: JsonView,
    hints: Seq<HintView>,
    payload: JsonView,
    captured: Seq<CapturedCredential>,
    projector: CookieProjector,
) -> bool {
    exists|credentials: Option<JsonView>| #[trigger]
        is_envelope(credentials, hints, captured, projector) && content == with_sidecar(payload, credentials)
}

/// A payload with the sidecar of the captured credentials, and the cookies to be set.
pub fn assemble_envelope_content(
    payload: Json,
    captured: &Vec<CapturedCredential>,
    projector: CookieProjector,
) -> (r: (Json, Vec<CookieProjectionHint>))
    ensures
        is_content(r.0@, hint_views(r.1@), payload@, captured@, projector),
{
    let (credentials, hints) = build_credentials_envelope(captured, projector);
    let ghost side = json::opt_json(credentials);
    let content = match credentials {
        None => payload,
        Some(c) => match payload {
            Json::Object(entries) => {
                proof {
                    json::lemma_object_view(entries);
                }
                let mut map = entries;
                put_entry(&mut map, "_credentials", c);
                proof {
                    json::lemma_object_view(map);
                }
                Json::Object(map)
            },
            other => {
                let mut wrapper: Vec<(String, Json)> = Vec::new();
                assert(json::entries_view(wrapper@) =~= Seq::empty());
                put_entry(&mut wrapper, "value", other);
                put_entry(&mut wrapper, "_credentials", c);
                proof {
                    json::lemma_object_view(wrapper);
                }
                Json::Object(wrapper)
            },
        },
    };
    proof {
        assert(is_envelope(side, hint_views(hints@), captured@, projector));
        assert(content@ == with_sidecar(payload@, side));
    }
    (content, hints)
}

/// What a payload is on the wire: its JSON form, or null where it has none.
pub open spec fn serialized(payload: Result<Json, String>) -> JsonView {
    match payload {
        Ok(value) => value@,
        Err(_) => JsonView::Null,
    }
}

/// A payload's JSON form and the credentials captured while it was made. `payload` is what
/// turning it into JSON gave. No capture runs while a payload is serialized, so no credential
/// is captured and each stands in the payload by its sentinel.
pub fn serialize_with_credential_capture(payload: Result<Json, String>) -> (r: (Json, Vec<CapturedCredential>))
    ensures
        r.0@ == serialized(payload),
        r.1@ == Seq::<CapturedCredential>::empty(),
{
    let value = match payload {
        Ok(value) => value,
        Err(_) => Json::Null,
    };
    (value, Vec::new())
}

/// Without credentials a payload goes out as it is, and no cookie is set.
pub proof fn law_no_credentials_no_change(
    content: JsonView,
    hints: Seq<HintView>,
    payload: JsonView,
    captured: Seq<CapturedCredential>,
    projector: CookieProjector,
)
    requires
        captured.len() == 0,
        is_content(content, hints, payload, captured, projector),
    ensures
        content == payload,
        hints.len() == 0,
{
}

/// A credential that becomes a cookie has no value in the sidecar; any other has its own.
pub proof fn law_a_cookie_leaves_no_value_behind(c: CapturedView, projector: CookieProjector)
    ensures
        json::json_get(wire_entry(c, !is_projected(c, projector)), "value"@) == (if is_projected(c, projector) {
            None::<JsonView>
        } else {
            Some(c.value)
        }),
        json::json_get(wire_entry(c, !is_projected(c, projector)), "metadata"@) == Some(c.metadata),
{
    reveal_strlit("value");
    reveal_strlit("metadata");
    assert("value"@.len() == 5 && "metadata"@.len() == 8);
    let n = Seq::<(Seq<char>, JsonView)>::empty();
    let e = if is_projected(c, projector) {
        n
    } else {
        json::put(n, "value"@, c.value)
    };
    json::law_put_then_read(n, "value"@, c.value, "metadata"@);
    json::law_put_then_read(e, "metadata"@, c.metadata, "value"@);
}

/// A transport without cookies sets none: every credential keeps its value.
pub proof fn law_no_cookies_without_a_cookie_transport(
    captured: Seq<CapturedCredential>,
    order: Seq<usize>,
    n: int,
)
    ensures
        hints_of(captured, order, n, CookieProjector::Nothing).len() == 0,
    decreases n,
{
    if n > 0 {
        law_no_cookies_without_a_cookie_transport(captured, order, n - 1);
    }
}

/// The sidecar shows under the reserved key, and an object keeps its other fields.
pub proof fn law_sidecar_stands_under_the_reserved_key(payload: JsonView, credentials: JsonView, other: Seq<char>)
    requires
        other != "_credentials"@,
        payload is Object,
    ensures
        json::json_get(with_sidecar(payload, Some(credentials)), "_credentials"@) == Some(credentials),
        json::json_get(with_sidecar(payload, Some(credentials)), other) == json::json_get(payload, other),
{
    json::law_put_then_read(payload->Object_0, "_credentials"@, credentials, other);
}

/// The text of a cookie's value: that of a string, else what it is written as.
pub open spec fn cookie_text(value: JsonView, written: Seq<char>) -> Seq<char> {
    match value {
        JsonView::Text(s) => s,
        _ => written,
    }
}

/// The header that sets a cookie. A lifetime that has run out counts as none left.
pub open spec fn set_cookie(name: Seq<char>, value: Seq<char>, expires_in: Option<i64>) -> Seq<char> {
    let base = name + "="@ + value + "; HttpOnly; Secure; SameSite=None; Path=/"@;
    match expires_in {
        Some(secs) => base + "; Max-Age="@ + text::decimal(
            if secs > 0 {
                secs as nat
            } else {
                0
            },
        ),
        None => base,
    }
}

/// The header that sets a cookie. `written` is the JSON text of a value that is no string;
/// `expires_in` counts the seconds until the credential expires.
pub fn format_set_cookie_header(hint: &CookieProjectionHint, written: &str, expires_in: Option<i64>) -> (r: String)
    ensures
        r@ == set_cookie(hint.cookie_name@, cookie_text(hint.cookie_value@, written@), expires_in),
{
    let value_str = match &hint.cookie_value {
        Json::Text(s) => s.as_str(),
        _ => written,
    };
    let mut out = join3(hint.cookie_name.as_str(), "=", value_str);
    out.append("; HttpOnly; Secure; SameSite=None; Path=/");
    match expires_in {
        Some(secs) => {
            let max_age: u64 = if secs > 0 {
                secs as u64
            } else {
                0
            };
            out.append("; Max-Age=");
            out.append(decimal_text(max_age).as_str());
        },
        None => {},
    }
    out
}

/// Whether a returns schema declares a top-level field of the reserved name.
pub open spec fn declares_reserved_field(schema: JsonView) -> bool {
    match json::json_get(schema, "properties"@) {
        Some(properties) => json::json_get(properties, "_credentials"@) is Some,
        None => false,
    }
}

/// What a warning about a field of the reserved name says.
pub const COLLISION_MESSAGE: &'static str = "method's return-type schema declares a top-level `_credentials` field; this name is reserved by the framework's credential sidecar (AUTHZ-CRED-CORE-2) and will be shadowed at dispatch time. Rename the domain field to avoid the collision.";

/// A warning about a field of the reserved name.
#[derive(Debug, Clone, PartialEq, Eq)]
pub struct CollisionWarning {
    pub plugin: String,
    pub method: String,
    pub message: String,
}

/// What a `CollisionWarning` says.
pub struct WarningView {
    pub plugin: Seq<char>,
    pub method: Seq<char>,
    pub message: Seq<char>,
}

impl View for CollisionWarning {
    type V = WarningView;

    open spec fn view(&self) -> WarningView {
        WarningView { plugin: self.plugin@, method: self.method@, message: self.message@ }
    }
}

/// The warning about a field of the reserved name.
pub open spec fn collision_warning(plugin: Seq<char>, method: Seq<char>) -> WarningView {
    WarningView { plugin, method, message: COLLISION_MESSAGE@ }
}

/// The warning about a field of the reserved name.
pub fn warn_on_credentials_field_collision(plugin: &str, method: &str) -> (r: CollisionWarning)
    ensures
        r@ == collision_warning(plugin@, method@),
{
    CollisionWarning {
        plugin: plugin.to_owned(),
        method: method.to_owned(),
        message: COLLISION_MESSAGE.to_owned(),
    }
}

/// The warning that a method's returns schema gives rise to, where it declares a field of the
/// reserved name.
pub fn check_returns_schema_for_credentials_collision(plugin: &str, method: &str, returns_schema: &Json) -> (r: Option<
    CollisionWarning,
>)
    ensures
        match r {
            Some(w) => declares_reserved_field(returns_schema@) && w@ == collision_warning(plugin@, method@),
            None => !declares_reserved_field(returns_schema@),
        },
{
    match returns_schema.get("properties") {
        Some(properties) => if properties.get("_credentials").is_some() {
            Some(warn_on_credentials_field_collision(plugin, method))
        } else {
            None
        },
        None => None,
    }
}

proof fn lemma_sidecar_reads(
    captured: Seq<CapturedCredential>,
    order: Seq<usize>,
    n: int,
    projector: CookieProjector,
    k: Seq<char>,
    at: int,
)
    requires
        text::is_order(order, captured_ids(captured)),
        0 <= n <= order.len(),
        -1 <= at < n,
        at >= 0 ==> captured[order[at] as int].id@ == k,
        forall|m: int| at < m < n ==> captured[#[trigger] order[m] as int].id@ != k,
    ensures
        json::entry_at(sidecar(captured, order, n, projector), k) == (if at >= 0 {
            let c = captured[order[at] as int]@;
            Some(wire_entry(c, !is_projected(c, projector)))
        } else {
            None
        }),
    decreases n,
{
    if n > 0 {
        let c = captured[order[n - 1] as int]@;
        let before = sidecar(captured, order, n - 1, projector);
        json::law_put_then_read(before, c.id, wire_entry(c, !is_projected(c, projector)), k);
        if at < n - 1 {
            lemma_sidecar_reads(captured, order, n - 1, projector, k, at);
        }
    }
}

proof fn lemma_order_reaches(order: Seq<usize>, keys: Seq<Seq<char>>, i: int) -> (at: int)
    requires
        text::is_order(order, keys),
        0 <= i < keys.len(),
    ensures
        0 <= at < order.len(),
        order[at] == i,
{
    vstd::set_lib::lemma_int_range(0, keys.len() as int);
    let range = vstd::set_lib::set_int_range(0, keys.len() as int);
    let as_ints = order.map_values(|x: usize| x as int);
    assert(as_ints.no_duplicates());
    as_ints.unique_seq_to_set();
    assert(as_ints.to_set().subset_of(range)) by {
        assert forall|x: int| as_ints.to_set().contains(x) implies range.contains(x) by {
            let p = choose|p: int| 0 <= p < as_ints.len() && as_ints[p] == x;
            assert(order[p] < keys.len());
        }
    }
    vstd::set_lib::lemma_subset_equality(as_ints.to_set(), range);
    assert(range.contains(i));
    assert(as_ints.contains(i));
    let at = choose|at: int| 0 <= at < as_ints.len() && as_ints[at] == i;
    assert(order[at] == i);
    at
}

/// Every captured credential stands in the sidecar under its identifier, the last captured of
/// those that share one: with its metadata, and with its value unless it is a cookie that the
/// transport sets. Under no other key does anything stand.
pub proof fn law_every_credential_stands_in_the_sidecar(
    credentials: Option<JsonView>,
    hints: Seq<HintView>,
    captured: Seq<CapturedCredential>,
    projector: CookieProjector,
    i: int,
    k: Seq<char>,
)
    requires
        is_envelope(credentials, hints, captured, projector),
        0 <= i < captured.len(),
        forall|j: int| i < j < captured.len() ==> (#[trigger] captured[j]).id@ != captured[i].id@,
        forall|j: int| 0 <= j < captured.len() ==> (#[trigger] captured[j]).id@ != k,
    ensures
        credentials is Some,
        json::json_get(credentials->0, captured[i].id@) is Some,
        ({
            let shown = json::json_get(credentials->0, captured[i].id@)->0;
            &&& json::json_get(shown, "metadata"@) == Some(captured[i].metadata@)
            &&& captured[i].attach_as is Cookie && projector == CookieProjector::All ==> json::json_get(
                shown,
                "value"@,
            ) is None
            &&& !(captured[i].attach_as is Cookie && projector == CookieProjector::All) ==> json::json_get(
                shown,
                "value"@,
            ) == Some(captured[i].value@)
        }),
        json::json_get(credentials->0, k) is None,
{
    let ids = captured_ids(captured);
    let order = choose|order: Seq<usize>| #[trigger]
        text::is_order(order, ids) && credentials == Some(
            JsonView::Object(sidecar(captured, order, captured.len() as int, projector)),
        );
    let at = lemma_order_reaches(order, ids, i);
    assert forall|m: int| at < m < order.len() implies captured[#[trigger] order[m] as int].id@ != captured[i].id@ by {
        let j = order[m] as int;
        if captured[j].id@ == captured[i].id@ {
            assert(ids[order[at] as int] == ids[order[m] as int]);
            assert(order[at] < order[m]);
        }
    }
    lemma_sidecar_reads(captured, order, captured.len() as int, projector, captured[i].id@, at);
    law_a_cookie_leaves_no_value_behind(captured[i]@, projector);
    assert forall|m: int| -1 < m < order.len() implies captured[#[trigger] order[m] as int].id@ != k by {
        assert(captured[order[m] as int].id@ != k);
    }
    lemma_sidecar_reads(captured, order, captured.len() as int, projector, k, -1);
}

proof fn lemma_hints(captured: Seq<CapturedCredential>, order: Seq<usize>, n: int, projector: CookieProjector)
    requires
        0 <= n <= order.len(),
    ensures
        hints_of(captured, order, n, projector) == order.take(n).filter(
            |p: usize| captured[p as int].attach_as is Cookie && projector == CookieProjector::All,
        ).map_values(
            |p: usize|
                HintView {
                    cookie_name: captured[p as int].attach_as->Cookie_name@,
                    cookie_value: captured[p as int].value@,
                    metadata: captured[p as int].metadata@,
                },
        ),
    decreases n,
{
    reveal(Seq::filter);
    let set = |p: usize| captured[p as int].attach_as is Cookie && projector == CookieProjector::All;
    let hint = |p: usize|
        HintView {
            cookie_name: captured[p as int].attach_as->Cookie_name@,
            cookie_value: captured[p as int].value@,
            metadata: captured[p as int].metadata@,
        };
    if n > 0 {
        lemma_hints(captured, order, n - 1, projector);
        assert(order.take(n).drop_last() =~= order.take(n - 1));
        assert(order.take(n).last() == order[n - 1]);
        let rest = order.take(n - 1).filter(set);
        if set(order[n - 1]) {
            assert(rest.push(order[n - 1]).map_values(hint) =~= rest.map_values(hint).push(hint(order[n - 1])));
        }
    }
    assert(hints_of(captured, order, n, projector) =~= order.take(n).filter(set).map_values(hint));
}

/// A cookie is set for each captured credential that is one, where the transport has cookies, and
/// for no other: with its name, its value and its metadata, in the order of the identifiers.
pub proof fn law_each_cookie_is_set_once(
    credentials: Option<JsonView>,
    hints: Seq<HintView>,
    captured: Seq<CapturedCredential>,
    projector: CookieProjector,
    ids: Seq<Seq<char>>,
)
    requires
        is_envelope(credentials, hints, captured, projector),
        captured.len() > 0,
        ids.len() == captured.len(),
        forall|i: int| 0 <= i < ids.len() ==> #[trigger] ids[i] == captured[i].id@,
    ensures
        exists|order: Seq<usize>| #[trigger]
            text::is_order(order, ids) && hints == order.filter(
                |p: usize| captured[p as int].attach_as is Cookie && projector == CookieProjector::All,
            ).map_values(
                |p: usize|
                    HintView {
                        cookie_name: captured[p as int].attach_as->Cookie_name@,
                        cookie_value: captured[p as int].value@,
                        metadata: captured[p as int].metadata@,
                    },
            ),
{
    assert(ids =~= captured_ids(captured));
    let order = choose|order: Seq<usize>| #[trigger]
        text::is_order(order, ids) && hints == hints_of(captured, order, captured.len() as int, projector);
    lemma_hints(captured, order, captured.len() as int, projector);
    assert(order.take(captured.len() as int) =~= order);
}

/// A payload that is no object is wrapped to carry its sidecar: the payload stands under one key,
/// the sidecar under the reserved one, and nothing under any other.
pub proof fn law_a_bare_payload_is_wrapped(payload: JsonView, credentials: JsonView, other: Seq<char>)
    requires
        !(payload is Object),
        other != "value"@,
        other != "_credentials"@,
    ensures
        json::json_get(with_sidecar(payload, Some(credentials)), "value"@) == Some(payload),
        json::json_get(with_sidecar(payload, Some(credentials)), "_credentials"@) == Some(credentials),
        json::json_get(with_sidecar(payload, Some(credentials)), other) is None,
        with_sidecar(payload, None) == payload,
{
    reveal_strlit("value");
    reveal_strlit("_credentials");
    assert("value"@.len() != "_credentials"@.len());
    let n = Seq::<(Seq<char>, JsonView)>::empty();
    let e = json::put(n, "value"@, payload);
    json::law_put_then_read(n, "value"@, payload, other);
    json::law_put_then_read(e, "_credentials"@, credentials, "value"@);
    json::law_put_then_read(e, "_credentials"@, credentials, other);
    assert(json::entry_at(n, other) is None);
}

/// The header that sets a cookie starts with its name and value and the attributes that every
/// such cookie has, and ends with the seconds that it has left where these are known: none where
/// its lifetime has run out.
pub proof fn law_a_cookie_header_says_what_is_set(name: Seq<char>, value: Seq<char>, left: i64)
    ensures
        set_cookie(name, value, None) == name + "="@ + value + "; HttpOnly; Secure; SameSite=None; Path=/"@,
        left >= 0 ==> set_cookie(name, value, Some(left)) == set_cookie(name, value, None) + "; Max-Age="@
            + text::decimal(left as nat),
        left < 0 ==> set_cookie(name, value, Some(left)) == set_cookie(name, value, Some(0)),
{
}

/// The value of a cookie is the text of a value that is one, else what the value is written as.
pub proof fn law_a_cookie_holds_its_text(t: Seq<char>, value: JsonView, written: Seq<char>)
    ensures
        cookie_text(JsonView::Text(t), written) == t,
        !(value is Text) ==> cookie_text(value, written) == written,
{
}

/// A returns schema clashes with the sidecar exactly where its properties name the reserved field.
pub proof fn law_a_reserved_field_is_one_of_the_properties(
    schema: Seq<(Seq<char>, JsonView)>,
    properties: Seq<(Seq<char>, JsonView)>,
    declared: JsonView,
)
    ensures
        declares_reserved_field(
            JsonView::Object(
                json::put(
                    schema,
                    "properties"@,
                    JsonView::Object(json::put(properties, "_credentials"@, declared)),
                ),
            ),
        ),
        json::entry_at(properties, "_credentials"@) is None ==> !declares_reserved_field(
            JsonView::Object(json::put(schema, "properties"@, JsonView::Object(properties))),
        ),
        json::entry_at(schema, "properties"@) is None ==> !declares_reserved_field(JsonView::Object(schema)),
{
    let p = JsonView::Object(json::put(properties, "_credentials"@, declared));
    json::law_put_then_read(properties, "_credentials"@, declared, "_credentials"@);
    json::law_put_then_read(schema, "properties"@, p, "properties"@);
    json::law_put_then_read(schema, "properties"@, JsonView::Object(properties), "properties"@);
}

/// A captured credential, a cookie that is set and a warning say what their fields hold; a
/// credential becomes a cookie only where it is attached as one.
pub proof fn law_credentials_say_what_they_hold(
    c: CapturedCredential,
    v: Seq<CookieProjectionHint>,
    w: CollisionWarning,
    all: Seq<CapturedCredential>,
)
    ensures
        c@.id == c.id@,
        c@.value == c.value@,
        c@.metadata == c.metadata@,
        c@.cookie is Some <==> c.attach_as is Cookie,
        c.attach_as matches AttachmentSite::Cookie { name } ==> c@.cookie == Some(name@),
        hint_views(v).len() == v.len(),
        forall|i: int|
            0 <= i < v.len() ==> (#[trigger] hint_views(v)[i]).cookie_name == v[i].cookie_name@ && hint_views(
                v,
            )[i].cookie_value == v[i].cookie_value@ && hint_views(v)[i].metadata == v[i].metadata@,
        captured_ids(all).len() == all.len(),
        forall|i: int| 0 <= i < all.len() ==> #[trigger] captured_ids(all)[i] == all[i].id@,
        w@.plugin == w.plugin@,
        w@.method == w.method@,
        w@.message == w.message@,
{
}

/// A payload that could be written stands as it was written, and one that could not as null; what
/// is warned of names the activation and the method.
pub proof fn law_a_payload_stands_as_it_was_written(j: Json, why: String, plugin: Seq<char>, method: Seq<char>)
    ensures
        serialized(Ok(j)) == j@,
        serialized(Err(why)) == JsonView::Null,
        collision_warning(plugin, method).plugin == plugin,
        collision_warning(plugin, method).method == method,
        collision_warning(plugin, method).message == COLLISION_MESSAGE@,
{
}

} // verus!
