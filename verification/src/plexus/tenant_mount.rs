//! Per-tenant mounts: who may enter which tenant's subtree.

use crate::ir::{ActivationIr, ChildEdge, DetailView, EdgeView, StopDetail, StopKind, StopReason, StopView};
use crate::json;
use crate::json::{put_entry, Json, JsonView};
use crate::outside;
use crate::outside::tenant_id_accepts;
use crate::plexus::error::{PlexusError, PlexusErrorView};
use crate::text;
use crate::text::{join2, join3, same_text, split_first};
use vstd::prelude::*;

verus! {

/// The method that lists the caller's tenants, within the mount.
pub const LIST_METHOD_NAME: &'static str = "list";

/// The method that lists the caller's tenants, with its namespace.
pub const LIST_METHOD: &'static str = "tenants.list";

/// The field under which a listing names a tenant.
pub const ID_FIELD: &'static str = "tenant_id";

/// The path of a tenant's subtree.
pub const PATH_TEMPLATE: &'static str = "tenants/{id}";

/// The namespace of the mount.
pub const NAMESPACE: &'static str = "tenants";

/// Why a caller does not enter a tenant's subtree.
#[derive(Debug, Clone, Copy, PartialEq, Eq, Structural)]
pub enum MountRefusal {
    /// No tenant was resolved for the caller.
    Unauthenticated,
    /// There is no such tenant, or it is not the caller's.
    NoSuchTenant,
    /// The segment names no tenant that could be.
    UnsafeSegment,
}

/// The machine token of a refusal.
pub open spec fn refusal_code(r: MountRefusal) -> Seq<char> {
    match r {
        MountRefusal::Unauthenticated => "tenant_mount:unauthenticated"@,
        MountRefusal::NoSuchTenant => "tenant_mount:no_such_tenant"@,
        MountRefusal::UnsafeSegment => "tenant_mount:unsafe_segment"@,
    }
}

/// The hub error that stands for a refusal. A tenant that is not the caller's is answered as
/// a method that does not exist.
pub open spec fn refusal_error(r: MountRefusal) -> PlexusErrorView {
    match r {
        MountRefusal::Unauthenticated => PlexusErrorView::Unauthenticated(refusal_code(r)),
        MountRefusal::NoSuchTenant => PlexusErrorView::MethodNotFound {
            activation: NAMESPACE@,
            method: refusal_code(r),
        },
        MountRefusal::UnsafeSegment => PlexusErrorView::InvalidParams(
            refusal_code(r)
                + ": the tenant segment is empty, over-long, reserved, or contains a path- or route-significant byte"@,
        ),
    }
}

impl MountRefusal {
    /// The machine token of the refusal.
    pub fn code(self) -> (r: &'static str)
        ensures
            r@ == refusal_code(self),
    {
        match self {
            MountRefusal::Unauthenticated => "tenant_mount:unauthenticated",
            MountRefusal::NoSuchTenant => "tenant_mount:no_such_tenant",
            MountRefusal::UnsafeSegment => "tenant_mount:unsafe_segment",
        }
    }

    /// The stop of a turn that was refused.
    pub fn stop_reason(self) -> (r: StopReason)
        ensures
            r@ == (StopView {
                kind: StopKind::Refused,
                detail: Some(DetailView { code: refusal_code(self), message: None, data: Seq::empty() }),
                error: None,
            }),
    {
        StopReason::refused(StopDetail::new(self.code().to_owned()))
    }
}

impl vstd::std_specs::convert::FromSpecImpl<MountRefusal> for PlexusError {
    open spec fn obeys_from_spec() -> bool {
        false
    }

    open spec fn from_spec(refusal: MountRefusal) -> PlexusError {
        arbitrary()
    }
}

impl From<MountRefusal> for PlexusError {
    fn from(refusal: MountRefusal) -> (r: Self)
        ensures
            r@ == refusal_error(refusal),
    {
        match refusal {
            MountRefusal::Unauthenticated => PlexusError::Unauthenticated(refusal.code().to_owned()),
            MountRefusal::NoSuchTenant => PlexusError::MethodNotFound {
                activation: NAMESPACE.to_owned(),
                method: refusal.code().to_owned(),
            },
            MountRefusal::UnsafeSegment => PlexusError::InvalidParams(
                join2(
                    refusal.code(),
                    ": the tenant segment is empty, over-long, reserved, or contains a path- or route-significant byte",
                ),
            ),
        }
    }
}

/// A tenant that the caller was admitted to.
#[derive(Debug, Clone, PartialEq, Eq)]
pub struct AdmittedTenant {
    id: String,
}

impl View for AdmittedTenant {
    type V = Seq<char>;

    closed spec fn view(&self) -> Seq<char> {
        self.id@
    }
}

impl AdmittedTenant {
    /// The tenant's identifier.
    pub fn id(&self) -> (r: &str)
        ensures
            r@ == self@,
    {
        self.id.as_str()
    }
}

/// The names that a mount keeps for itself.
pub open spec fn is_reserved(s: Seq<char>) -> bool {
    s == LIST_METHOD_NAME@ || s == "schema"@ || s == "connectome"@
}

/// The bytes that mean something in a path or a route, control bytes and blanks.
pub open spec fn is_unsafe_byte(b: u8) -> bool {
    b == 0x2f || b == 0x5c || b == 0x2e || b == 0x3a || b <= 0x20 || b == 0x7f
}

/// Whether a segment can name a tenant: one to 256 bytes, no reserved name, no unsafe byte.
pub open spec fn is_safe_segment(s: Seq<char>) -> bool {
    let bytes = vstd::utf8::encode_utf8(s);
    &&& 0 < bytes.len() <= 256
    &&& !is_reserved(s)
    &&& forall|i: int| 0 <= i < bytes.len() ==> !is_unsafe_byte(#[trigger] bytes[i])
}

/// Whether a segment can name a tenant.
pub fn mount_segment_is_safe(segment: &str) -> (r: bool)
    ensures
        r == is_safe_segment(segment@),
{
    let bytes = segment.as_bytes();
    if bytes.len() == 0 || bytes.len() > 256 {
        return false;
    }
    if same_text(segment, LIST_METHOD_NAME) || same_text(segment, "schema") || same_text(segment, "connectome") {
        return false;
    }
    let mut i: usize = 0;
    while i < bytes.len()
        invariant
            bytes@ == vstd::utf8::encode_utf8(segment@),
            i <= bytes.len(),
            forall|j: int| 0 <= j < i ==> !is_unsafe_byte(#[trigger] bytes@[j]),
        decreases bytes.len() - i,
    {
        let b = bytes[i];
        if b == 0x2f || b == 0x5c || b == 0x2e || b == 0x3a || b <= 0x20 || b == 0x7f {
            assert(is_unsafe_byte(bytes@[i as int]));
            return false;
        }
        i += 1;
    }
    true
}

/// Every segment that can name a tenant is a tenant identifier.
pub proof fn law_a_safe_segment_is_a_tenant_id(s: Seq<char>)
    requires
        is_safe_segment(s),
    ensures
        outside::is_tenant_id(s),
{
    let bytes = vstd::utf8::encode_utf8(s);
    assert forall|i: int| 0 <= i < bytes.len() implies 0x20 <= #[trigger] bytes[i] && bytes[i] != 0x7f by {
        assert(!is_unsafe_byte(bytes[i]));
    }
}

/// Which tenant a caller enters through a segment, or why none. The segment is looked at
/// first, then whether the caller has a tenant, then whether it is this one.
pub open spec fn admission(segment: Seq<char>, caller: Option<Seq<char>>) -> Result<Seq<char>, MountRefusal> {
    if !is_safe_segment(segment) || !outside::is_tenant_id(segment) {
        Err(MountRefusal::UnsafeSegment)
    } else {
        match caller {
            None => Err(MountRefusal::Unauthenticated),
            Some(t) => if t == segment {
                Ok(segment)
            } else {
                Err(MountRefusal::NoSuchTenant)
            },
        }
    }
}

/// Decides who enters a mount. It is told the tenant that was resolved for the caller.
pub struct TenantMountGate {
    pub caller: Option<String>,
}

impl TenantMountGate {
    /// Decides for a caller with a resolved tenant, or without one.
    pub fn new(caller: Option<String>) -> (r: Self)
        ensures
            r == (TenantMountGate { caller }),
    {
        TenantMountGate { caller }
    }

    /// Which tenant the caller enters through a segment, or why none.
    pub fn admit_segment(&self, segment: &str) -> (r: Result<AdmittedTenant, MountRefusal>)
        ensures
            match r {
                Ok(t) => admission(segment@, text::opt_text(self.caller)) == Ok::<Seq<char>, MountRefusal>(t@),
                Err(e) => admission(segment@, text::opt_text(self.caller)) == Err::<Seq<char>, MountRefusal>(e),
            },
    {
        if !mount_segment_is_safe(segment) {
            return Err(MountRefusal::UnsafeSegment);
        }
        if !tenant_id_accepts(segment) {
            return Err(MountRefusal::UnsafeSegment);
        }
        match &self.caller {
            None => Err(MountRefusal::Unauthenticated),
            Some(t) => if same_text(t.as_str(), segment) {
                Ok(AdmittedTenant { id: segment.to_owned() })
            } else {
                Err(MountRefusal::NoSuchTenant)
            },
        }
    }

    /// The caller's tenant.
    pub fn caller_tenant(&self) -> (r: Option<&str>)
        ensures
            match r {
                Some(t) => text::opt_text(self.caller) == Some(t@),
                None => self.caller is None,
            },
    {
        match &self.caller {
            Some(t) => Some(t.as_str()),
            None => None,
        }
    }
}

/// The names of the mount's own methods, for its schema.
#[derive(Debug, Clone, Copy, PartialEq, Eq, Structural)]
pub struct TenantMountMethods;

impl TenantMountMethods {
    /// The names of the methods.
    pub fn method_names() -> (r: Vec<String>)
        ensures
            text::texts(r@) == seq![LIST_METHOD_NAME@],
    {
        let mut out: Vec<String> = Vec::new();
        out.push(LIST_METHOD_NAME.to_owned());
        assert(text::texts(out@) =~= seq![LIST_METHOD_NAME@]);
        out
    }

    /// The schema of the methods: an object whose `method` is the name of the one there is.
    pub fn schema_with_consts() -> (r: Json)
        ensures
            r@ == JsonView::Object(
                json::put(
                    json::put(Seq::empty(), "type"@, JsonView::Text("object"@)),
                    "properties"@,
                    JsonView::Object(
                        json::put(
                            Seq::empty(),
                            "method"@,
                            JsonView::Object(json::put(Seq::empty(), "const"@, JsonView::Text(LIST_METHOD_NAME@))),
                        ),
                    ),
                ),
            ),
    {
        let mut constant: Vec<(String, Json)> = Vec::new();
        assert(json::entries_view(constant@) =~= Seq::empty());
        put_entry(&mut constant, "const", Json::text(LIST_METHOD_NAME));
        proof {
            json::lemma_object_view(constant);
        }
        let mut properties: Vec<(String, Json)> = Vec::new();
        assert(json::entries_view(properties@) =~= Seq::empty());
        put_entry(&mut properties, "method", Json::Object(constant));
        proof {
            json::lemma_object_view(properties);
        }
        let mut e: Vec<(String, Json)> = Vec::new();
        assert(json::entries_view(e@) =~= Seq::empty());
        put_entry(&mut e, "type", Json::text("object"));
        put_entry(&mut e, "properties", Json::Object(properties));
        proof {
            json::lemma_object_view(e);
        }
        Json::Object(e)
    }
}

/// A mount of per-tenant subtrees.
pub struct TenantMount {
    pub namespace: String,
    pub version: String,
    pub description: String,
    /// The document that every tenant's subtree follows.
    pub template: ActivationIr,
}

/// What a call on a mount leads to.
pub enum MountStep<'a> {
    /// The listing of the caller's tenants.
    List,
    /// A method in the subtree of a tenant.
    Enter { tenant: AdmittedTenant, rest: &'a str },
}

/// What `MountStep` says.
pub enum MountStepView {
    List,
    Enter { tenant: Seq<char>, rest: Seq<char> },
}

/// What a step says.
pub open spec fn step_view(s: MountStep) -> MountStepView {
    match s {
        MountStep::List => MountStepView::List,
        MountStep::Enter { tenant, rest } => MountStepView::Enter { tenant: tenant@, rest: rest@ },
    }
}

/// Where a call on a mount leads, or why nowhere.
pub open spec fn dispatched(
    namespace: Seq<char>,
    method: Seq<char>,
    caller: Option<Seq<char>>,
) -> Result<MountStepView, PlexusErrorView> {
    if method == LIST_METHOD_NAME@ {
        Ok(MountStepView::List)
    } else if !method.contains('.') {
        Err(
            PlexusErrorView::MethodNotFound {
                activation: namespace,
                method: method + ": a tenant mount is addressed as '"@ + namespace
                    + ".<tenant>.<activation>.<method>'"@,
            },
        )
    } else {
        match admission(text::before_first(method, '.'), caller) {
            Ok(tenant) => Ok(MountStepView::Enter { tenant, rest: text::after_first(method, '.') }),
            Err(refusal) => Err(refusal_error(refusal)),
        }
    }
}

/// The listing for a caller: their own tenant, if they have one, and no other.
pub open spec fn listing(caller: Option<Seq<char>>) -> JsonView {
    let items = match caller {
        Some(t) => seq![JsonView::Object(json::put(Seq::empty(), ID_FIELD@, JsonView::Text(t)))],
        None => Seq::empty(),
    };
    JsonView::Object(json::put(Seq::empty(), "tenants"@, JsonView::Array(items)))
}

impl TenantMount {
    /// A mount whose subtrees follow a template.
    pub fn new(template: ActivationIr) -> (r: Self)
        ensures
            r.namespace@ == NAMESPACE@,
            r.version@ == "1.0.0"@,
            r.description@ == "Per-tenant mounts, gated on the caller's resolved tenant"@,
            r.template == template,
    {
        TenantMount {
            namespace: NAMESPACE.to_owned(),
            version: "1.0.0".to_owned(),
            description: "Per-tenant mounts, gated on the caller's resolved tenant".to_owned(),
            template,
        }
    }

    /// The edge by which the mount shows in its parent's document.
    pub fn indexed_edge(&self) -> (r: ChildEdge)
        ensures
            r@ == (EdgeView::Indexed {
                namespace: self.namespace@,
                list_method: LIST_METHOD@,
                search_method: None,
                id_field: ID_FIELD@,
                path_template: PATH_TEMPLATE@,
                template: Box::new(self.template@),
                description: self.description@,
            }),
    {
        ChildEdge::Indexed {
            namespace: self.namespace.clone(),
            list_method: LIST_METHOD.to_owned(),
            search_method: None,
            id_field: ID_FIELD.to_owned(),
            path_template: PATH_TEMPLATE.to_owned(),
            template: Box::new(self.template.copy()),
            description: self.description.clone(),
        }
    }

    /// The help text of a method of the mount itself.
    pub fn method_help(&self, method: &str) -> (r: Option<String>)
        ensures
            text::opt_text(r) == (if method@ == LIST_METHOD_NAME@ {
                Some("List the tenants the caller belongs to"@)
            } else {
                None::<Seq<char>>
            }),
    {
        if same_text(method, LIST_METHOD_NAME) {
            Some("List the tenants the caller belongs to".to_owned())
        } else {
            None
        }
    }

    /// The listing for a caller.
    pub fn list(&self, gate: &TenantMountGate) -> (r: Json)
        ensures
            r@ == listing(text::opt_text(gate.caller)),
    {
        let mut items: Vec<Json> = Vec::new();
        match &gate.caller {
            Some(t) => {
                let mut item: Vec<(String, Json)> = Vec::new();
                assert(json::entries_view(item@) =~= Seq::empty());
                put_entry(&mut item, ID_FIELD, Json::text(t.as_str()));
                proof {
                    json::lemma_object_view(item);
                }
                items.push(Json::Object(item));
                assert(json::items_view(items@) =~= seq![
                    JsonView::Object(json::put(Seq::empty(), ID_FIELD@, JsonView::Text(t@))),
                ]);
            },
            None => {
                assert(json::items_view(items@) =~= Seq::empty());
            },
        }
        proof {
            json::lemma_array_view(items);
        }
        let mut out: Vec<(String, Json)> = Vec::new();
        assert(json::entries_view(out@) =~= Seq::empty());
        put_entry(&mut out, "tenants", Json::Array(items));
        proof {
            json::lemma_object_view(out);
        }
        Json::Object(out)
    }

    /// Where a call on the mount leads, or why nowhere.
    pub fn dispatch<'a>(&self, method: &'a str, gate: &TenantMountGate) -> (r: Result<MountStep<'a>, PlexusError>)
        ensures
            match r {
                Ok(s) => dispatched(self.namespace@, method@, text::opt_text(gate.caller)) == Ok::<
                    MountStepView,
                    PlexusErrorView,
                >(step_view(s)),
                Err(e) => dispatched(self.namespace@, method@, text::opt_text(gate.caller)) == Err::<
                    MountStepView,
                    PlexusErrorView,
                >(e@),
            },
            match r {
                Ok(MountStep::List) => method@ == LIST_METHOD_NAME@,
                Ok(MountStep::Enter { tenant, rest }) => {
                    &&& gate.caller is Some
                    &&& tenant@ == gate.caller->0@
                    &&& method@ == tenant@ + seq!['.'] + rest@
                    &&& !tenant@.contains('.')
                },
                Err(_) => true,
            },
    {
        proof {
            if method@.contains('.') {
                text::lemma_cut_rejoins(method@, '.');
            }
        }
        if same_text(method, LIST_METHOD_NAME) {
            return Ok(MountStep::List);
        }
        match split_first(method, '.') {
            None => {
                let mut m = join3(method, ": a tenant mount is addressed as '", self.namespace.as_str());
                m.append(".<tenant>.<activation>.<method>'");
                Err(PlexusError::MethodNotFound { activation: self.namespace.clone(), method: m })
            },
            Some((segment, rest)) => match gate.admit_segment(segment) {
                Ok(tenant) => Ok(MountStep::Enter { tenant, rest }),
                Err(refusal) => Err(PlexusError::from(refusal)),
            },
        }
    }

    /// Whether an admitted tenant's subtree was found, or the error that there is none.
    pub fn entered(&self, found: bool) -> (r: Result<(), PlexusError>)
        ensures
            match r {
                Ok(_) => found,
                Err(e) => !found && e@ == refusal_error(MountRefusal::NoSuchTenant),
            },
    {
        if found {
            Ok(())
        } else {
            Err(PlexusError::from(MountRefusal::NoSuchTenant))
        }
    }
}

/// A segment that can name no tenant is refused whoever calls: the answer needs no resolved
/// tenant, and so does every answer but those on a safe segment.
pub proof fn law_the_segment_is_looked_at_first(namespace: Seq<char>, method: Seq<char>, caller: Option<Seq<char>>)
    ensures
        method.contains('.') && !is_safe_segment(text::before_first(method, '.')) && method != LIST_METHOD_NAME@
            ==> dispatched(namespace, method, caller) == Err::<MountStepView, PlexusErrorView>(
            refusal_error(MountRefusal::UnsafeSegment),
        ),
        dispatched(namespace, method, None) is Err && !(dispatched(namespace, method, None)->Err_0 is Unauthenticated)
            ==> dispatched(namespace, method, caller) == dispatched(namespace, method, None),
{
}

/// A reach into another tenant is answered exactly as a reach into a tenant that does not
/// exist: the answer does not depend on whether the tenant is there.
pub proof fn law_another_tenant_looks_like_none(segment: Seq<char>, mine: Seq<char>)
    requires
        is_safe_segment(segment),
        segment != mine,
    ensures
        admission(segment, Some(mine)) == Err::<Seq<char>, MountRefusal>(MountRefusal::NoSuchTenant),
{
    law_a_safe_segment_is_a_tenant_id(segment);
}

/// A subtree is entered only by a caller whose own tenant it is, and only under a segment
/// that is that tenant's identifier.
pub proof fn law_only_the_own_tenant_is_entered(
    namespace: Seq<char>,
    method: Seq<char>,
    caller: Option<Seq<char>>,
)
    requires
        dispatched(namespace, method, caller) matches Ok(s) && s is Enter,
    ensures
        caller == Some(text::before_first(method, '.')),
        dispatched(namespace, method, caller)->Ok_0->tenant == text::before_first(method, '.'),
        is_safe_segment(text::before_first(method, '.')),
{
}

/// A listing names no tenant but the caller's own, however many there are.
pub proof fn law_a_listing_names_only_the_own_tenant(caller: Option<Seq<char>>, items: Seq<JsonView>, i: int)
    requires
        json::json_get(listing(caller), "tenants"@) == Some(JsonView::Array(items)),
        0 <= i < items.len(),
    ensures
        caller is Some,
        json::json_get(items[i], ID_FIELD@) == Some(JsonView::Text(caller->0)),
{
    let listed = match caller {
        Some(t) => seq![JsonView::Object(json::put(Seq::empty(), ID_FIELD@, JsonView::Text(t)))],
        None => Seq::empty(),
    };
    json::law_put_then_read(Seq::empty(), "tenants"@, JsonView::Array(listed), "tenants"@);
    if caller is Some {
        json::law_put_then_read(Seq::empty(), ID_FIELD@, JsonView::Text(caller->0), ID_FIELD@);
    }
}

/// A caller without a tenant enters no subtree.
pub proof fn law_nobody_enters(namespace: Seq<char>, method: Seq<char>)
    ensures
        dispatched(namespace, method, None) matches Ok(s) ==> s is List,
{
}

/// A tenant is entered exactly by a caller whose own it is, under its own name, where that name
/// can be one. A name that can be none is refused as such, whoever calls; a caller without a
/// tenant is told to sign in, and any other that there is no such tenant.
pub proof fn law_a_tenant_is_entered_by_its_own(segment: Seq<char>, caller: Option<Seq<char>>)
    ensures
        admission(segment, caller) is Ok <==> is_safe_segment(segment) && caller == Some(segment),
        admission(segment, caller) matches Ok(t) ==> t == segment,
        !is_safe_segment(segment) ==> admission(segment, caller) == Err::<Seq<char>, MountRefusal>(
            MountRefusal::UnsafeSegment,
        ),
        is_safe_segment(segment) && caller is None ==> admission(segment, caller) == Err::<Seq<char>, MountRefusal>(
            MountRefusal::Unauthenticated,
        ),
        is_safe_segment(segment) && caller is Some && caller->0 != segment ==> admission(segment, caller) == Err::<
            Seq<char>,
            MountRefusal,
        >(MountRefusal::NoSuchTenant),
{
    if is_safe_segment(segment) {
        law_a_safe_segment_is_a_tenant_id(segment);
    }
}

/// A call on a mount of a name, a dot and anything enters the tenant of that name, where the caller
/// may, with what stands behind the dot; else it is answered with why not. The listing is there
/// for everybody, and any other name without a dot leads nowhere.
pub proof fn law_a_call_on_a_mount_enters_what_it_names(
    namespace: Seq<char>,
    segment: Seq<char>,
    rest: Seq<char>,
    caller: Option<Seq<char>>,
)
    requires
        !segment.contains('.'),
    ensures
        is_safe_segment(segment) && caller == Some(segment) ==> dispatched(
            namespace,
            segment + seq!['.'] + rest,
            caller,
        ) == Ok::<MountStepView, PlexusErrorView>(MountStepView::Enter { tenant: segment, rest }),
        is_safe_segment(segment) && caller is None ==> dispatched(namespace, segment + seq!['.'] + rest, caller) == Err::<
            MountStepView,
            PlexusErrorView,
        >(refusal_error(MountRefusal::Unauthenticated)),
        is_safe_segment(segment) && caller is Some && caller->0 != segment ==> dispatched(
            namespace,
            segment + seq!['.'] + rest,
            caller,
        ) == Err::<MountStepView, PlexusErrorView>(refusal_error(MountRefusal::NoSuchTenant)),
        !is_safe_segment(segment) ==> dispatched(namespace, segment + seq!['.'] + rest, caller) == Err::<
            MountStepView,
            PlexusErrorView,
        >(refusal_error(MountRefusal::UnsafeSegment)),
        segment == "list"@ ==> dispatched(namespace, segment, caller) == Ok::<MountStepView, PlexusErrorView>(
            MountStepView::List,
        ),
        segment != "list"@ ==> dispatched(namespace, segment, caller) is Err && dispatched(
            namespace,
            segment,
            caller,
        )->Err_0 is MethodNotFound && dispatched(namespace, segment, caller)->Err_0->activation == namespace
            && text::starts_with(dispatched(namespace, segment, caller)->Err_0->method, segment),
{
    let method = segment + seq!['.'] + rest;
    text::lemma_join_cuts(segment, '.', rest);
    law_a_tenant_is_entered_by_its_own(segment, caller);
    reveal_strlit("list");
    assert(!"list"@.contains('.'));
    assert(method != LIST_METHOD_NAME@);
    let told = segment + ": a tenant mount is addressed as '"@ + namespace + ".<tenant>.<activation>.<method>'"@;
    assert(told.take(segment.len() as int) =~= segment);
}

/// Of a text in ASCII: it can name a tenant exactly where it has between 1 and 256 characters, is
/// none of the names that the mount keeps, and holds no slash, backslash, dot, colon, blank or
/// control character.
pub proof fn law_a_segment_is_safe_by_its_characters(s: Seq<char>)
    requires
        forall|i: int| 0 <= i < s.len() ==> '\0' <= #[trigger] s[i] <= '\u{7f}',
    ensures
        is_safe_segment(s) <==> {
            &&& 0 < s.len() <= 256
            &&& s != "list"@ && s != "schema"@ && s != "connectome"@
            &&& forall|i: int|
                0 <= i < s.len() ==> {
                    &&& #[trigger] s[i] != '/'
                    &&& s[i] != '\\'
                    &&& s[i] != '.'
                    &&& s[i] != ':'
                    &&& (s[i] as int) > 0x20
                    &&& (s[i] as int) != 0x7f
                }
        },
{
    let bytes = vstd::utf8::encode_utf8(s);
    assert(vstd::utf8::is_ascii_chars(s));
    vstd::utf8::is_ascii_chars_encode_utf8(s);
    assert(bytes.len() == s.len());
    assert forall|i: int| 0 <= i < s.len() implies #[trigger] bytes[i] == s[i] as u8 && bytes[i] as int == s[i] as int by {
        assert(s[i] <= '\u{7f}');
    }
    if is_safe_segment(s) {
        assert forall|i: int| 0 <= i < s.len() implies {
            &&& #[trigger] s[i] != '/'
            &&& s[i] != '\\'
            &&& s[i] != '.'
            &&& s[i] != ':'
            &&& (s[i] as int) > 0x20
            &&& (s[i] as int) != 0x7f
        } by {
            assert(!is_unsafe_byte(bytes[i]));
        }
    }
}

/// A caller with a tenant is listed that tenant, once; a caller without one is listed none.
pub proof fn law_a_listing_names_the_own_tenant(mine: Seq<char>)
    ensures
        json::json_get(listing(None), "tenants"@) == Some(JsonView::Array(Seq::empty())),
        json::json_get(listing(Some(mine)), "tenants"@) is Some,
        json::json_get(listing(Some(mine)), "tenants"@)->0 is Array,
        ({
            let items = json::json_get(listing(Some(mine)), "tenants"@)->0->Array_0;
            items.len() == 1 && json::json_get(items[0], "tenant_id"@) == Some(JsonView::Text(mine))
        }),
{
    let item = JsonView::Object(json::put(Seq::empty(), ID_FIELD@, JsonView::Text(mine)));
    json::law_put_then_read(Seq::empty(), "tenants"@, JsonView::Array(Seq::empty()), "tenants"@);
    json::law_put_then_read(Seq::empty(), "tenants"@, JsonView::Array(seq![item]), "tenants"@);
    json::law_put_then_read(Seq::empty(), ID_FIELD@, JsonView::Text(mine), ID_FIELD@);
}

/// A refusal tells its kind, and no more: one asks to sign in, one is answered as an unknown method,
/// one as bad parameters; the code of each is its own.
pub proof fn law_a_refusal_tells_its_kind(a: MountRefusal, b: MountRefusal)
    ensures
        refusal_error(a) is Unauthenticated <==> a == MountRefusal::Unauthenticated,
        refusal_error(a) is MethodNotFound <==> a == MountRefusal::NoSuchTenant,
        refusal_error(a) is InvalidParams <==> a == MountRefusal::UnsafeSegment,
        refusal_code(a) == refusal_code(b) ==> a == b,
{
    reveal_strlit("tenant_mount:unauthenticated");
    reveal_strlit("tenant_mount:no_such_tenant");
    reveal_strlit("tenant_mount:unsafe_segment");
    assert("tenant_mount:unauthenticated"@.len() == 28);
    assert("tenant_mount:no_such_tenant"@.len() == 27);
    assert("tenant_mount:unsafe_segment"@.len() == 27);
    assert("tenant_mount:no_such_tenant"@[13] == 'n' && "tenant_mount:unsafe_segment"@[13] == 'u');
}

} // verus!
