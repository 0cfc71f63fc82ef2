//! Where a call goes: past the scope gate, to the hub itself, to an activation, or nowhere.

use crate::auth::AuthContext;
use crate::json::Json;
use crate::outside;
use crate::outside::{method_path_accepts, method_path_rejection, uuid_text};
use crate::plexus::capabilities;
use crate::plexus::credential_envelope::AttachmentSite;
use crate::plexus::error::{PlexusError, PlexusErrorView};
use crate::plexus::hub;
use crate::plexus::hub::{ActivationRecord, DynamicHub, Records};
use crate::plexus::registry;
use crate::plexus::schema;
use crate::plexus::schema::MethodSchema;
use crate::plexus::scope_gate;
use crate::plexus::scope_gate::{empty_registry, enforce, AuditFacts, MethodGateInfo};
use crate::plexus::streaming::PlexusStreamItem;
use crate::table;
use crate::table::sorted_keys;
use crate::text;
use crate::text::{dotted_text, has_suffix, join2, join3, same_text, split_first};
use plexus_auth_core::ScopeRegistry;
use vstd::prelude::*;

verus! {

/// Where a call goes.
pub enum Destination<'a> {
    /// To a method of the hub itself.
    Own { method: &'a str },
    /// To a method of an activation.
    Activation { record: &'a ActivationRecord, method: &'a str },
}

/// What `Destination` says.
pub enum DestinationView {
    Own { method: Seq<char> },
    Activation { namespace: Seq<char>, method: Seq<char> },
}

/// Where a call goes by its name: to the hub itself where its namespace is the hub's, else to
/// the activation of that namespace.
pub open spec fn destination(root: Seq<char>, dom: Set<Seq<char>>, method: Seq<char>) -> Result<
    DestinationView,
    PlexusErrorView,
> {
    if !method.contains('.') {
        Err(PlexusErrorView::InvalidParams("Invalid method format: "@ + method))
    } else {
        let namespace = text::before_first(method, '.');
        let name = text::after_first(method, '.');
        if namespace == root {
            Ok(DestinationView::Own { method: name })
        } else if dom.contains(namespace) {
            Ok(DestinationView::Activation { namespace, method: name })
        } else {
            Err(PlexusErrorView::ActivationNotFound(namespace))
        }
    }
}

/// Whether a destination is the one that is meant.
pub open spec fn leads_to(d: Destination, v: DestinationView, map: Records) -> bool {
    match (d, v) {
        (Destination::Own { method }, DestinationView::Own { method: m }) => method@ == m,
        (
            Destination::Activation { record, method },
            DestinationView::Activation { namespace, method: m },
        ) => method@ == m && map.dom().contains(namespace) && *record == map[namespace],
        _ => false,
    }
}

/// Whether a result is a destination or the error that is meant.
pub open spec fn is_destination(
    r: Result<Destination, PlexusError>,
    v: Result<DestinationView, PlexusErrorView>,
    map: Records,
) -> bool {
    match (r, v) {
        (Ok(d), Ok(dv)) => leads_to(d, dv, map),
        (Err(e), Err(ev)) => e@ == ev,
        _ => false,
    }
}

/// Whether a method asks for a schema, of the activation itself or of one below it.
pub open spec fn asks_for_schema(method: Seq<char>) -> bool {
    method == "schema"@ || text::ends_with(method, ".schema"@)
}

/// Whether a content type is that of a schema.
pub open spec fn is_schema_type(content_type: Seq<char>) -> bool {
    text::ends_with(content_type, ".schema"@) || text::ends_with(content_type, ".method_schema"@)
}

/// Whether a content type is that of a schema.
pub fn is_schema_content(content_type: &str) -> (r: bool)
    ensures
        r == is_schema_type(content_type@),
{
    has_suffix(content_type, ".schema") || has_suffix(content_type, ".method_schema")
}

/// The content of an item that carries a schema, which is to be given hints.
pub open spec fn schema_payload(item: PlexusStreamItem) -> Option<Json> {
    match item {
        PlexusStreamItem::Data { metadata, content_type, content } => if is_schema_type(content_type@) {
            Some(content)
        } else {
            None
        },
        _ => None,
    }
}

/// The content of an item that carries a schema.
pub fn schema_content(item: &PlexusStreamItem) -> (r: Option<&Json>)
    ensures
        match r {
            Some(content) => schema_payload(*item) == Some(*content),
            None => schema_payload(*item) is None,
        },
{
    match item {
        PlexusStreamItem::Data { metadata, content_type, content } => if is_schema_content(content_type.as_str()) {
            Some(content)
        } else {
            None
        },
        _ => None,
    }
}

/// An item of a stream whose schemas are given hints. `refilled` is the hinted schema, or
/// nothing where the content is no schema after all. Every other item stays as it is, and so
/// does one without a hinted schema.
pub fn fill_site_hints_in_item(item: PlexusStreamItem, refilled: Option<Json>) -> (r: PlexusStreamItem)
    ensures
        schema_payload(item) is None || refilled is None ==> r == item,
        schema_payload(item) is Some ==> (refilled matches Some(content) ==> r == (PlexusStreamItem::Data {
            metadata: item->Data_metadata,
            content_type: item->content_type,
            content,
        })),
{
    match item {
        PlexusStreamItem::Data { metadata, content_type, content } => {
            if is_schema_content(content_type.as_str()) {
                match refilled {
                    Some(filled) => PlexusStreamItem::Data { metadata, content_type, content: filled },
                    None => PlexusStreamItem::Data { metadata, content_type, content },
                }
            } else {
                PlexusStreamItem::Data { metadata, content_type, content }
            }
        },
        other => other,
    }
}

/// The last of the methods of a namespace that a path names.
pub open spec fn last_named(namespace: Seq<char>, methods: Seq<MethodSchema>, path: Seq<char>) -> Option<MethodSchema>
    decreases methods.len(),
{
    if methods.len() == 0 {
        None
    } else if text::dotted(namespace, methods.last().name@) == path {
        Some(methods.last())
    } else {
        last_named(namespace, methods.drop_last(), path)
    }
}

/// The method of an activation that a path names, those of later activations before those of
/// earlier ones.
pub open spec fn method_named(map: Records, ks: Seq<Seq<char>>, path: Seq<char>) -> Option<MethodSchema>
    decreases ks.len(),
{
    if ks.len() == 0 {
        None
    } else {
        let s = map[ks.last()].plugin_schema;
        match last_named(s.namespace@, s.methods@, path) {
            Some(m) => Some(m),
            None => method_named(map, ks.drop_last(), path),
        }
    }
}

/// What the scope gate is told of a path: what the method that it names declares. The hub's own
/// methods declare nothing.
pub open spec fn gate_info(map: Records, path: Seq<char>) -> (bool, Seq<Seq<char>>) {
    match method_named(map, table::keys_in_order(map.dom()), path) {
        Some(m) => (m.public, schema::demanded_of(m)),
        None => (false, Seq::empty()),
    }
}

/// Whether a registry is the configured one, or the one that declares nothing.
pub open spec fn is_in_force(configured: Option<ScopeRegistry>, r: ScopeRegistry) -> bool {
    match configured {
        Some(c) => r == c,
        None => {
            &&& outside::public_methods(r) == Set::<Seq<char>>::empty()
            &&& outside::scope_overlays(r).dom() == Set::<Seq<char>>::empty()
            &&& outside::role_grants(r).dom() == Set::<Seq<char>>::empty()
        },
    }
}

/// What becomes of a call.
pub struct Routing<'a> {
    /// Where it goes, or the error that it is answered with.
    pub target: Result<Destination<'a>, PlexusError>,
    /// What is to be audited before the answer.
    pub audit: Option<AuditFacts>,
    /// The hint that schemas in the answer are given.
    pub site_hint: Option<AttachmentSite>,
}

/// Where a call goes that a gate has ruled on.
pub open spec fn admitted(
    ruling: scope_gate::Ruling,
    root: Seq<char>,
    dom: Set<Seq<char>>,
    method: Seq<char>,
) -> Result<DestinationView, PlexusErrorView> {
    match scope_gate::answer(ruling, method) {
        Err(e) => Err(e),
        Ok(_) => destination(root, dom, method),
    }
}

/// Whether an audit entry is the one that is meant.
pub open spec fn is_audit(facts: Option<AuditFacts>, v: Option<scope_gate::AuditView>) -> bool {
    match (facts, v) {
        (Some(f), Some(a)) => f@ == a,
        (None, None) => true,
        _ => false,
    }
}

/// The site that a hub's capabilities imply.
pub open spec fn hub_site<P>(h: DynamicHub<P>) -> Option<capabilities::SiteView> {
    match h.auth_capabilities {
        Some(c) => capabilities::implied_site(c),
        None => None,
    }
}

/// Whether a hint is the site that is meant.
pub open spec fn is_hint(hint: Option<AttachmentSite>, v: Option<capabilities::SiteView>) -> bool {
    match (hint, v) {
        (Some(s), Some(sv)) => capabilities::is_site(s, sv),
        (None, None) => true,
        _ => false,
    }
}

/// Whether a routing is what becomes of a call by a caller. The scope gate rules where scopes or a
/// default were configured; a hub with neither routes by name alone and audits nothing. An
/// answer that is a schema gets the hint that the hub's capabilities imply.
pub open spec fn is_routing<P>(
    h: DynamicHub<P>,
    method: Seq<char>,
    caller: Option<scope_gate::CallerView>,
    r: Routing,
) -> bool {
    &&& h.scope_registry is None && !h.default_deny ==> r.audit is None && is_destination(
        r.target,
        destination(h.namespace@, h.activations@.dom(), method),
        h.activations@,
    )
    &&& h.scope_registry is Some || h.default_deny ==> exists|reg: ScopeRegistry| #[trigger]
        is_in_force(h.scope_registry, reg) && is_gated(h, reg, method, caller, r)
    &&& match r.target {
        Ok(_) => is_hint(
            r.site_hint,
            if asks_for_schema(text::after_first(method, '.')) {
                hub_site(h)
            } else {
                None
            },
        ),
        Err(_) => r.site_hint is None,
    }
}

/// Whether a routing is what becomes of a call that a registry rules on.
pub open spec fn is_gated<P>(
    h: DynamicHub<P>,
    reg: ScopeRegistry,
    method: Seq<char>,
    caller: Option<scope_gate::CallerView>,
    r: Routing,
) -> bool {
    let ruling = scope_gate::registry_rule(reg, h.default_deny, method, gate_info(h.activations@, method), caller);
    &&& is_audit(r.audit, scope_gate::audit_entry(ruling, method, caller))
    &&& is_destination(r.target, admitted(ruling, h.namespace@, h.activations@.dom(), method), h.activations@)
}

fn find_named<'a>(namespace: &str, methods: &'a Vec<MethodSchema>, path: &str) -> (r: Option<&'a MethodSchema>)
    ensures
        match r {
            Some(m) => last_named(namespace@, methods@, path@) == Some(*m),
            None => last_named(namespace@, methods@, path@) is None,
        },
{
    let mut i: usize = methods.len();
    assert(methods@.take(methods@.len() as int) =~= methods@);
    while i > 0
        invariant
            i <= methods.len(),
            last_named(namespace@, methods@, path@) == last_named(namespace@, methods@.take(i as int), path@),
        decreases i,
    {
        assert(methods@.take(i as int).last() == methods@[i - 1]);
        assert(methods@.take(i as int).drop_last() =~= methods@.take(i - 1));
        if same_text(dotted_text(namespace, methods[i - 1].name.as_str()).as_str(), path) {
            return Some(&methods[i - 1]);
        }
        i -= 1;
    }
    None
}

impl<P> DynamicHub<P> {
    /// The two parts of a call's name.
    pub fn parse_method<'a>(&self, method: &'a str) -> (r: Result<(&'a str, &'a str), PlexusError>)
        ensures
            match r {
                Ok(p) => method@.contains('.') && p.0@ == text::before_first(method@, '.') && p.1@
                    == text::after_first(method@, '.'),
                Err(e) => !method@.contains('.') && e@ == PlexusErrorView::InvalidParams(
                    "Invalid method format: "@ + method@,
                ),
            },
    {
        match split_first(method, '.') {
            Some(p) => Ok(p),
            None => Err(PlexusError::InvalidParams(join2("Invalid method format: ", method))),
        }
    }

    /// Where a call goes by its name.
    pub fn destination<'a>(&'a self, method: &'a str) -> (r: Result<Destination<'a>, PlexusError>)
        ensures
            is_destination(
                r,
                destination(self.namespace@, self.activations@.dom(), method@),
                self.activations@,
            ),
    {
        match self.parse_method(method) {
            Err(e) => Err(e),
            Ok((namespace, name)) => if same_text(namespace, self.namespace.as_str()) {
                Ok(Destination::Own { method: name })
            } else {
                match self.activations.get(&namespace.to_owned()) {
                    Some(record) => Ok(Destination::Activation { record, method: name }),
                    None => Err(PlexusError::ActivationNotFound(namespace.to_owned())),
                }
            },
        }
    }

    /// What the scope gate is told of a path.
    pub fn gate_info(&self, path: &str) -> (r: Option<MethodGateInfo>)
        ensures
            scope_gate::info_view(
                match r {
                    Some(i) => Some(&i),
                    None => None,
                },
            ) == gate_info(self.activations@, path@),
    {
        let keys = sorted_keys(&self.activations);
        let ghost ks = text::texts(keys@);
        let mut i: usize = keys.len();
        assert(ks.take(ks.len() as int) =~= ks);
        while i > 0
            invariant
                i <= keys.len(),
                ks == text::texts(keys@),
                ks == table::keys_in_order(self.activations@.dom()),
                forall|k: Seq<char>| #[trigger] ks.contains(k) <==> self.activations@.dom().contains(k),
                method_named(self.activations@, ks, path@) == method_named(
                    self.activations@,
                    ks.take(i as int),
                    path@,
                ),
            decreases i,
        {
            proof {
                assert(ks[i - 1] == keys@[i - 1]@);
                assert(ks.contains(ks[i - 1]));
                assert(ks.take(i as int).last() == ks[i - 1]);
                assert(ks.take(i as int).drop_last() =~= ks.take(i - 1));
            }
            match self.activations.get(&keys[i - 1]) {
                Some(a) => match find_named(
                    a.plugin_schema.namespace.as_str(),
                    &a.plugin_schema.methods,
                    path,
                ) {
                    Some(m) => {
                        return Some(MethodGateInfo::from_schema(m));
                    },
                    None => {},
                },
                None => {},
            }
            i -= 1;
        }
        None
    }

    /// The site that the hub's capabilities imply.
    pub fn derived_site_hint(&self) -> (r: Option<AttachmentSite>)
        ensures
            is_hint(r, hub_site(*self)),
    {
        match &self.auth_capabilities {
            Some(c) => c.implied_attachment_site(),
            None => None,
        }
    }

    /// Whether a method asks for a schema.
    pub fn is_schema_query(method: &str) -> (r: bool)
        ensures
            r == asks_for_schema(method@),
    {
        same_text(method, "schema") || has_suffix(method, ".schema")
    }

    /// What becomes of a call. The scope gate rules first, where scopes or a default were
    /// configured; a hub with neither routes by name alone and audits nothing.
    pub fn route_with_ctx<'a>(&'a self, method: &'a str, auth: Option<&AuthContext>) -> (r: Routing<'a>)
        ensures
            is_routing(*self, method@, scope_gate::caller_view(auth), r),
    {
        let mut audit: Option<AuditFacts> = None;
        let ghost caller = scope_gate::caller_view(auth);
        let ghost mut ruled: scope_gate::Ruling = scope_gate::Ruling::Pass;
        let ghost mut in_force: Option<ScopeRegistry> = None;
        if self.scope_registry.is_some() || self.default_deny {
            let info = self.gate_info(method);
            let verdict = match &self.scope_registry {
                Some(reg) => {
                    proof {
                        in_force = Some(*reg);
                    }
                    enforce(reg, self.default_deny, method, info.as_ref(), auth)
                },
                None => {
                    let reg = empty_registry();
                    proof {
                        in_force = Some(reg);
                    }
                    enforce(&reg, self.default_deny, method, info.as_ref(), auth)
                },
            };
            proof {
                let reg = in_force->0;
                ruled = scope_gate::registry_rule(
                    reg,
                    self.default_deny,
                    method@,
                    gate_info(self.activations@, method@),
                    caller,
                );
                assert(is_in_force(self.scope_registry, reg));
                assert(scope_gate::carries_out(verdict, ruled, method@, caller));
            }
            audit = verdict.audit;
            match verdict.outcome {
                Err(e) => {
                    return Routing { target: Err(e), audit, site_hint: None };
                },
                Ok(_) => {},
            }
        }
        let target = self.destination(method);
        let site_hint = match &target {
            Ok(d) => {
                let name = match d {
                    Destination::Own { method } => *method,
                    Destination::Activation { method, .. } => *method,
                };
                if DynamicHub::<P>::is_schema_query(name) {
                    self.derived_site_hint()
                } else {
                    None
                }
            },
            Err(_) => None,
        };
        Routing { target, audit, site_hint }
    }

    /// What becomes of a call without the context of its request.
    pub fn route<'a>(&'a self, method: &'a str, auth: Option<&AuthContext>) -> (r: Routing<'a>)
        ensures
            is_routing(*self, method@, scope_gate::caller_view(auth), r),
    {
        self.route_with_ctx(method, auth)
    }

    /// The help text of a method of an activation.
    pub fn get_method_help(&self, method: &str) -> (r: Option<String>)
        ensures
            text::opt_text(r) == ({
                let namespace = text::before_first(method@, '.');
                if method@.contains('.') && self.activations@.dom().contains(namespace) {
                    hub::first_help(self.activations@[namespace].methods@, text::after_first(method@, '.'))
                } else {
                    None::<Seq<char>>
                }
            }),
    {
        match split_first(method, '.') {
            None => None,
            Some((namespace, name)) => match self.activations.get(&namespace.to_owned()) {
                Some(a) => a.method_help(name),
                None => None,
            },
        }
    }

    /// The activation that a handle belongs to: the one at the path that is registered for
    /// its identifier.
    pub fn do_resolve_handle(&self, plugin_id: u128) -> (r: Result<&ActivationRecord, PlexusError>)
        ensures
            match registry::path_of(self.registry.by_id@, plugin_id) {
                None => r is Err && r->Err_0@ == PlexusErrorView::ActivationNotFound(outside::uuid_form(plugin_id)),
                Some(path) => if self.activations@.dom().contains(path) {
                    r is Ok && *r->Ok_0 == self.activations@[path]
                } else {
                    r is Err && r->Err_0@ == PlexusErrorView::ActivationNotFound(path)
                },
            },
    {
        match self.registry.lookup(plugin_id) {
            None => Err(PlexusError::ActivationNotFound(uuid_text(plugin_id))),
            Some(path) => match self.activations.get(&path.to_owned()) {
                Some(a) => Ok(a),
                None => Err(PlexusError::ActivationNotFound(path.to_owned())),
            },
        }
    }
}

/// The error of a call through a hub that is gone.
pub fn hub_dropped() -> (r: PlexusError)
    ensures
        r@ == PlexusErrorView::ExecutionError("Parent hub has been dropped"@),
{
    PlexusError::ExecutionError("Parent hub has been dropped".to_owned())
}

/// What a router does next with a method that is not its own.
pub enum ChildStep<'a> {
    /// It looks for the child of a name.
    Find { child: &'a str },
    /// It calls the child that was found: with what is asked of it, and under the path that a
    /// forwarding policy is told.
    Call { child: &'a str, rest: &'a str, callee: String },
}

/// What `ChildStep` says.
pub enum ChildStepView {
    Find { child: Seq<char> },
    Call { child: Seq<char>, rest: Seq<char>, callee: Seq<char> },
}

/// What a step says.
pub open spec fn child_step_view(s: ChildStep) -> ChildStepView {
    match s {
        ChildStep::Find { child } => ChildStepView::Find { child: child@ },
        ChildStep::Call { child, rest, callee } => ChildStepView::Call {
            child: child@,
            rest: rest@,
            callee: callee@,
        },
    }
}

/// What a router does next with a method that is not its own, or the error that answers it.
/// `found` tells, once it is known, whether there is a child of the name before the first
/// dot.
pub open spec fn child_route(router: Seq<char>, method: Seq<char>, found: Option<bool>) -> Result<
    ChildStepView,
    PlexusErrorView,
> {
    let child = text::before_first(method, '.');
    let rest = text::after_first(method, '.');
    let callee = text::dotted(child, rest);
    if !method.contains('.') {
        Err(PlexusErrorView::MethodNotFound { activation: router, method })
    } else {
        match found {
            None => Ok(ChildStepView::Find { child }),
            Some(false) => Err(PlexusErrorView::ActivationNotFound(child)),
            Some(true) => if outside::is_method_path(callee) {
                Ok(ChildStepView::Call { child, rest, callee })
            } else {
                Err(
                    PlexusErrorView::ExecutionError(
                        "framework-built MethodPath rejected: "@ + callee + " ("@ + outside::rejection_form(callee)
                            + ")"@,
                    ),
                )
            },
        }
    }
}

/// What a router does next with a method that is not its own, or the error that answers it.
pub fn route_to_child<'a>(router_namespace: &str, method: &'a str, found: Option<bool>) -> (r: Result<
    ChildStep<'a>,
    PlexusError,
>)
    ensures
        match r {
            Ok(s) => child_route(router_namespace@, method@, found) == Ok::<ChildStepView, PlexusErrorView>(
                child_step_view(s),
            ),
            Err(e) => child_route(router_namespace@, method@, found) == Err::<ChildStepView, PlexusErrorView>(e@),
        },
        match r {
            Ok(ChildStep::Find { child }) => found is None && text::starts_with(method@, child@ + seq!['.'])
                && !child@.contains('.'),
            Ok(ChildStep::Call { child, rest, callee }) => found == Some(true) && method@ == child@ + seq!['.'] + rest@
                && callee@ == method@ && !child@.contains('.'),
            Err(e) => !method@.contains('.') || found == Some(false) || !outside::is_method_path(method@),
        },
{
    proof {
        law_nothing_of_a_routed_name_is_lost(router_namespace@, method@, found);
        if method@.contains('.') {
            text::lemma_cut_rejoins(method@, '.');
        }
    }
    match split_first(method, '.') {
        None => Err(
            PlexusError::MethodNotFound { activation: router_namespace.to_owned(), method: method.to_owned() },
        ),
        Some((child, rest)) => match found {
            None => Ok(ChildStep::Find { child }),
            Some(false) => Err(PlexusError::ActivationNotFound(child.to_owned())),
            Some(true) => {
                let callee = dotted_text(child, rest);
                if method_path_accepts(callee.as_str()) {
                    Ok(ChildStep::Call { child, rest, callee })
                } else {
                    let why = method_path_rejection(callee.as_str());
                    let mut m = join3("framework-built MethodPath rejected: ", callee.as_str(), " (");
                    m.append(why.as_str());
                    m.append(")");
                    Err(PlexusError::ExecutionError(m))
                }
            },
        },
    }
}

/// The path that a forwarding policy is told is the method as it was called.
pub proof fn law_the_callee_is_the_method(router: Seq<char>, method: Seq<char>)
    requires
        child_route(router, method, Some(true)) is Ok,
    ensures
        child_route(router, method, Some(true))->Ok_0->callee == method,
{
    text::lemma_cut_rejoins(method, '.');
    assert(text::dotted(text::before_first(method, '.'), text::after_first(method, '.')) =~= method);
}

/// A hub without scopes and without a default of denying decides by name alone: who calls
/// makes no difference, and nothing is audited.
pub proof fn law_an_unconfigured_hub_decides_by_name_alone<P>(
    h: DynamicHub<P>,
    method: Seq<char>,
    caller: Option<scope_gate::CallerView>,
    other: Option<scope_gate::CallerView>,
    r: Routing,
)
    requires
        h.scope_registry is None,
        !h.default_deny,
        is_routing(h, method, caller, r),
    ensures
        is_routing(h, method, other, r),
        r.audit is None,
        is_destination(r.target, destination(h.namespace@, h.activations@.dom(), method), h.activations@),
{
}

/// The document of a hub does not pass for a schema: it is never given hints.
pub proof fn law_a_document_is_no_schema(namespace: Seq<char>)
    ensures
        !is_schema_type(text::dotted(namespace, "connectome"@)),
        !asks_for_schema("connectome"@),
{
    reveal_strlit("connectome");
    reveal_strlit("schema");
    reveal_strlit(".schema");
    reveal_strlit(".method_schema");
    let t = text::dotted(namespace, "connectome"@);
    assert(t.last() == 'e');
    assert(".schema"@.last() == 'a');
    assert(".method_schema"@.last() == 'a');
    assert("connectome"@.last() == 'e');
    assert("connectome"@.len() != "schema"@.len());
}

/// The hub's own namespace comes first: a call to it goes to the hub itself, whatever is
/// registered.
pub proof fn law_the_root_comes_first(root: Seq<char>, dom: Set<Seq<char>>, name: Seq<char>)
    requires
        !root.contains('.'),
    ensures
        destination(root, dom, text::dotted(root, name)) == Ok::<DestinationView, PlexusErrorView>(
            DestinationView::Own { method: name },
        ),
{
    text::lemma_join_cuts(root, '.', name);
    assert(text::dotted(root, name) =~= root + seq!['.'] + name);
}

/// Every method of a registered activation can be reached, for an activation never has the
/// hub's own namespace.
pub proof fn law_a_registered_activation_is_reached<P>(h: DynamicHub<P>, namespace: Seq<char>, name: Seq<char>)
    requires
        h.wf(),
        h.activations@.dom().contains(namespace),
        !namespace.contains('.'),
    ensures
        destination(h.namespace@, h.activations@.dom(), text::dotted(namespace, name)) == Ok::<
            DestinationView,
            PlexusErrorView,
        >(DestinationView::Activation { namespace, method: name }),
{
    text::lemma_join_cuts(namespace, '.', name);
    assert(text::dotted(namespace, name) =~= namespace + seq!['.'] + name);
}

/// A call to a namespace that nobody has is answered with that namespace and nothing else.
pub proof fn law_an_unknown_namespace_is_named(root: Seq<char>, dom: Set<Seq<char>>, method: Seq<char>)
    requires
        method.contains('.'),
        text::before_first(method, '.') != root,
        !dom.contains(text::before_first(method, '.')),
    ensures
        destination(root, dom, method) == Err::<DestinationView, PlexusErrorView>(
            PlexusErrorView::ActivationNotFound(text::before_first(method, '.')),
        ),
{
}

/// A handle reaches the activation that was registered last under its identifier.
pub proof fn law_a_handle_reaches_its_activation<P>(
    before: DynamicHub<P>,
    after: DynamicHub<P>,
    activation: ActivationRecord,
)
    requires
        after.activations@ == before.activations@.insert(activation.namespace@, activation),
        registry::registers(
            before.registry,
            after.registry,
            activation.plugin_id,
            activation.namespace@,
            activation.namespace@,
        ),
    ensures
        registry::path_of(after.registry.by_id@, activation.plugin_id) == Some(activation.namespace@),
        after.activations@[activation.namespace@] == activation,
{
}

/// A call of a child's name, a dot and anything goes on to that child with what stands behind the
/// dot: the router looks for the child, answers that there is none where there is none, and calls
/// the one that is found, under the name as it was called. A name that makes no method path is
/// answered with the name and why it is none.
pub proof fn law_a_child_is_asked_for_what_stands_behind_its_name(
    router: Seq<char>,
    child: Seq<char>,
    rest: Seq<char>,
)
    requires
        !child.contains('.'),
    ensures
        ({
            let method = child + seq!['.'] + rest;
            &&& child_route(router, method, None) == Ok::<ChildStepView, PlexusErrorView>(
                ChildStepView::Find { child },
            )
            &&& child_route(router, method, Some(false)) == Err::<ChildStepView, PlexusErrorView>(
                PlexusErrorView::ActivationNotFound(child),
            )
            &&& outside::is_method_path(method) ==> child_route(router, method, Some(true)) == Ok::<
                ChildStepView,
                PlexusErrorView,
            >(ChildStepView::Call { child, rest, callee: method })
            &&& !outside::is_method_path(method) ==> child_route(router, method, Some(true)) == Err::<
                ChildStepView,
                PlexusErrorView,
            >(
                PlexusErrorView::ExecutionError(
                    "framework-built MethodPath rejected: "@ + method + " ("@ + outside::rejection_form(method)
                        + ")"@,
                ),
            )
        }),
{
    text::lemma_join_cuts(child, '.', rest);
    assert(text::dotted(child, rest) =~= child + seq!['.'] + rest);
}

/// A name without a dot leads to no child: it is answered as a method that the router does not
/// have, whatever children there are.
pub proof fn law_a_name_without_a_dot_leads_to_no_child(router: Seq<char>, method: Seq<char>, found: Option<bool>)
    requires
        !method.contains('.'),
    ensures
        child_route(router, method, found) == Err::<ChildStepView, PlexusErrorView>(
            PlexusErrorView::MethodNotFound { activation: router, method },
        ),
{
}

/// However a call gets to a child, nothing of its name is lost: the child's name, a dot and what
/// the child is asked for are together the method as it was called, and the child's name has no
/// dot.
pub proof fn law_nothing_of_a_routed_name_is_lost(router: Seq<char>, method: Seq<char>, found: Option<bool>)
    ensures
        match child_route(router, method, found) {
            Ok(ChildStepView::Call { child, rest, callee }) => found == Some(true) && child + seq!['.'] + rest == method
                && callee == method && !child.contains('.'),
            Ok(ChildStepView::Find { child }) => found is None && text::starts_with(method, child + seq!['.'])
                && !child.contains('.'),
            Err(_) => true,
        },
{
    if method.contains('.') {
        text::lemma_cut_rejoins(method, '.');
        let child = text::before_first(method, '.');
        let rest = text::after_first(method, '.');
        assert(text::dotted(child, rest) =~= method);
        assert(method.take((child + seq!['.']).len() as int) =~= child + seq!['.']);
    }
}

/// A call goes where its name says: the hub's own names to the hub, those of an activation to the
/// activation, each with what stands behind the first dot; any other namespace is answered as
/// unknown, and a name without a dot as malformed.
pub proof fn law_a_call_goes_where_its_name_says(
    root: Seq<char>,
    dom: Set<Seq<char>>,
    namespace: Seq<char>,
    name: Seq<char>,
)
    requires
        !namespace.contains('.'),
    ensures
        namespace == root ==> destination(root, dom, namespace + seq!['.'] + name) == Ok::<
            DestinationView,
            PlexusErrorView,
        >(DestinationView::Own { method: name }),
        namespace != root && dom.contains(namespace) ==> destination(root, dom, namespace + seq!['.'] + name) == Ok::<
            DestinationView,
            PlexusErrorView,
        >(DestinationView::Activation { namespace, method: name }),
        namespace != root && !dom.contains(namespace) ==> destination(root, dom, namespace + seq!['.'] + name) == Err::<
            DestinationView,
            PlexusErrorView,
        >(PlexusErrorView::ActivationNotFound(namespace)),
        destination(root, dom, namespace) == Err::<DestinationView, PlexusErrorView>(
            PlexusErrorView::InvalidParams("Invalid method format: "@ + namespace),
        ),
{
    text::lemma_join_cuts(namespace, '.', name);
}

/// A call that a hub with scopes or a default of denying does not refuse goes exactly where it
/// would go without them, and one that it refuses goes nowhere.
pub proof fn law_the_gate_changes_no_destination(
    ruling: scope_gate::Ruling,
    root: Seq<char>,
    dom: Set<Seq<char>>,
    method: Seq<char>,
)
    ensures
        scope_gate::answer(ruling, method) is Ok ==> admitted(ruling, root, dom, method) == destination(
            root,
            dom,
            method,
        ),
        scope_gate::answer(ruling, method) matches Err(e) ==> admitted(ruling, root, dom, method) == Err::<
            DestinationView,
            PlexusErrorView,
        >(e),
{
}

proof fn lemma_last_named(namespace: Seq<char>, methods: Seq<MethodSchema>, path: Seq<char>)
    ensures
        match last_named(namespace, methods, path) {
            Some(m) => exists|i: int|
                0 <= i < methods.len() && #[trigger] methods[i] == m && namespace + seq!['.'] + m.name@ == path && forall|
                    j: int,
                |
                    i < j < methods.len() ==> namespace + seq!['.'] + (#[trigger] methods[j]).name@ != path,
            None => forall|j: int|
                0 <= j < methods.len() ==> namespace + seq!['.'] + (#[trigger] methods[j]).name@ != path,
        },
    decreases methods.len(),
{
    if methods.len() > 0 {
        let last = methods.len() - 1;
        if text::dotted(namespace, methods.last().name@) == path {
            assert(methods[last] == methods.last());
        } else {
            let rest = methods.drop_last();
            lemma_last_named(namespace, rest, path);
            match last_named(namespace, rest, path) {
                Some(m) => {
                    let i = choose|i: int|
                        0 <= i < rest.len() && #[trigger] rest[i] == m && namespace + seq!['.'] + m.name@ == path && forall|
                            j: int,
                        |
                            i < j < rest.len() ==> namespace + seq!['.'] + (#[trigger] rest[j]).name@ != path;
                    assert(methods[i] == m);
                    assert forall|j: int| i < j < methods.len() implies namespace + seq!['.'] + (
                    #[trigger] methods[j]).name@ != path by {
                        if j < last {
                            assert(rest[j] == methods[j]);
                        }
                    }
                },
                None => {
                    assert forall|j: int| 0 <= j < methods.len() implies namespace + seq!['.'] + (
                    #[trigger] methods[j]).name@ != path by {
                        if j < last {
                            assert(rest[j] == methods[j]);
                        }
                    }
                },
            }
        }
    }
}

proof fn lemma_method_named(map: Records, ks: Seq<Seq<char>>, path: Seq<char>)
    ensures
        match method_named(map, ks, path) {
            Some(m) => exists|k: int, i: int|
                #![trigger ks[k], map[ks[k]].plugin_schema.methods@[i]]
                0 <= k < ks.len() && 0 <= i < map[ks[k]].plugin_schema.methods@.len()
                    && map[ks[k]].plugin_schema.methods@[i] == m && map[ks[k]].plugin_schema.namespace@ + seq!['.']
                    + m.name@ == path,
            None => forall|k: int, i: int|
                #![trigger ks[k], map[ks[k]].plugin_schema.methods@[i]]
                0 <= k < ks.len() && 0 <= i < map[ks[k]].plugin_schema.methods@.len()
                    ==> map[ks[k]].plugin_schema.namespace@ + seq!['.'] + map[ks[k]].plugin_schema.methods@[i].name@
                    != path,
        },
    decreases ks.len(),
{
    if ks.len() > 0 {
        let last = ks.len() - 1;
        let s = map[ks.last()].plugin_schema;
        let rest = ks.drop_last();
        lemma_last_named(s.namespace@, s.methods@, path);
        lemma_method_named(map, rest, path);
        assert(ks[last] == ks.last());
        match last_named(s.namespace@, s.methods@, path) {
            Some(m) => {
                let i = choose|i: int| 0 <= i < s.methods@.len() && #[trigger] s.methods@[i] == m;
                assert(map[ks[last]].plugin_schema.methods@[i] == m);
            },
            None => {
                match method_named(map, rest, path) {
                    Some(m) => {
                        let (k, i) = choose|k: int, i: int|
                            #![trigger rest[k], map[rest[k]].plugin_schema.methods@[i]]
                            0 <= k < rest.len() && 0 <= i < map[rest[k]].plugin_schema.methods@.len()
                                && map[rest[k]].plugin_schema.methods@[i] == m && map[rest[k]].plugin_schema.namespace@
                                + seq!['.'] + m.name@ == path;
                        assert(ks[k] == rest[k]);
                        assert(map[ks[k]].plugin_schema.methods@[i] == m);
                    },
                    None => {
                        assert forall|k: int, i: int|
                            #![trigger ks[k], map[ks[k]].plugin_schema.methods@[i]]
                            0 <= k < ks.len() && 0 <= i
                                < map[ks[k]].plugin_schema.methods@.len() implies map[ks[k]].plugin_schema.namespace@
                            + seq!['.'] + map[ks[k]].plugin_schema.methods@[i].name@ != path by {
                            if k < last {
                                assert(rest[k] == ks[k]);
                            }
                        }
                    },
                }
            },
        }
    }
}

/// What a decision on a path starts from is what a method of that path declares, with its namespace and
/// its name: whether it is public, and the scopes that its credential demands. Where no method
/// has the path, it starts from nothing.
pub proof fn law_the_gate_is_told_what_the_method_declares(map: Records, path: Seq<char>)
    requires
        map.dom().finite(),
    ensures
        (exists|k: Seq<char>, i: int|
            #![trigger map[k].plugin_schema.methods@[i]]
            map.dom().contains(k) && 0 <= i < map[k].plugin_schema.methods@.len()
                && map[k].plugin_schema.namespace@ + seq!['.'] + map[k].plugin_schema.methods@[i].name@ == path
                && gate_info(map, path).0 == map[k].plugin_schema.methods@[i].public && gate_info(map, path).1 == (
            match map[k].plugin_schema.methods@[i].requires_credential {
                Some(c) => text::texts(c.scopes@),
                None => Seq::empty(),
            })) || (gate_info(map, path) == (false, Seq::<Seq<char>>::empty()) && forall|k: Seq<char>, i: int|
            #![trigger map[k].plugin_schema.methods@[i]]
            map.dom().contains(k) && 0 <= i < map[k].plugin_schema.methods@.len()
                ==> map[k].plugin_schema.namespace@ + seq!['.'] + map[k].plugin_schema.methods@[i].name@ != path),
{
    let ks = table::keys_in_order(map.dom());
    table::lemma_keys_in_order(map.dom());
    lemma_method_named(map, ks, path);
    match method_named(map, ks, path) {
        Some(m) => {
            let (k, i) = choose|k: int, i: int|
                #![trigger ks[k], map[ks[k]].plugin_schema.methods@[i]]
                0 <= k < ks.len() && 0 <= i < map[ks[k]].plugin_schema.methods@.len()
                    && map[ks[k]].plugin_schema.methods@[i] == m && map[ks[k]].plugin_schema.namespace@ + seq!['.']
                    + m.name@ == path;
            assert(ks.contains(ks[k]));
            assert(map[ks[k]].plugin_schema.methods@[i] == m);
        },
        None => {
            assert forall|k: Seq<char>, i: int|
                #![trigger map[k].plugin_schema.methods@[i]]
                map.dom().contains(k) && 0 <= i
                    < map[k].plugin_schema.methods@.len() implies map[k].plugin_schema.namespace@ + seq!['.']
                + map[k].plugin_schema.methods@[i].name@ != path by {
                assert(ks.contains(k));
                let p = choose|p: int| 0 <= p < ks.len() && ks[p] == k;
                assert(ks[p] == k);
                assert(map[ks[p]].plugin_schema.methods@[i] == map[k].plugin_schema.methods@[i]);
            }
        },
    }
}

proof fn lemma_target_is_named(root: Seq<char>, map: Records, method: Seq<char>, target: Result<Destination, PlexusError>)
    requires
        is_destination(target, destination(root, map.dom(), method), map),
    ensures
        is_named_by(root, map, method, target),
{
    if method.contains('.') {
        text::lemma_cut_rejoins(method, '.');
        assert(map.dom().contains(text::before_first(method, '.')) || target is Err || text::before_first(method, '.')
            == root);
    }
}

/// Whether a destination is the one that a method names: the hub itself where the method is the
/// hub's namespace, a dot and what is asked for; an activation where it is the activation's
/// namespace, a dot and what is asked for, and that namespace is not the hub's.
pub open spec fn is_named_by(
    root: Seq<char>,
    map: Records,
    method: Seq<char>,
    target: Result<Destination, PlexusError>,
) -> bool {
    match target {
        Ok(Destination::Own { method: name }) => method == root + seq!['.'] + name@,
        Ok(Destination::Activation { record, method: name }) => exists|namespace: Seq<char>| #[trigger]
            map.dom().contains(namespace) && namespace != root && *record == map[namespace] && method == namespace
                + seq!['.'] + name@,
        Err(_) => true,
    }
}

/// A call gets where its name says or nowhere, whoever calls and whatever is decided: it never
/// reaches another activation, nor another method of the one that it names.
pub proof fn law_a_call_never_goes_astray<P>(
    h: DynamicHub<P>,
    method: Seq<char>,
    caller: Option<scope_gate::CallerView>,
    r: Routing,
)
    requires
        is_routing(h, method, caller, r),
    ensures
        is_named_by(h.namespace@, h.activations@, method, r.target),
{
    if h.scope_registry is Some || h.default_deny {
        let reg = choose|reg: ScopeRegistry| #[trigger]
            is_in_force(h.scope_registry, reg) && is_gated(h, reg, method, caller, r);
        let ruling = scope_gate::registry_rule(reg, h.default_deny, method, gate_info(h.activations@, method), caller);
        if r.target is Ok {
            assert(scope_gate::answer(ruling, method) is Ok);
            lemma_target_is_named(h.namespace@, h.activations@, method, r.target);
        }
    } else {
        lemma_target_is_named(h.namespace@, h.activations@, method, r.target);
    }
}

/// A hub whose registry overlays a method with scopes lets a call to it through only where somebody
/// has signed in who holds each of them, unless the method is public.
pub proof fn law_a_hub_lets_nobody_past_its_overlay<P>(
    h: DynamicHub<P>,
    method: Seq<char>,
    caller: Option<scope_gate::CallerView>,
    r: Routing,
)
    requires
        is_routing(h, method, caller, r),
        h.scope_registry is Some,
        r.target is Ok,
        outside::is_method_path(method),
        !outside::public_methods(h.scope_registry->0).contains(method),
        !gate_info(h.activations@, method).0,
        outside::scope_overlays(h.scope_registry->0).dom().contains(method),
        outside::scope_overlays(h.scope_registry->0)[method] != seq![method],
    ensures
        scope_gate::somebody_calls(caller),
        forall|i: int|
            0 <= i < outside::scope_overlays(h.scope_registry->0)[method].len() ==> scope_gate::caller_holds(
                outside::role_grants(h.scope_registry->0),
                caller,
                #[trigger] outside::scope_overlays(h.scope_registry->0)[method][i],
            ),
        r.audit is Some,
        r.audit->0.decision == scope_gate::AuditDecision::Allow,
{
    let reg = h.scope_registry->0;
    let info = gate_info(h.activations@, method);
    let ruling = scope_gate::registry_rule(reg, h.default_deny, method, info, caller);
    assert(is_gated(h, reg, method, caller, r));
    assert(scope_gate::answer(ruling, method) is Ok);
    let v = scope_gate::GateVerdict { outcome: Ok(()), audit: r.audit };
    assert(scope_gate::carries_out(v, ruling, method, caller));
    scope_gate::law_the_overlay_binds(v, reg, h.default_deny, method, info, caller);
}

/// An answer is given a hint exactly where a schema is asked for, of an activation itself or of one
/// below it, and the hub's capabilities imply one.
pub proof fn law_a_schema_is_given_the_implied_hint<P>(
    h: DynamicHub<P>,
    namespace: Seq<char>,
    asked: Seq<char>,
    below: Seq<char>,
    caller: Option<scope_gate::CallerView>,
    r: Routing,
)
    requires
        !namespace.contains('.'),
        is_routing(h, namespace + seq!['.'] + asked, caller, r),
        r.target is Ok,
    ensures
        asked == "schema"@ || asked == below + ".schema"@ ==> (r.site_hint is Some <==> h.auth_capabilities is Some
            && capabilities::implied_site(h.auth_capabilities->0) is Some) && (r.site_hint matches Some(s)
            ==> capabilities::is_site(s, capabilities::implied_site(h.auth_capabilities->0)->0)),
        asked.len() == 0 || asked.last() != 'a' ==> r.site_hint is None,
{
    text::lemma_join_cuts(namespace, '.', asked);
    reveal_strlit("schema");
    reveal_strlit(".schema");
    let tail = below + ".schema"@;
    assert(tail.skip(tail.len() - ".schema"@.len()) =~= ".schema"@);
    assert("schema"@.last() == 'a' && ".schema"@.last() == 'a');
    if text::ends_with(asked, ".schema"@) {
        assert(asked.skip(asked.len() - ".schema"@.len()).last() == asked.last());
    }
}

/// What is a schema by its content type is given a hint, whosever it is.
pub proof fn law_every_schema_counts_as_one(namespace: Seq<char>)
    ensures
        is_schema_type(namespace + ".schema"@),
        is_schema_type(namespace + ".method_schema"@),
{
    let a = namespace + ".schema"@;
    let b = namespace + ".method_schema"@;
    assert(a.skip(a.len() - ".schema"@.len()) =~= ".schema"@);
    assert(b.skip(b.len() - ".method_schema"@.len()) =~= ".method_schema"@);
}

/// A hub that was given no scopes and denies what is undeclared lets nobody in but to the methods
/// that their activations declare public: there is no role that would grant anything.
pub proof fn law_a_denying_hub_without_scopes_opens_what_is_public<P>(
    h: DynamicHub<P>,
    method: Seq<char>,
    caller: Option<scope_gate::CallerView>,
    r: Routing,
)
    requires
        is_routing(h, method, caller, r),
        h.scope_registry is None,
        h.default_deny,
        r.target is Ok,
    ensures
        outside::is_method_path(method),
        gate_info(h.activations@, method).0,
{
    let reg = choose|reg: ScopeRegistry| #[trigger]
        is_in_force(h.scope_registry, reg) && is_gated(h, reg, method, caller, r);
    let info = gate_info(h.activations@, method);
    let ruling = scope_gate::registry_rule(reg, true, method, info, caller);
    assert(scope_gate::answer(ruling, method) is Ok);
    let v = scope_gate::GateVerdict { outcome: Ok(()), audit: r.audit };
    assert(scope_gate::carries_out(v, ruling, method, caller));
    if !outside::is_method_path(method) {
        scope_gate::law_a_malformed_name_goes_by_the_default(v, reg, true, method, info, caller);
    } else if !info.0 {
        assert(!outside::public_methods(reg).contains(method));
        assert(!outside::scope_overlays(reg).dom().contains(method));
        if info.1.len() > 0 {
            scope_gate::law_declared_scopes_bind(v, reg, true, method, info, caller);
            assert(scope_gate::caller_holds(outside::role_grants(reg), caller, info.1[0]));
        } else {
            assert(info.1 =~= Seq::empty());
            scope_gate::law_an_undeclared_method_goes_by_the_default(v, reg, true, method, caller);
            assert(seq![method][0] == method);
            assert(scope_gate::caller_holds(outside::role_grants(reg), caller, seq![method][0]));
        }
    }
}

/// What a method declares binds at the hub too: where no overlay stands in its place, a call gets
/// through only if somebody has signed in who holds each declared scope, and it is audited.
pub proof fn law_a_hub_lets_nobody_past_what_a_method_declares<P>(
    h: DynamicHub<P>,
    method: Seq<char>,
    caller: Option<scope_gate::CallerView>,
    r: Routing,
)
    requires
        is_routing(h, method, caller, r),
        h.scope_registry is Some,
        r.target is Ok,
        outside::is_method_path(method),
        !outside::public_methods(h.scope_registry->0).contains(method),
        !gate_info(h.activations@, method).0,
        gate_info(h.activations@, method).1.len() > 0,
        !outside::scope_overlays(h.scope_registry->0).dom().contains(method) || outside::scope_overlays(
            h.scope_registry->0,
        )[method] == seq![method],
    ensures
        scope_gate::somebody_calls(caller),
        forall|i: int|
            0 <= i < gate_info(h.activations@, method).1.len() ==> scope_gate::caller_holds(
                outside::role_grants(h.scope_registry->0),
                caller,
                #[trigger] gate_info(h.activations@, method).1[i],
            ),
        r.audit is Some,
        r.audit->0.decision == scope_gate::AuditDecision::Allow,
{
    let reg = h.scope_registry->0;
    let info = gate_info(h.activations@, method);
    let ruling = scope_gate::registry_rule(reg, h.default_deny, method, info, caller);
    assert(is_gated(h, reg, method, caller, r));
    assert(scope_gate::answer(ruling, method) is Ok);
    let v = scope_gate::GateVerdict { outcome: Ok(()), audit: r.audit };
    assert(scope_gate::carries_out(v, ruling, method, caller));
    scope_gate::law_declared_scopes_bind(v, reg, h.default_deny, method, info, caller);
}

/// A hub where nothing was configured lets every call through to where its name says, and audits
/// none.
pub proof fn law_a_hub_without_rules_routes_by_name<P>(
    h: DynamicHub<P>,
    method: Seq<char>,
    caller: Option<scope_gate::CallerView>,
    r: Routing,
)
    requires
        is_routing(h, method, caller, r),
        h.scope_registry is None,
        !h.default_deny,
    ensures
        r.audit is None,
        r.target is Ok <==> destination(h.namespace@, h.activations@.dom(), method) is Ok,
        r.target is Err ==> r.target->Err_0@ == destination(h.namespace@, h.activations@.dom(), method)->Err_0,
        r.target is Ok ==> match r.target->Ok_0 {
            Destination::Own { method: m } => method == h.namespace@ + seq!['.'] + m@,
            Destination::Activation { record, method: m } => exists|n: Seq<char>| #[trigger]
                h.activations@.dom().contains(n) && *record == h.activations@[n] && method == n + seq!['.'] + m@,
        },
{
    law_a_call_never_goes_astray(h, method, caller, r);
    if method.contains('.') {
        text::lemma_cut_rejoins(method, '.');
    }
}

/// What carries a schema is data of a type that ends as that of a schema does, and what is given
/// hints is its content; no other item is touched.
pub proof fn law_only_schemas_are_given_hints(item: PlexusStreamItem)
    ensures
        schema_payload(item) is Some <==> {
            &&& item is Data
            &&& {
                let t = item->content_type@;
                ||| t.len() >= ".schema"@.len() && t.skip(t.len() - ".schema"@.len()) == ".schema"@
                ||| t.len() >= ".method_schema"@.len() && t.skip(t.len() - ".method_schema"@.len()) == ".method_schema"@
            }
        },
        schema_payload(item) matches Some(content) ==> content == item->content,
{
}

/// A hint is there exactly where a site is meant, and is that site; an audit entry is there
/// exactly where one is meant, and says what it should.
pub proof fn law_hint_and_audit_are_what_is_meant(
    hint: Option<AttachmentSite>,
    site: Option<capabilities::SiteView>,
    facts: Option<AuditFacts>,
    entry: Option<scope_gate::AuditView>,
)
    ensures
        is_hint(hint, site) <==> {
            ||| hint is None && site is None
            ||| hint is Some && site is Some && capabilities::is_site(hint->0, site->0)
        },
        is_audit(facts, entry) ==> (facts is Some <==> entry is Some),
        is_audit(None, None),
        is_audit(facts, entry) && facts is Some ==> {
            &&& facts->0.method@ == entry->0.method
            &&& text::opt_text(facts->0.originator) == entry->0.originator
            &&& text::opt_text(facts->0.session_id) == entry->0.session_id
            &&& text::texts(facts->0.roles@) == entry->0.roles
            &&& text::texts(facts->0.scope_required@) == entry->0.scope_required
            &&& facts->0.decision == entry->0.decision
        },
{
}

} // verus!
