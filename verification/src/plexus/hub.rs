//! The hub: which activations there are, where a call goes, and what is shown of them.

use crate::digest;
use crate::ir;
use crate::ir::{ActivationIr, ChildEdge};
use crate::json;
use crate::json::{put_entry, Json, JsonView};
use crate::plexus::capabilities;
use crate::plexus::capabilities::BackendAuthCapabilities;
use crate::plexus::copies;
use crate::plexus::error::{PlexusError, PlexusErrorView};
use crate::plexus::forward_registry::ForwardPolicyRegistry;
use crate::plexus::registry;
use crate::plexus::registry::{PluginRegistry, PluginRegistrySnapshot};
use crate::plexus::schema;
use crate::plexus::schema::{
    schemas_from_help, ChildSummary, ChildView, Collision, MethodHelp, MethodSchema, PluginHashes, PluginSchema,
    Schema,
};
use crate::plexus::wire;
use crate::table;
use crate::table::{sorted_keys, Table};
use crate::text;
use crate::text::{copy_opt, dotted_text, join3, same_text, sort_texts, text_at_most};
use plexus_auth_core::ScopeRegistry;
use std::collections::hash_map::DefaultHasher;
use vstd::prelude::*;
use vstd::std_specs::hash::*;

verus! {

/// The method name that every notification of a subscription carries.
pub const PLEXUS_NOTIF_METHOD: &'static str = "result";

/// The version of the hub itself.
pub const HUB_VERSION: &'static str = "1.0.0";

/// The description of the hub itself.
pub const HUB_DESCRIPTION: &'static str = "Central routing and introspection";

/// An activation in a listing.
#[derive(Debug, Clone, PartialEq, Eq)]
pub struct ActivationInfo {
    pub namespace: String,
    pub version: String,
    pub description: String,
    pub methods: Vec<String>,
}

/// What is sent when a hash is asked for.
#[derive(Debug, Clone, PartialEq, Eq)]
pub enum HashEvent {
    Hash { value: String },
}

/// What is sent when a schema is asked for.
pub enum SchemaEvent {
    Schema(PluginSchema),
}

/// The flag of a router that lists its children.
pub const CAN_LIST: u32 = 1;

/// The flag of a router that searches its children.
pub const CAN_SEARCH: u32 = 2;

/// What a router of children can do beside finding a child by name, as flags.
#[derive(Debug, Clone, Copy, PartialEq, Eq, Structural)]
pub struct ChildCapabilities {
    pub bits: u32,
}

impl ChildCapabilities {
    /// Nothing.
    pub fn empty() -> (r: Self)
        ensures
            r.bits == 0,
    {
        ChildCapabilities { bits: 0 }
    }

    /// Listing.
    pub fn list() -> (r: Self)
        ensures
            r.bits == CAN_LIST,
    {
        ChildCapabilities { bits: CAN_LIST }
    }

    /// Searching.
    pub fn search() -> (r: Self)
        ensures
            r.bits == CAN_SEARCH,
    {
        ChildCapabilities { bits: CAN_SEARCH }
    }

    /// What either of two can do.
    pub fn union(self, other: Self) -> (r: Self)
        ensures
            r.bits == self.bits | other.bits,
    {
        ChildCapabilities { bits: self.bits | other.bits }
    }

    /// Whether all that the other can do is among it.
    pub fn contains(&self, other: Self) -> (r: bool)
        ensures
            r == (self.bits & other.bits == other.bits),
    {
        self.bits & other.bits == other.bits
    }

    /// Whether it is nothing.
    pub fn is_empty(&self) -> (r: bool)
        ensures
            r == (self.bits == 0),
    {
        self.bits == 0
    }
}

/// What the hub knows of a registered activation.
pub struct ActivationRecord {
    pub namespace: String,
    pub version: String,
    pub description: String,
    pub methods: Vec<MethodHelp>,
    pub plugin_id: u128,
    pub plugin_schema: PluginSchema,
    /// The schema of its methods' parameters.
    pub schema: Schema,
    pub capabilities: ChildCapabilities,
    /// The edge that it is under its parent, when it is no plain child.
    pub connectome_edge: Option<ChildEdge>,
    /// Its own document.
    pub connectome_subtree: Option<ActivationIr>,
}

impl ActivationRecord {
    /// What follows of an activation from its names and help texts alone, or the first clash
    /// among its names.
    pub fn described(
        namespace: String,
        version: String,
        description: String,
        long_description: Option<String>,
        methods: Vec<MethodHelp>,
        schema: Schema,
    ) -> (r: Result<Self, Collision>)
        ensures
            match r {
                Ok(a) => {
                    &&& a.namespace@ == namespace@
                    &&& a.version@ == version@
                    &&& a.description@ == description@
                    &&& a.methods == methods
                    &&& a.plugin_id == registry::plugin_id_of(namespace@, version@)
                    &&& a.schema == schema
                    &&& a.capabilities.bits == 0
                    &&& a.connectome_edge is None
                    &&& a.connectome_subtree is None
                    &&& schema::is_hashed(a.plugin_schema)
                    &&& a.plugin_schema.namespace@ == namespace@
                    &&& a.plugin_schema.version@ == version@
                    &&& a.plugin_schema.description@ == description@
                    &&& a.plugin_schema.long_description == long_description
                    &&& a.plugin_schema.children is None
                    &&& a.plugin_schema.request is None
                    &&& a.plugin_schema.deprecation is None
                    &&& a.plugin_schema.methods@.len() == methods@.len()
                    &&& forall|i: int|
                        0 <= i < methods@.len() ==> schema::follows_from(
                            #[trigger] a.plugin_schema.methods@[i],
                            methods@[i],
                        )
                    &&& schema::first_repeat(schema::help_names(methods@), 0) is None
                },
                Err(c) => {
                    &&& c.kind == schema::CollisionKind::DuplicateMethod
                    &&& schema::first_repeat(schema::help_names(methods@), 0) == Some(c.name@)
                },
            },
    {
        let plugin_id = registry::plugin_id(namespace.as_str(), version.as_str());
        match schema::plugin_schema(
            namespace.clone(),
            version.clone(),
            description.clone(),
            long_description,
            &methods,
        ) {
            Err(c) => Err(c),
            Ok(plugin_schema) => Ok(
                ActivationRecord {
                    namespace,
                    version,
                    description,
                    methods,
                    plugin_id,
                    plugin_schema,
                    schema,
                    capabilities: ChildCapabilities::empty(),
                    connectome_edge: None,
                    connectome_subtree: None,
                },
            ),
        }
    }

    /// The same activation with a document of its own.
    pub fn with_connectome_subtree(self, subtree: ActivationIr) -> (r: Self)
        ensures
            r == (ActivationRecord { connectome_subtree: Some(subtree), ..self }),
    {
        let mut a = self;
        a.connectome_subtree = Some(subtree);
        a
    }

    /// The same activation as an edge of its own kind.
    pub fn with_connectome_edge(self, edge: ChildEdge) -> (r: Self)
        ensures
            r == (ActivationRecord { connectome_edge: Some(edge), ..self }),
    {
        let mut a = self;
        a.connectome_edge = Some(edge);
        a
    }

    /// The same activation with what it can do with its children.
    pub fn with_capabilities(self, capabilities: ChildCapabilities) -> (r: Self)
        ensures
            r == (ActivationRecord { capabilities, ..self }),
    {
        let mut a = self;
        a.capabilities = capabilities;
        a
    }

    /// The names of the methods, in order.
    pub fn method_names(&self) -> (r: Vec<String>)
        ensures
            text::texts(r@) == schema::help_names(self.methods@),
    {
        let mut out: Vec<String> = Vec::new();
        let mut i: usize = 0;
        while i < self.methods.len()
            invariant
                i <= self.methods.len(),
                out@.len() == i,
                forall|j: int| 0 <= j < i ==> (#[trigger] out@[j])@ == self.methods@[j].name@,
            decreases self.methods.len() - i,
        {
            out.push(self.methods[i].name.clone());
            i += 1;
        }
        assert(text::texts(out@) =~= schema::help_names(self.methods@));
        out
    }

    /// The help text of the first method with a name.
    pub fn method_help(&self, method: &str) -> (r: Option<String>)
        ensures
            text::opt_text(r) == first_help(self.methods@, method@),
    {
        let mut i: usize = 0;
        assert(self.methods@.skip(0) =~= self.methods@);
        while i < self.methods.len()
            invariant
                i <= self.methods.len(),
                first_help(self.methods@, method@) == first_help(self.methods@.skip(i as int), method@),
            decreases self.methods.len() - i,
        {
            assert(self.methods@.skip(i as int)[0] == self.methods@[i as int]);
            assert(self.methods@.skip(i as int).skip(1) =~= self.methods@.skip(i + 1));
            if same_text(self.methods[i].name.as_str(), method) {
                return copy_opt(&self.methods[i].help);
            }
            i += 1;
        }
        None
    }

    /// What a handle resolves to by default: nothing.
    pub fn resolve_handle(&self) -> (r: PlexusError)
        ensures
            r@ == PlexusErrorView::HandleNotSupported(self.namespace@),
    {
        PlexusError::HandleNotSupported(self.namespace.clone())
    }
}

/// The help text of the first method with a name.
pub open spec fn first_help(methods: Seq<MethodHelp>, name: Seq<char>) -> Option<Seq<char>>
    decreases methods.len(),
{
    if methods.len() == 0 {
        None
    } else if methods[0].name@ == name {
        text::opt_text(methods[0].help)
    } else {
        first_help(methods.skip(1), name)
    }
}

/// The activations of a hub, by namespace.
pub type Records = Map<Seq<char>, ActivationRecord>;

/// The names of the hub's own methods.
pub open spec fn own_names() -> Seq<Seq<char>> {
    seq!["call"@, "hash"@, "hashes"@, "schema"@]
}

/// The descriptions of the hub's own methods.
pub open spec fn own_helps() -> Seq<Seq<char>> {
    seq![
        "Route a call to a registered activation"@,
        "Get plexus configuration hash (from the recursive schema)\n\n This hash changes whenever any method or child plugin changes.\n It's computed from the method hashes rolled up through the schema tree."@,
        "Get plugin hashes for cache validation"@,
        "Return this activation's schema (methods + optional children)"@,
    ]
}

/// A property of a schema with a description.
pub open spec fn described_property(of_type: Option<Seq<char>>, description: Seq<char>) -> JsonView {
    let e = json::put(Seq::empty(), "description"@, JsonView::Text(description));
    JsonView::Object(
        match of_type {
            Some(t) => json::put(e, "type"@, JsonView::Text(t)),
            None => e,
        },
    )
}

fn described_property_json(of_type: Option<&str>, description: &str) -> (r: Json)
    ensures
        r@ == described_property(
            match of_type {
                Some(t) => Some(t@),
                None => None,
            },
            description@,
        ),
{
    let mut e: Vec<(String, Json)> = Vec::new();
    assert(json::entries_view(e@) =~= Seq::empty());
    put_entry(&mut e, "description", Json::text(description));
    match of_type {
        Some(t) => put_entry(&mut e, "type", Json::text(t)),
        None => {},
    }
    proof {
        json::lemma_object_view(e);
    }
    Json::Object(e)
}

/// The schema of the parameters of the hub's own call: the method to call, which is a text and
/// must be given, and its parameters, which are anything and may be left out.
pub open spec fn call_params() -> JsonView {
    let properties = json::put(
        json::put(
            Seq::empty(),
            "method"@,
            described_property(Some("string"@), "The method to call (format: namespace.method)"@),
        ),
        "params"@,
        described_property(None, "Parameters to pass to the method (optional, defaults to {})"@),
    );
    let e = json::put(Seq::empty(), "type"@, JsonView::Text("object"@));
    let e = json::put(e, "properties"@, JsonView::Object(properties));
    JsonView::Object(json::put(e, "required"@, json::text_items(seq!["method"@])))
}

fn call_params_json() -> (r: Json)
    ensures
        r@ == call_params(),
{
    let mut properties: Vec<(String, Json)> = Vec::new();
    assert(json::entries_view(properties@) =~= Seq::empty());
    put_entry(
        &mut properties,
        "method",
        described_property_json(Some("string"), "The method to call (format: namespace.method)"),
    );
    put_entry(
        &mut properties,
        "params",
        described_property_json(None, "Parameters to pass to the method (optional, defaults to {})"),
    );
    proof {
        json::lemma_object_view(properties);
    }
    let mut required: Vec<String> = Vec::new();
    required.push("method".to_owned());
    assert(text::texts(required@) =~= seq!["method"@]);
    let mut e: Vec<(String, Json)> = Vec::new();
    assert(json::entries_view(e@) =~= Seq::empty());
    put_entry(&mut e, "type", Json::text("object"));
    put_entry(&mut e, "properties", Json::Object(properties));
    put_entry(&mut e, "required", Json::text_array(&required));
    proof {
        json::lemma_object_view(e);
    }
    Json::Object(e)
}

/// The hashes of the hub's own methods. The digest of a method's name and description is the
/// library's own: it is not the hash that a declaration of the same method elsewhere may carry.
pub open spec fn own_hashes() -> Seq<Seq<char>> {
    Seq::new(4, |i: int| digest::digest(seq![own_names()[i], own_helps()[i]]))
}

/// Whether a method is the hub's own at a position: no more is declared of it than its name and
/// description, and of a call its two parameters and that it streams.
pub open spec fn is_own(m: MethodSchema, i: int) -> bool {
    &&& m.name@ == own_names()[i]
    &&& m.description@ == own_helps()[i]
    &&& m.hash@ == own_hashes()[i]
    &&& json::opt_json(m.params) == (if i == 0 {
        Some(call_params())
    } else {
        None
    })
    &&& m.returns is None
    &&& m.streaming == (i == 0)
    &&& !m.bidirectional
    &&& m.http_method == schema::HttpMethod::Post
    &&& m.request_type is None
    &&& m.response_type is None
    &&& m.role == schema::MethodRole::Rpc
    &&& m.deprecation is None
    &&& m.return_shape is None
    &&& m.params_meta@.len() == 0
    &&& m.credentials@.len() == 0
    &&& m.requires_credential is None
    &&& !m.public
}

/// Whether methods are the hub's own, in their order.
pub open spec fn are_own(methods: Seq<MethodSchema>) -> bool {
    &&& methods.len() == 4
    &&& forall|i: int| 0 <= i < 4 ==> is_own(#[trigger] methods[i], i)
}

fn own_help() -> (r: Vec<MethodHelp>)
    ensures
        r@.len() == 4,
        forall|i: int|
            0 <= i < 4 ==> (#[trigger] r@[i]).name@ == own_names()[i] && text::opt_text(r@[i].help) == Some(
                own_helps()[i],
            ),
{
    let mut out: Vec<MethodHelp> = Vec::new();
    out.push(
        MethodHelp {
            name: "call".to_owned(),
            help: Some("Route a call to a registered activation".to_owned()),
        },
    );
    out.push(
        MethodHelp {
            name: "hash".to_owned(),
            help: Some(
                "Get plexus configuration hash (from the recursive schema)\n\n This hash changes whenever any method or child plugin changes.\n It's computed from the method hashes rolled up through the schema tree.".to_owned(),
            ),
        },
    );
    out.push(
        MethodHelp { name: "hashes".to_owned(), help: Some("Get plugin hashes for cache validation".to_owned()) },
    );
    out.push(
        MethodHelp {
            name: "schema".to_owned(),
            help: Some("Return this activation's schema (methods + optional children)".to_owned()),
        },
    );
    out
}

/// The schemas of the hub's own methods.
fn own_schemas() -> (r: Vec<MethodSchema>)
    ensures
        are_own(r@),
{
    let help = own_help();
    let mut out = schemas_from_help(&help);
    let ghost before = out@;
    proof {
        assert forall|i: int| 0 <= i < 4 implies {
            &&& (#[trigger] before[i]).name@ == own_names()[i]
            &&& before[i].description@ == own_helps()[i]
            &&& before[i].hash@ == own_hashes()[i]
        } by {
            assert(schema::follows_from(out@[i], help@[i]));
            assert(schema::help_text(help@[i].help) == own_helps()[i]);
        }
    }
    let call = out.remove(0);
    let ghost first = call;
    out.insert(0, call.with_streaming(true).with_params(call_params_json()));
    proof {
        assert forall|i: int| 0 <= i < 4 implies is_own(#[trigger] out@[i], i) by {
            assert(schema::follows_from(before[i], help@[i]));
            if i > 0 {
                assert(out@[i] == before[i]);
            }
        }
    }
    out
}

/// The summary of a registered activation.
pub open spec fn summary_view(a: ActivationRecord) -> ChildView {
    ChildView {
        namespace: a.plugin_schema.namespace@,
        description: a.plugin_schema.description@,
        hash: a.plugin_schema.hash@,
    }
}

/// The namespaces of summaries, in order.
pub open spec fn summary_names(kids: Seq<ChildView>) -> Seq<Seq<char>> {
    Seq::new(kids.len(), |i: int| kids[i].namespace)
}

/// The hashes of summaries, in order.
pub open spec fn summary_hashes(kids: Seq<ChildView>) -> Seq<Seq<char>> {
    Seq::new(kids.len(), |i: int| kids[i].hash)
}

/// Whether summaries are those of activations under keys, one for each, in the order of their
/// namespaces.
pub open spec fn lists_under(kids: Seq<ChildView>, map: Records, ks: Seq<Seq<char>>) -> bool {
    &&& ks.no_duplicates()
    &&& forall|k: Seq<char>| #[trigger] ks.contains(k) <==> map.dom().contains(k)
    &&& kids.len() == ks.len()
    &&& forall|i: int| 0 <= i < kids.len() ==> #[trigger] kids[i] == summary_view(map[ks[i]])
    &&& text::is_sorted(summary_names(kids))
}

/// Whether summaries are those of the activations, one for each, in the order of their
/// namespaces.
pub open spec fn lists_children(kids: Seq<ChildView>, map: Records) -> bool {
    exists|ks: Seq<Seq<char>>| lists_under(kids, map, ks)
}

/// Whether no two activations show the same namespace, and none shows the name of one of the
/// hub's own methods.
pub open spec fn names_are_free(map: Records) -> bool {
    &&& forall|a: Seq<char>, b: Seq<char>| #[trigger]
        map.dom().contains(a) && #[trigger] map.dom().contains(b) && a != b ==> map[a].plugin_schema.namespace@
            != map[b].plugin_schema.namespace@
    &&& forall|a: Seq<char>| #[trigger]
        map.dom().contains(a) ==> !own_names().contains(map[a].plugin_schema.namespace@)
}

/// Whether a schema is the one that a hub of a namespace makes of itself: its own methods, and
/// its activations as children.
pub open spec fn is_hub_schema(namespace: Seq<char>, map: Records, s: PluginSchema) -> bool {
    &&& s.namespace@ == namespace
    &&& s.version@ == HUB_VERSION@
    &&& s.description@ == HUB_DESCRIPTION@
    &&& s.long_description is None
    &&& are_own(s.methods@)
    &&& s.children is Some
    &&& lists_children(schema::child_views(s.children->0@), map)
    &&& schema::is_hashed(s)
    &&& s.hash@ == hub_hash(schema::child_views(s.children->0@))
    &&& s.request is None
    &&& s.deprecation is None
}

/// Whether schemas are that of a hub itself and then copies of those of its activations, in the
/// order of their names.
pub open spec fn lists_schemas(namespace: Seq<char>, map: Records, v: Seq<PluginSchema>) -> bool {
    &&& v.len() == map.dom().len() + 1
    &&& is_hub_schema(namespace, map, v[0])
    &&& forall|j: int|
        0 < j < v.len() ==> copies::copies_plugin(
            #[trigger] v[j],
            map[table::keys_in_order(map.dom())[j - 1]].plugin_schema,
        )
}

/// Whether the hashes of a hub are those of summaries: one for each child, that of the children
/// and that of the whole.
pub open spec fn hashes_list(h: PluginHashes, kids: Seq<ChildView>) -> bool {
    &&& h.hash@ == hub_hash(kids)
    &&& text::opt_text(h.children_hash) == Some(digest::digest(summary_hashes(kids)))
    &&& h.children is Some
    &&& h.children->0@.len() == kids.len()
    &&& forall|i: int|
        0 <= i < kids.len() ==> (#[trigger] h.children->0@[i]).namespace@ == kids[i].namespace
            && h.children->0@[i].hash@ == kids[i].hash
}

/// Whether hashes are those of a hub of a namespace and of its activations.
pub open spec fn is_hub_hashes(namespace: Seq<char>, map: Records, h: PluginHashes) -> bool {
    &&& h.namespace@ == namespace
    &&& h.self_hash@ == digest::digest(own_hashes())
    &&& exists|kids: Seq<ChildView>| #[trigger] lists_children(kids, map) && hashes_list(h, kids)
}

proof fn lemma_listed_names(kids: Seq<ChildView>, map: Records, ks: Seq<Seq<char>>)
    requires
        lists_under(kids, map, ks),
        names_are_free(map),
    ensures
        summary_names(kids).no_duplicates(),
        forall|n: Seq<char>| #[trigger]
            summary_names(kids).contains(n) <==> exists|k: Seq<char>| #[trigger]
                map.dom().contains(k) && map[k].plugin_schema.namespace@ == n,
{
    let names = summary_names(kids);
    assert forall|i: int, j: int| 0 <= i < names.len() && 0 <= j < names.len() && i != j implies names[i]
        != names[j] by {
        assert(kids[i] == summary_view(map[ks[i]]) && kids[j] == summary_view(map[ks[j]]));
        assert(ks.contains(ks[i]) && ks.contains(ks[j]));
        assert(map.dom().contains(ks[i]) && map.dom().contains(ks[j]));
        assert(ks[i] != ks[j]);
    }
    assert forall|n: Seq<char>| #[trigger] names.contains(n) <==> exists|k: Seq<char>| #[trigger]
        map.dom().contains(k) && map[k].plugin_schema.namespace@ == n by {
        if names.contains(n) {
            let i = choose|i: int| 0 <= i < names.len() && names[i] == n;
            assert(kids[i] == summary_view(map[ks[i]]));
            assert(ks.contains(ks[i]));
            assert(map.dom().contains(ks[i]));
        }
        if exists|k: Seq<char>| #[trigger] map.dom().contains(k) && map[k].plugin_schema.namespace@ == n {
            let k = choose|k: Seq<char>| #[trigger] map.dom().contains(k) && map[k].plugin_schema.namespace@ == n;
            assert(ks.contains(k));
            let i = choose|i: int| 0 <= i < ks.len() && ks[i] == k;
            assert(kids[i] == summary_view(map[ks[i]]));
            assert(names[i] == n);
        }
    }
}

/// The summaries follow from what is registered: there is one way to list them.
pub proof fn law_children_follow_from_what_is_registered(a: Seq<ChildView>, b: Seq<ChildView>, map: Records)
    requires
        lists_children(a, map),
        lists_children(b, map),
        names_are_free(map),
    ensures
        a == b,
{
    let ka = choose|ks: Seq<Seq<char>>| lists_under(a, map, ks);
    let kb = choose|ks: Seq<Seq<char>>| lists_under(b, map, ks);
    lemma_listed_names(a, map, ka);
    lemma_listed_names(b, map, kb);
    table::lemma_same_keys(summary_names(a), summary_names(b));
    text::lemma_sorted_unique(summary_names(a), summary_names(b));
    assert(a.len() == b.len()) by {
        assert(summary_names(a).len() == summary_names(b).len());
    }
    assert forall|i: int| 0 <= i < a.len() implies a[i] == b[i] by {
        assert(summary_names(a)[i] == summary_names(b)[i]);
        assert(a[i] == summary_view(map[ka[i]]) && b[i] == summary_view(map[kb[i]]));
        assert(ka.contains(ka[i]) && kb.contains(kb[i]));
        assert(map.dom().contains(ka[i]) && map.dom().contains(kb[i]));
    }
    assert(a =~= b);
}

/// The order of registration does not show: whatever is read of a hub is read of the same
/// activations.
pub proof fn law_registration_order_does_not_show(
    map: Records,
    a: Seq<char>,
    ra: ActivationRecord,
    b: Seq<char>,
    rb: ActivationRecord,
)
    requires
        a != b,
    ensures
        map.insert(a, ra).insert(b, rb) == map.insert(b, rb).insert(a, ra),
{
    assert(map.insert(a, ra).insert(b, rb) =~= map.insert(b, rb).insert(a, ra));
}

/// A hub. `P` is a forwarding policy.
pub struct DynamicHub<P> {
    pub namespace: String,
    pub activations: Table<String, ActivationRecord>,
    pub registry: PluginRegistry,
    pub auth_capabilities: Option<BackendAuthCapabilities>,
    pub forward_policies: ForwardPolicyRegistry<P>,
    pub scope_registry: Option<ScopeRegistry>,
    pub default_deny: bool,
    /// Documents that are embedded in the hub's own, by namespace.
    pub declared_irs: Table<String, ActivationIr>,
    /// Documents that are served and not embedded, by path.
    pub lazy_irs: Table<String, ActivationIr>,
    pub backend_name: Option<String>,
    pub respond_method: Option<String>,
}

/// The message on an activation that has the hub's own namespace.
pub open spec fn shadow_message(child: Seq<char>, root: Seq<char>) -> Seq<char> {
    "DynamicHub namespace shadow: activation namespace '"@ + child + "' collides with the hub root namespace '"@ + root
        + "'. The hub root name is a routing namespace, not a label — routing resolves the root first, so a like-named child activation is unreachable (every '"@
        + child
        + ".<method>' call resolves to the hub root and fails with 'Command not found', and navigation resolves the child back to the root schema). Fix: rename the hub root so it differs from every registered activation's namespace, e.g. DynamicHub::new(\""@
        + root + "_hub\").register(...). [Z2H-8 / HOSTLESS-3]"@
}

impl<P> DynamicHub<P> {
    /// Whether no activation has the hub's own namespace, and every document that is served
    /// has its hashes.
    pub open spec fn wf(&self) -> bool {
        &&& !self.activations@.dom().contains(self.namespace@)
        &&& forall|k: Seq<char>| #[trigger]
            self.lazy_irs@.dom().contains(k) ==> self.lazy_irs@[k]@ == ir::rehashed(self.lazy_irs@[k]@)
    }

    /// Whether nothing is registered with the hub, and nothing configured but its namespace.
    pub open spec fn is_bare(&self, namespace: String) -> bool {
        &&& self.wf()
        &&& self.namespace == namespace
        &&& self.activations@ == Map::<Seq<char>, ActivationRecord>::empty()
        &&& self.registry.by_id@ == Map::<u128, registry::PluginEntry>::empty()
        &&& self.registry.by_path@ == Map::<Seq<char>, u128>::empty()
        &&& self.auth_capabilities is None
        &&& self.forward_policies@ == Map::<Seq<char>, P>::empty()
        &&& self.scope_registry is None
        &&& !self.default_deny
        &&& self.declared_irs@ == Map::<Seq<char>, ActivationIr>::empty()
        &&& self.lazy_irs@ == Map::<Seq<char>, ActivationIr>::empty()
        &&& self.backend_name is None
        &&& self.respond_method is None
    }

    /// A hub without an activation.
    pub fn new(namespace: String) -> (r: Self)
        ensures
            r.is_bare(namespace),
    {
        DynamicHub {
            namespace,
            activations: Table::new(),
            registry: PluginRegistry::new(),
            auth_capabilities: None,
            forward_policies: ForwardPolicyRegistry::new(),
            scope_registry: None,
            default_deny: false,
            declared_irs: Table::new(),
            lazy_irs: Table::new(),
            backend_name: None,
            respond_method: None,
        }
    }

    /// A hub without an activation.
    pub fn with_namespace(namespace: String) -> (r: Self)
        ensures
            r.is_bare(namespace),
    {
        DynamicHub::new(namespace)
    }

    /// The same hub with the name of its backend.
    pub fn with_backend_name(self, name: String) -> (r: Self)
        requires
            name@.len() > 0,
        ensures
            r == (DynamicHub { backend_name: Some(name), ..self }),
    {
        let mut hub = self;
        hub.backend_name = Some(name);
        hub
    }

    /// The same hub with the method through which callback responses come back.
    pub fn with_respond_method(self, method: String) -> (r: Self)
        requires
            method@.len() > 0,
        ensures
            r == (DynamicHub { respond_method: Some(method), ..self }),
    {
        let mut hub = self;
        hub.respond_method = Some(method);
        hub
    }

    /// The same hub with the scopes of a deployment.
    pub fn with_scope_registry(self, registry: ScopeRegistry) -> (r: Self)
        ensures
            r == (DynamicHub { scope_registry: Some(registry), ..self }),
    {
        let mut hub = self;
        hub.scope_registry = Some(registry);
        hub
    }

    /// The same hub, and whether nothing undeclared passes.
    pub fn with_default_deny(self, default_deny: bool) -> (r: Self)
        ensures
            r == (DynamicHub { default_deny, ..self }),
    {
        let mut hub = self;
        hub.default_deny = default_deny;
        hub
    }

    /// The scopes of the deployment.
    pub fn scope_registry(&self) -> (r: Option<&ScopeRegistry>)
        ensures
            match r {
                Some(s) => self.scope_registry == Some(*s),
                None => self.scope_registry is None,
            },
    {
        self.scope_registry.as_ref()
    }

    /// The same hub with a policy for a callee.
    pub fn with_forward_policy(self, callee_ns: String, policy: P) -> (r: Self)
        ensures
            r == (DynamicHub { forward_policies: r.forward_policies, ..self }),
            r.forward_policies@ == self.forward_policies@.insert(callee_ns@, policy),
    {
        let mut hub = self;
        hub.forward_policies.register(callee_ns, policy);
        hub
    }

    /// The policies.
    pub fn forward_policies(&self) -> (r: &ForwardPolicyRegistry<P>)
        ensures
            *r == self.forward_policies,
    {
        &self.forward_policies
    }

    /// The policy of a callee, where one was set.
    pub fn forward_policy_for(&self, callee_ns: &str) -> (r: Option<&P>)
        ensures
            match r {
                Some(p) => self.forward_policies@.dom().contains(callee_ns@) && self.forward_policies@[callee_ns@] == *p,
                None => !self.forward_policies@.dom().contains(callee_ns@),
            },
    {
        self.forward_policies.get(callee_ns)
    }

    /// The same hub with ways to sign in.
    pub fn with_auth_capabilities(self, caps: BackendAuthCapabilities) -> (r: Self)
        ensures
            r == (DynamicHub { auth_capabilities: Some(caps), ..self }),
    {
        let mut hub = self;
        hub.auth_capabilities = Some(caps);
        hub
    }

    /// The ways to sign in, where they were declared.
    pub fn auth_capabilities(&self) -> (r: Option<&BackendAuthCapabilities>)
        ensures
            match r {
                Some(c) => self.auth_capabilities == Some(*c),
                None => self.auth_capabilities is None,
            },
    {
        self.auth_capabilities.as_ref()
    }

    /// The hub's own namespace.
    pub fn runtime_namespace(&self) -> (r: &str)
        ensures
            r@ == self.namespace@,
    {
        self.namespace.as_str()
    }

    /// The registry of identifiers.
    pub fn registry(&self) -> (r: &PluginRegistry)
        ensures
            *r == self.registry,
    {
        &self.registry
    }

    /// The registry of identifiers as it is now.
    pub fn registry_snapshot(&self) -> (r: PluginRegistrySnapshot)
        ensures
            r.registry.by_id@ == self.registry.by_id@,
            r.registry.by_path@ == self.registry.by_path@,
    {
        self.registry.snapshot()
    }

    /// What is wrong with a namespace for an activation: that it is the hub's own.
    pub fn root_shadow(&self, child_namespace: &str) -> (r: Option<String>)
        ensures
            match r {
                Some(m) => child_namespace@ == self.namespace@ && m@ == shadow_message(
                    child_namespace@,
                    self.namespace@,
                ),
                None => child_namespace@ != self.namespace@,
            },
    {
        if !same_text(child_namespace, self.namespace.as_str()) {
            return None;
        }
        let root = self.namespace.as_str();
        let mut m = join3(
            "DynamicHub namespace shadow: activation namespace '",
            child_namespace,
            "' collides with the hub root namespace '",
        );
        m.append(root);
        m.append(
            "'. The hub root name is a routing namespace, not a label — routing resolves the root first, so a like-named child activation is unreachable (every '",
        );
        m.append(child_namespace);
        m.append(
            ".<method>' call resolves to the hub root and fails with 'Command not found', and navigation resolves the child back to the root schema). Fix: rename the hub root so it differs from every registered activation's namespace, e.g. DynamicHub::new(\"",
        );
        m.append(root);
        m.append("_hub\").register(...). [Z2H-8 / HOSTLESS-3]");
        Some(m)
    }

    /// The same hub with an activation more, in place of one with its namespace.
    pub fn register(self, activation: ActivationRecord) -> (r: Self)
        requires
            self.wf(),
            activation.namespace@ != self.namespace@,
        ensures
            r.wf(),
            r == (DynamicHub { activations: r.activations, registry: r.registry, ..self }),
            r.activations@ == self.activations@.insert(activation.namespace@, activation),
            registry::registers(
                self.registry,
                r.registry,
                activation.plugin_id,
                activation.namespace@,
                activation.namespace@,
            ),
    {
        let mut hub = self;
        let namespace = activation.namespace.clone();
        hub.registry.register(activation.plugin_id, namespace.clone(), namespace.clone());
        hub.activations.insert(namespace, activation);
        hub
    }

    /// The same hub with an activation more, in place of one with its namespace.
    pub fn register_hub(self, activation: ActivationRecord) -> (r: Self)
        requires
            self.wf(),
            activation.namespace@ != self.namespace@,
        ensures
            r.wf(),
            r == (DynamicHub { activations: r.activations, registry: r.registry, ..self }),
            r.activations@ == self.activations@.insert(activation.namespace@, activation),
            registry::registers(
                self.registry,
                r.registry,
                activation.plugin_id,
                activation.namespace@,
                activation.namespace@,
            ),
    {
        self.register(activation)
    }

    /// The names of the hub's own methods, in order.
    pub fn methods(&self) -> (r: Vec<String>)
        ensures
            text::texts(r@) == own_names(),
    {
        let mut out: Vec<String> = Vec::new();
        out.push("call".to_owned());
        out.push("hash".to_owned());
        out.push("hashes".to_owned());
        out.push("schema".to_owned());
        assert(text::texts(out@) =~= own_names());
        out
    }

    /// The version of the hub itself.
    pub fn version(&self) -> (r: &'static str)
        ensures
            r@ == HUB_VERSION@,
    {
        HUB_VERSION
    }

    /// The description of the hub itself.
    pub fn description(&self) -> (r: &'static str)
        ensures
            r@ == HUB_DESCRIPTION@,
    {
        HUB_DESCRIPTION
    }

    /// All methods with their namespaces, the hub's own among them, in order.
    pub fn list_methods(&self) -> (r: Vec<String>)
        ensures
            text::texts(r@) == text::in_order(
                all_methods(self.namespace@, self.activations@, table::keys_in_order(self.activations@.dom())),
            ),
    {
        let keys = sorted_keys(&self.activations);
        let ghost ks = text::texts(keys@);
        let mut names: Vec<String> = Vec::new();
        let own = self.methods();
        assert(text::texts(names@) =~= Seq::empty());
        push_dotted(&mut names, self.namespace.as_str(), &own);
        assert(text::texts(names@) =~= dotted_names(self.namespace@, own_names()));
        assert(ks.take(0) =~= Seq::empty());
        let mut i: usize = 0;
        while i < keys.len()
            invariant
                i <= keys.len(),
                ks == text::texts(keys@),
                ks == table::keys_in_order(self.activations@.dom()),
                forall|k: Seq<char>| #[trigger] ks.contains(k) <==> self.activations@.dom().contains(k),
                text::texts(names@) == all_methods(self.namespace@, self.activations@, ks.take(i as int)),
            decreases keys.len() - i,
        {
            proof {
                assert(ks[i as int] == keys@[i as int]@);
                assert(ks.contains(ks[i as int]));
                assert(ks.take(i + 1).drop_last() =~= ks.take(i as int));
                assert(ks.take(i + 1).last() == ks[i as int]);
            }
            match self.activations.get(&keys[i]) {
                Some(a) => {
                    let own = a.method_names();
                    push_dotted(&mut names, keys[i].as_str(), &own);
                },
                None => {},
            }
            i += 1;
        }
        assert(ks.take(ks.len() as int) =~= ks);
        let r = sort_texts(&names);
        proof {
            text::lemma_in_order_is(text::texts(names@), text::texts(r@));
        }
        r
    }

    /// The hub itself and its activations, these in the order of their names.
    pub fn list_activations_info(&self) -> (r: Vec<ActivationInfo>)
        ensures
            r@.len() == self.activations@.dom().len() + 1,
            info_view(r@[0]) == (InfoView {
                namespace: self.namespace@,
                version: HUB_VERSION@,
                description: HUB_DESCRIPTION@,
                methods: own_names(),
            }),
            forall|i: int|
                0 <= i < self.activations@.dom().len() ==> info_view(#[trigger] r@[i + 1]) == info_of(
                    self.activations@[table::keys_in_order(self.activations@.dom())[i]],
                ),
    {
        let keys = sorted_keys(&self.activations);
        let ghost ks = text::texts(keys@);
        let mut out: Vec<ActivationInfo> = Vec::new();
        out.push(
            ActivationInfo {
                namespace: self.namespace.clone(),
                version: HUB_VERSION.to_owned(),
                description: HUB_DESCRIPTION.to_owned(),
                methods: self.methods(),
            },
        );
        let mut i: usize = 0;
        while i < keys.len()
            invariant
                i <= keys.len(),
                ks == text::texts(keys@),
                forall|k: Seq<char>| #[trigger] ks.contains(k) <==> self.activations@.dom().contains(k),
                out@.len() == i + 1,
                info_view(out@[0]) == (InfoView {
                    namespace: self.namespace@,
                    version: HUB_VERSION@,
                    description: HUB_DESCRIPTION@,
                    methods: own_names(),
                }),
                forall|j: int| 1 <= j < i + 1 ==> info_view(#[trigger] out@[j]) == info_of(self.activations@[ks[j - 1]]),
            decreases keys.len() - i,
        {
            proof {
                assert(ks[i as int] == keys@[i as int]@);
                assert(ks.contains(ks[i as int]));
            }
            match self.activations.get(&keys[i]) {
                Some(a) => {
                    out.push(
                        ActivationInfo {
                            namespace: a.namespace.clone(),
                            version: a.version.clone(),
                            description: a.description.clone(),
                            methods: a.method_names(),
                        },
                    );
                },
                None => {},
            }
            i += 1;
        }
        out
    }

    /// The summaries of the activations, in the order of their namespaces.
    pub fn plugin_children(&self) -> (r: Vec<ChildSummary>)
        ensures
            lists_children(schema::child_views(r@), self.activations@),
    {
        let keys = sorted_keys(&self.activations);
        let ghost all = text::texts(keys@);
        let ghost mut ks: Seq<Seq<char>> = Seq::empty();
        let mut kids: Vec<ChildSummary> = Vec::new();
        let mut i: usize = 0;
        while i < keys.len()
            invariant
                i <= keys.len(),
                all == text::texts(keys@),
                all.no_duplicates(),
                forall|k: Seq<char>| #[trigger] all.contains(k) <==> self.activations@.dom().contains(k),
                ks.no_duplicates(),
                forall|k: Seq<char>| #[trigger] ks.contains(k) <==> all.take(i as int).contains(k),
                kids@.len() == ks.len(),
                forall|j: int|
                    0 <= j < kids@.len() ==> (#[trigger] kids@[j])@ == summary_view(self.activations@[ks[j]]),
                forall|a: int, b: int|
                    0 <= a < b < kids@.len() ==> text::text_le(
                        (#[trigger] kids@[a]).namespace@,
                        (#[trigger] kids@[b]).namespace@,
                    ),
            decreases keys.len() - i,
        {
            let ghost k = all[i as int];
            proof {
                assert(k == keys@[i as int]@);
                assert(all.contains(k));
            }
            match self.activations.get(&keys[i]) {
                Some(a) => {
                    let kid = ChildSummary {
                        namespace: a.plugin_schema.namespace.clone(),
                        description: a.plugin_schema.description.clone(),
                        hash: a.plugin_schema.hash.clone(),
                    };
                    let ghost kv = kid@;
                    let ghost before = kids@;
                    let ghost ks_before = ks;
                    let mut p: usize = 0;
                    while p < kids.len() && text_at_most(kids[p].namespace.as_str(), kid.namespace.as_str())
                        invariant
                            kids@ == before,
                            p <= kids.len(),
                            forall|j: int|
                                0 <= j < p ==> text::text_le((#[trigger] before[j]).namespace@, kid.namespace@),
                        decreases kids.len() - p,
                    {
                        p += 1;
                    }
                    let ghost name = kid.namespace@;
                    proof {
                        if p < before.len() {
                            text::lemma_text_le_total(before[p as int].namespace@, name);
                            assert forall|j: int| p <= j < before.len() implies text::text_le(
                                name,
                                (#[trigger] before[j]).namespace@,
                            ) by {
                                if j > p {
                                    text::lemma_text_le_transitive(
                                        name,
                                        before[p as int].namespace@,
                                        before[j].namespace@,
                                    );
                                }
                            }
                        }
                    }
                    kids.insert(p, kid);
                    proof {
                        ks = ks.insert(p as int, k);
                        assert(kids@ =~= before.insert(p as int, kid));
                        assert forall|j: int| 0 <= j < kids@.len() implies (#[trigger] kids@[j])@ == summary_view(
                            self.activations@[ks[j]],
                        ) by {
                            if j < p {
                                assert(kids@[j] == before[j] && ks[j] == ks_before[j]);
                            } else if j > p {
                                assert(kids@[j] == before[j - 1] && ks[j] == ks_before[j - 1]);
                            }
                        }
                        assert forall|a: int, b: int| 0 <= a < b < kids@.len() implies text::text_le(
                            (#[trigger] kids@[a]).namespace@,
                            (#[trigger] kids@[b]).namespace@,
                        ) by {
                            let a0 = if a < p { a } else { a - 1 };
                            let b0 = if b < p { b } else { b - 1 };
                            if a != p {
                                assert(kids@[a] == before[a0]);
                            }
                            if b != p {
                                assert(kids@[b] == before[b0]);
                            }
                        }
                        assert(!ks_before.contains(k)) by {
                            if all.take(i as int).contains(k) {
                                let j = choose|j: int| 0 <= j < i && all.take(i as int)[j] == k;
                                assert(all[j] == all[i as int]);
                            }
                        }
                        assert forall|x: int, y: int| 0 <= x < ks.len() && 0 <= y < ks.len() && x != y implies ks[x]
                            != ks[y] by {
                            let x0 = if x < p { x } else { x - 1 };
                            let y0 = if y < p { y } else { y - 1 };
                            if x == p {
                                assert(ks[y] == ks_before[y0]);
                                assert(ks_before.contains(ks_before[y0]));
                            } else if y == p {
                                assert(ks[x] == ks_before[x0]);
                                assert(ks_before.contains(ks_before[x0]));
                            } else {
                                assert(ks[x] == ks_before[x0] && ks[y] == ks_before[y0]);
                            }
                        }
                        assert forall|n: Seq<char>| #[trigger] ks.contains(n) <==> all.take(i + 1).contains(n) by {
                            if ks.contains(n) {
                                let x = choose|x: int| 0 <= x < ks.len() && ks[x] == n;
                                if x == p {
                                    assert(all.take(i + 1)[i as int] == n);
                                } else {
                                    let x0 = if x < p { x } else { x - 1 };
                                    assert(ks_before[x0] == n);
                                    assert(ks_before.contains(n));
                                    let j = choose|j: int| 0 <= j < i && all.take(i as int)[j] == n;
                                    assert(all.take(i + 1)[j] == n);
                                }
                            }
                            if all.take(i + 1).contains(n) {
                                let part = all.take(i + 1);
                                let j = choose|j: int| 0 <= j < part.len() && part[j] == n;
                                if j == i {
                                    assert(ks[p as int] == n);
                                } else {
                                    assert(all.take(i as int)[j] == n);
                                    assert(ks_before.contains(n));
                                    let x = choose|x: int| 0 <= x < ks_before.len() && ks_before[x] == n;
                                    let x1 = if x < p { x } else { x + 1 };
                                    assert(ks[x1] == n);
                                }
                            }
                        }
                    }
                },
                None => {},
            }
            i += 1;
        }
        proof {
            assert(all.take(all.len() as int) =~= all);
            let views = schema::child_views(kids@);
            let names = summary_names(views);
            assert forall|a: int, b: int| 0 <= a <= b < names.len() implies text::text_le(
                #[trigger] names[a],
                #[trigger] names[b],
            ) by {
                assert(names[a] == kids@[a].namespace@ && names[b] == kids@[b].namespace@);
                if a == b {
                    text::lemma_text_le_total(names[a], names[a]);
                }
            }
            assert forall|j: int| 0 <= j < views.len() implies #[trigger] views[j] == summary_view(
                self.activations@[ks[j]],
            ) by {
                assert(views[j] == kids@[j]@);
            }
            assert forall|k: Seq<char>| #[trigger] ks.contains(k) <==> self.activations@.dom().contains(k) by {
                assert(ks.contains(k) <==> all.contains(k));
            }
            assert(text::is_sorted(names));
            assert(lists_under(views, self.activations@, ks));
        }
        kids
    }
}

/// The names of methods behind a namespace, in order.
pub open spec fn dotted_names(namespace: Seq<char>, methods: Seq<Seq<char>>) -> Seq<Seq<char>> {
    Seq::new(methods.len(), |i: int| text::dotted(namespace, methods[i]))
}

/// The hub's own methods and those of activations, with their namespaces.
pub open spec fn all_methods(namespace: Seq<char>, map: Records, ks: Seq<Seq<char>>) -> Seq<Seq<char>>
    decreases ks.len(),
{
    if ks.len() == 0 {
        dotted_names(namespace, own_names())
    } else {
        all_methods(namespace, map, ks.drop_last()) + dotted_names(
            ks.last(),
            schema::help_names(map[ks.last()].methods@),
        )
    }
}

fn push_dotted(out: &mut Vec<String>, namespace: &str, methods: &Vec<String>)
    ensures
        text::texts(final(out)@) == text::texts(old(out)@) + dotted_names(namespace@, text::texts(methods@)),
{
    let ghost before = text::texts(out@);
    let ghost all = dotted_names(namespace@, text::texts(methods@));
    let mut i: usize = 0;
    assert(before + all.take(0) =~= before);
    while i < methods.len()
        invariant
            i <= methods.len(),
            all == dotted_names(namespace@, text::texts(methods@)),
            text::texts(out@) == before + all.take(i as int),
        decreases methods.len() - i,
    {
        let ghost now = text::texts(out@);
        out.push(dotted_text(namespace, methods[i].as_str()));
        assert(text::texts(out@) =~= now.push(all[i as int]));
        assert(before + all.take(i + 1) =~= now.push(all[i as int]));
        i += 1;
    }
    assert(all.take(all.len() as int) =~= all);
}

/// What an `ActivationInfo` says.
pub struct InfoView {
    pub namespace: Seq<char>,
    pub version: Seq<char>,
    pub description: Seq<char>,
    pub methods: Seq<Seq<char>>,
}

/// What a listed activation says.
pub open spec fn info_view(i: ActivationInfo) -> InfoView {
    InfoView {
        namespace: i.namespace@,
        version: i.version@,
        description: i.description@,
        methods: text::texts(i.methods@),
    }
}

/// What is listed of an activation.
pub open spec fn info_of(a: ActivationRecord) -> InfoView {
    InfoView {
        namespace: a.namespace@,
        version: a.version@,
        description: a.description@,
        methods: schema::help_names(a.methods@),
    }
}

proof fn lemma_no_repeat(names: Seq<Seq<char>>, i: int)
    requires
        names.no_duplicates(),
        0 <= i,
    ensures
        schema::first_repeat(names, i) is None,
    decreases names.len() - i,
{
    if i < names.len() {
        if names.take(i).contains(names[i]) {
            let j = choose|j: int| 0 <= j < i && names.take(i)[j] == names[i];
            assert(names[j] == names[i]);
        }
        lemma_no_repeat(names, i + 1);
    }
}

proof fn lemma_schema_at_misses(methods: Seq<MethodSchema>, name: Seq<char>)
    requires
        forall|i: int| 0 <= i < methods.len() ==> (#[trigger] methods[i]).name@ != name,
    ensures
        schema::schema_at(methods, name) == methods.len(),
    decreases methods.len(),
{
    if methods.len() > 0 {
        let rest = methods.skip(1);
        assert forall|i: int| 0 <= i < rest.len() implies (#[trigger] rest[i]).name@ != name by {
            assert(rest[i] == methods[i + 1]);
        }
        assert(methods[0].name@ != name);
        lemma_schema_at_misses(rest, name);
    }
}

proof fn lemma_children_do_not_clash(methods: Seq<MethodSchema>, kids: Seq<Seq<char>>, i: int)
    requires
        kids.no_duplicates(),
        forall|a: int, b: int|
            0 <= a < methods.len() && 0 <= b < kids.len() ==> (#[trigger] methods[a]).name@ != #[trigger] kids[b],
        0 <= i,
    ensures
        schema::child_clash(methods, kids, i) is None,
    decreases kids.len() - i,
{
    if i < kids.len() {
        lemma_schema_at_misses(methods, kids[i]);
        if kids.take(i).contains(kids[i]) {
            let j = choose|j: int| 0 <= j < i && kids.take(i)[j] == kids[i];
            assert(kids[j] == kids[i]);
        }
        lemma_children_do_not_clash(methods, kids, i + 1);
    }
}

proof fn lemma_own_names_differ()
    ensures
        own_names().no_duplicates(),
{
    reveal_strlit("call");
    reveal_strlit("hash");
    reveal_strlit("hashes");
    reveal_strlit("schema");
    assert("call"@[0] != "hash"@[0]);
    assert("hashes"@[0] != "schema"@[0]);
    assert("call"@.len() == 4 && "hash"@.len() == 4 && "hashes"@.len() == 6 && "schema"@.len() == 6);
    let n = own_names();
    assert(n[0] != n[1] && n[0] != n[2] && n[0] != n[3] && n[1] != n[2] && n[1] != n[3] && n[2] != n[3]);
}

proof fn lemma_hub_does_not_clash(methods: Seq<MethodSchema>, kids: Seq<ChildSummary>, map: Records)
    requires
        are_own(methods),
        lists_children(schema::child_views(kids), map),
        names_are_free(map),
    ensures
        schema::clash(methods, schema::child_names(kids)) is None,
{
    let views = schema::child_views(kids);
    let ks = choose|ks: Seq<Seq<char>>| lists_under(views, map, ks);
    lemma_listed_names(views, map, ks);
    let names = schema::child_names(kids);
    assert(names =~= summary_names(views));
    lemma_own_names_differ();
    assert(schema::schema_names(methods) =~= own_names()) by {
        assert forall|i: int| 0 <= i < 4 implies schema::schema_names(methods)[i] == own_names()[i] by {
            assert(methods[i].name@ == own_names()[i]);
        }
    }
    lemma_no_repeat(own_names(), 0);
    assert forall|a: int, b: int| 0 <= a < methods.len() && 0 <= b < names.len() implies (#[trigger] methods[a]).name@
        != #[trigger] names[b] by {
        assert(methods[a].name@ == own_names()[a]);
        assert(names.contains(names[b]));
        let k = choose|k: Seq<char>| #[trigger]
            map.dom().contains(k) && map[k].plugin_schema.namespace@ == names[b];
        assert(!own_names().contains(map[k].plugin_schema.namespace@));
        if methods[a].name@ == names[b] {
            assert(own_names()[a] == names[b]);
        }
    }
    lemma_children_do_not_clash(methods, names, 0);
}

proof fn lemma_schema_at_hits(methods: Seq<MethodSchema>, name: Seq<char>, a: int)
    requires
        0 <= a < methods.len(),
        methods[a].name@ == name,
    ensures
        0 <= schema::schema_at(methods, name) <= a,
    decreases methods.len(),
{
    if methods[0].name@ != name {
        assert(methods.skip(1)[a - 1] == methods[a]);
        lemma_schema_at_hits(methods.skip(1), name, a - 1);
    }
}

proof fn lemma_unclashed_children(methods: Seq<MethodSchema>, kids: Seq<Seq<char>>, i: int, b: int)
    requires
        are_own(methods),
        schema::child_clash(methods, kids, i) is None,
        0 <= i <= b < kids.len(),
    ensures
        !own_names().contains(kids[b]),
        !kids.take(b).contains(kids[b]),
    decreases kids.len() - i,
{
    let at = schema::schema_at(methods, kids[i]);
    if own_names().contains(kids[i]) {
        let a = choose|a: int| 0 <= a < 4 && own_names()[a] == kids[i];
        assert(methods[a].name@ == kids[i]);
        lemma_schema_at_hits(methods, kids[i], a);
        assert(methods[at].role == schema::MethodRole::Rpc);
    } else {
        assert forall|a: int| 0 <= a < methods.len() implies (#[trigger] methods[a]).name@ != kids[i] by {
            assert(methods[a].name@ == own_names()[a]);
        }
        lemma_schema_at_misses(methods, kids[i]);
    }
    if i < b {
        lemma_unclashed_children(methods, kids, i + 1, b);
    }
}

proof fn lemma_no_clash_frees_names(methods: Seq<MethodSchema>, kids: Seq<ChildSummary>, map: Records)
    requires
        are_own(methods),
        lists_children(schema::child_views(kids), map),
        schema::clash(methods, schema::child_names(kids)) is None,
    ensures
        names_are_free(map),
{
    let views = schema::child_views(kids);
    let ks = choose|ks: Seq<Seq<char>>| lists_under(views, map, ks);
    let names = schema::child_names(kids);
    assert forall|k: Seq<char>| #[trigger] map.dom().contains(k) implies !own_names().contains(
        map[k].plugin_schema.namespace@,
    ) by {
        assert(ks.contains(k));
        let i = choose|i: int| 0 <= i < ks.len() && ks[i] == k;
        assert(views[i] == summary_view(map[k]));
        assert(names[i] == map[k].plugin_schema.namespace@);
        lemma_unclashed_children(methods, names, 0, i);
    }
    assert forall|a: Seq<char>, b: Seq<char>| #[trigger]
        map.dom().contains(a) && #[trigger] map.dom().contains(b) && a != b implies map[a].plugin_schema.namespace@
        != map[b].plugin_schema.namespace@ by {
        assert(ks.contains(a) && ks.contains(b));
        let i = choose|i: int| 0 <= i < ks.len() && ks[i] == a;
        let j = choose|j: int| 0 <= j < ks.len() && ks[j] == b;
        assert(views[i] == summary_view(map[a]) && views[j] == summary_view(map[b]));
        assert(names[i] == map[a].plugin_schema.namespace@ && names[j] == map[b].plugin_schema.namespace@);
        if i < j {
            lemma_unclashed_children(methods, names, 0, j);
            assert(names.take(j)[i] == names[i]);
        } else {
            lemma_unclashed_children(methods, names, 0, i);
            assert(names.take(i)[j] == names[j]);
        }
    }
}

/// The hash of a hub with children.
pub open spec fn hub_hash(kids: Seq<ChildView>) -> Seq<char> {
    schema::composite_hash(digest::digest(own_hashes()), Some(digest::digest(summary_hashes(kids))))
}

impl<P> DynamicHub<P> {
    /// The first clash among the names that the hub shows, if there is one. Without one the
    /// hub has a schema.
    pub fn collision(&self) -> (r: Option<Collision>)
        ensures
            r is None <==> names_are_free(self.activations@),
            exists|methods: Seq<MethodSchema>, kids: Seq<ChildSummary>| #[trigger]
                are_own(methods) && lists_children(#[trigger] schema::child_views(kids), self.activations@) && (
                match r {
                    Some(c) => schema::clash(methods, schema::child_names(kids)) == Some((c.kind, c.name@)),
                    None => schema::clash(methods, schema::child_names(kids)) is None,
                }),
    {
        let methods = own_schemas();
        let kids = self.plugin_children();
        let r = PluginSchema::validate_no_collisions(&methods, Some(&kids));
        proof {
            if names_are_free(self.activations@) {
                lemma_hub_does_not_clash(methods@, kids@, self.activations@);
            }
            if r is None {
                lemma_no_clash_frees_names(methods@, kids@, self.activations@);
            }
            assert(are_own(methods@));
            assert(lists_children(schema::child_views(kids@), self.activations@));
        }
        r
    }

    /// The schema of the hub itself: its own methods, and its activations as children.
    pub fn plugin_schema(&self) -> (r: PluginSchema)
        requires
            names_are_free(self.activations@),
        ensures
            is_hub_schema(self.namespace@, self.activations@, r),
    {
        let methods = own_schemas();
        let kids = self.plugin_children();
        proof {
            lemma_hub_does_not_clash(methods@, kids@, self.activations@);
            assert(schema::method_hashes(methods@) =~= own_hashes()) by {
                assert forall|i: int| 0 <= i < 4 implies schema::method_hashes(methods@)[i] == own_hashes()[i] by {
                    assert(methods@[i].hash@ == own_hashes()[i]);
                }
            }
            assert(schema::child_hashes(kids@) =~= summary_hashes(schema::child_views(kids@)));
        }
        PluginSchema::hub(
            self.namespace.clone(),
            HUB_VERSION.to_owned(),
            HUB_DESCRIPTION.to_owned(),
            methods,
            kids,
        )
    }

    /// The hash of the hub with all its activations.
    pub fn compute_hash(&self) -> (r: String)
        requires
            names_are_free(self.activations@),
        ensures
            exists|kids: Seq<ChildView>| lists_children(kids, self.activations@) && r@ == #[trigger] hub_hash(kids),
    {
        self.plugin_schema().hash
    }

    /// What is sent when the hub's hash is asked for.
    pub fn hash(&self) -> (r: HashEvent)
        requires
            names_are_free(self.activations@),
        ensures
            exists|kids: Seq<ChildView>| lists_children(kids, self.activations@) && r->value@ == #[trigger] hub_hash(
                kids,
            ),
    {
        HashEvent::Hash { value: self.compute_hash() }
    }

    /// The hashes of the hub and its activations.
    pub fn hashes(&self) -> (r: PluginHashes)
        requires
            names_are_free(self.activations@),
        ensures
            is_hub_hashes(self.namespace@, self.activations@, r),
    {
        let s = self.plugin_schema();
        let r = s.hashes();
        proof {
            let kids = schema::child_views(s.children->0@);
            assert(schema::method_hashes(s.methods@) =~= own_hashes()) by {
                assert forall|i: int| 0 <= i < 4 implies schema::method_hashes(s.methods@)[i] == own_hashes()[i] by {
                    assert(s.methods@[i].hash@ == own_hashes()[i]);
                }
            }
            assert(lists_children(kids, self.activations@));
            assert(schema::child_hashes(s.children->0@) =~= summary_hashes(kids));
            assert forall|i: int| 0 <= i < kids.len() implies (#[trigger] r.children->0@[i]).namespace@
                == kids[i].namespace && r.children->0@[i].hash@ == kids[i].hash by {
                assert(kids[i] == s.children->0@[i]@);
            }
            assert(hashes_list(r, kids));
        }
        r
    }

    /// The hub's own schema, then copies of the schemas of its activations in the order of their
    /// names.
    pub fn list_plugin_schemas(&self) -> (r: Vec<PluginSchema>)
        requires
            names_are_free(self.activations@),
        ensures
            lists_schemas(self.namespace@, self.activations@, r@),
    {
        let keys = sorted_keys(&self.activations);
        let ghost ks = text::texts(keys@);
        let mut out: Vec<PluginSchema> = Vec::new();
        out.push(self.plugin_schema());
        let mut i: usize = 0;
        while i < keys.len()
            invariant
                i <= keys.len(),
                ks == text::texts(keys@),
                forall|k: Seq<char>| #[trigger] ks.contains(k) <==> self.activations@.dom().contains(k),
                out@.len() == i + 1,
                is_hub_schema(self.namespace@, self.activations@, out@[0]),
                forall|j: int|
                    0 < j <= i ==> copies::copies_plugin(
                        #[trigger] out@[j],
                        self.activations@[ks[j - 1]].plugin_schema,
                    ),
            decreases keys.len() - i,
        {
            proof {
                assert(ks[i as int] == keys@[i as int]@);
                assert(ks.contains(ks[i as int]));
            }
            match self.activations.get(&keys[i]) {
                Some(a) => out.push(a.plugin_schema.copy()),
                None => {},
            }
            i += 1;
        }
        out
    }

    /// The hub's own schema, then copies of the schemas of its activations in the order of their
    /// names.
    pub fn list_full_schemas(&self) -> (r: Vec<PluginSchema>)
        requires
            names_are_free(self.activations@),
        ensures
            lists_schemas(self.namespace@, self.activations@, r@),
    {
        self.list_plugin_schemas()
    }

    /// The schema of the parameters of an activation's methods.
    pub fn get_activation_schema(&self, namespace: &str) -> (r: Option<&Schema>)
        ensures
            match r {
                Some(s) => self.activations@.dom().contains(namespace@) && *s == self.activations@[namespace@].schema,
                None => !self.activations@.dom().contains(namespace@),
            },
    {
        match self.activations.get(&namespace.to_owned()) {
            Some(a) => Some(&a.schema),
            None => None,
        }
    }

    /// The path of an activation.
    pub fn lookup_plugin(&self, id: u128) -> (r: Option<String>)
        ensures
            text::opt_text(r) == registry::path_of(self.registry.by_id@, id),
    {
        match self.registry.lookup(id) {
            Some(p) => Some(p.to_owned()),
            None => None,
        }
    }

    /// The identifier of the activation at a path.
    pub fn lookup_plugin_by_path(&self, path: &str) -> (r: Option<u128>)
        ensures
            r == registry::id_of(self.registry.by_path@, path@),
    {
        self.registry.lookup_by_path(path)
    }
}

/// The help of a method is that of the first of its name; none where none has the name.
pub proof fn law_the_first_help_of_a_name_is_given(methods: Seq<MethodHelp>, name: Seq<char>, i: int)
    requires
        0 <= i <= methods.len(),
        forall|j: int| 0 <= j < i ==> (#[trigger] methods[j]).name@ != name,
        i < methods.len() ==> methods[i].name@ == name,
    ensures
        i < methods.len() ==> first_help(methods, name) == (match methods[i].help {
            Some(h) => Some(h@),
            None => None,
        }),
        i == methods.len() ==> first_help(methods, name) is None,
    decreases methods.len(),
{
    if methods.len() > 0 && i > 0 {
        let rest = methods.skip(1);
        assert(methods[0].name@ != name);
        assert forall|j: int| 0 <= j < i - 1 implies (#[trigger] rest[j]).name@ != name by {
            assert(rest[j] == methods[j + 1]);
        }
        if i < methods.len() {
            assert(rest[i - 1] == methods[i]);
        }
        law_the_first_help_of_a_name_is_given(rest, name, i - 1);
    }
}

/// Every method of the hub itself and of each activation is listed, behind its namespace and a dot,
/// and nothing else is.
pub proof fn law_every_method_is_listed(namespace: Seq<char>, map: Records, ks: Seq<Seq<char>>, m: Seq<char>)
    ensures
        all_methods(namespace, map, ks).contains(m) <==> {
            ||| m == namespace + seq!['.'] + "call"@
            ||| m == namespace + seq!['.'] + "hash"@
            ||| m == namespace + seq!['.'] + "hashes"@
            ||| m == namespace + seq!['.'] + "schema"@
            ||| exists|k: int, i: int|
                #![trigger ks[k], map[ks[k]].methods@[i]]
                0 <= k < ks.len() && 0 <= i < map[ks[k]].methods@.len() && m == ks[k] + seq!['.']
                    + map[ks[k]].methods@[i].name@
        },
    decreases ks.len(),
{
    let all = all_methods(namespace, map, ks);
    if ks.len() == 0 {
        let own = own_names();
        assert(all =~= seq![
            namespace + seq!['.'] + own[0],
            namespace + seq!['.'] + own[1],
            namespace + seq!['.'] + own[2],
            namespace + seq!['.'] + own[3],
        ]);
        assert(all[0] == namespace + seq!['.'] + "call"@);
        assert(all[1] == namespace + seq!['.'] + "hash"@);
        assert(all[2] == namespace + seq!['.'] + "hashes"@);
        assert(all[3] == namespace + seq!['.'] + "schema"@);
    } else {
        let rest = ks.drop_last();
        let last = ks.len() - 1;
        let before = all_methods(namespace, map, rest);
        let names = schema::help_names(map[ks.last()].methods@);
        let added = dotted_names(ks.last(), names);
        law_every_method_is_listed(namespace, map, rest, m);
        assert(ks[last] == ks.last());
        if all.contains(m) {
            let p = choose|p: int| 0 <= p < all.len() && all[p] == m;
            if p < before.len() {
                assert(before[p] == m);
                assert(before.contains(m));
                if exists|k: int, i: int|
                    #![trigger rest[k], map[rest[k]].methods@[i]]
                    0 <= k < rest.len() && 0 <= i < map[rest[k]].methods@.len() && m == rest[k] + seq!['.']
                        + map[rest[k]].methods@[i].name@ {
                    let (k, i) = choose|k: int, i: int|
                        #![trigger rest[k], map[rest[k]].methods@[i]]
                        0 <= k < rest.len() && 0 <= i < map[rest[k]].methods@.len() && m == rest[k] + seq!['.']
                            + map[rest[k]].methods@[i].name@;
                    assert(ks[k] == rest[k]);
                    assert(m == ks[k] + seq!['.'] + map[ks[k]].methods@[i].name@);
                }
            } else {
                let i = p - before.len();
                assert(added[i] == m);
                assert(m == ks[last] + seq!['.'] + map[ks[last]].methods@[i].name@);
            }
        }
        if before.contains(m) {
            let p = choose|p: int| 0 <= p < before.len() && before[p] == m;
            assert(all[p] == m);
        }
        if exists|k: int, i: int|
            #![trigger ks[k], map[ks[k]].methods@[i]]
            0 <= k < ks.len() && 0 <= i < map[ks[k]].methods@.len() && m == ks[k] + seq!['.']
                + map[ks[k]].methods@[i].name@ {
            let (k, i) = choose|k: int, i: int|
                #![trigger ks[k], map[ks[k]].methods@[i]]
                0 <= k < ks.len() && 0 <= i < map[ks[k]].methods@.len() && m == ks[k] + seq!['.']
                    + map[ks[k]].methods@[i].name@;
            if k < last {
                assert(rest[k] == ks[k]);
                assert(m == rest[k] + seq!['.'] + map[rest[k]].methods@[i].name@);
                assert(before.contains(m));
                let p = choose|p: int| 0 <= p < before.len() && before[p] == m;
                assert(all[p] == m);
            } else {
                assert(added[i] == m);
                assert(all[before.len() + i] == m);
            }
        }
    }
}

/// What is listed of an activation is its own: namespace, version, description, and its methods in
/// their order.
pub proof fn law_a_listing_says_what_an_activation_is(a: ActivationRecord)
    ensures
        info_of(a).namespace == a.namespace@,
        info_of(a).version == a.version@,
        info_of(a).description == a.description@,
        info_of(a).methods.len() == a.methods@.len(),
        forall|i: int| 0 <= i < a.methods@.len() ==> #[trigger] info_of(a).methods[i] == a.methods@[i].name@,
{
}

/// Whether a child is one of the registered activations, as its schema has it.
pub open spec fn shows_one_of(kid: ChildView, map: Records) -> bool {
    exists|k: Seq<char>| #[trigger]
        map.dom().contains(k) && kid.namespace == map[k].plugin_schema.namespace@ && kid.description
            == map[k].plugin_schema.description@ && kid.hash == map[k].plugin_schema.hash@
}

/// Each registered activation is shown as a child, with the namespace, the description and the hash
/// that its schema has, and there is no other child. The children stand in the order of their
/// namespaces.
pub proof fn law_each_activation_is_a_child(kids: Seq<ChildView>, map: Records)
    requires
        lists_children(kids, map),
    ensures
        forall|k: Seq<char>| #[trigger]
            map.dom().contains(k) ==> kids.contains(
                ChildView {
                    namespace: map[k].plugin_schema.namespace@,
                    description: map[k].plugin_schema.description@,
                    hash: map[k].plugin_schema.hash@,
                },
            ),
        forall|i: int| 0 <= i < kids.len() ==> shows_one_of(#[trigger] kids[i], map),
        forall|i: int, j: int|
            0 <= i <= j < kids.len() ==> text::text_le((#[trigger] kids[i]).namespace, (#[trigger] kids[j]).namespace),
        map.dom().finite() ==> kids.len() == map.dom().len(),
{
    let ks = choose|ks: Seq<Seq<char>>| lists_under(kids, map, ks);
    assert forall|k: Seq<char>| #[trigger] map.dom().contains(k) implies kids.contains(
        ChildView {
            namespace: map[k].plugin_schema.namespace@,
            description: map[k].plugin_schema.description@,
            hash: map[k].plugin_schema.hash@,
        },
    ) by {
        assert(ks.contains(k));
        let i = choose|i: int| 0 <= i < ks.len() && ks[i] == k;
        assert(kids[i] == summary_view(map[ks[i]]));
    }
    assert forall|i: int| 0 <= i < kids.len() implies shows_one_of(#[trigger] kids[i], map) by {
        assert(kids[i] == summary_view(map[ks[i]]));
        assert(ks.contains(ks[i]));
        assert(map.dom().contains(ks[i]));
    }
    let names = summary_names(kids);
    assert forall|i: int, j: int| 0 <= i <= j < kids.len() implies text::text_le(
        (#[trigger] kids[i]).namespace,
        (#[trigger] kids[j]).namespace,
    ) by {
        assert(names[i] == kids[i].namespace && names[j] == kids[j].namespace);
    }
    if map.dom().finite() {
        ks.unique_seq_to_set();
        assert(ks.to_set() =~= map.dom());
    }
}

/// The hash of a hub is taken over the hashes of its own methods and those of all its children, one
/// by one: two hubs have the same hash exactly where the hasher ends alike on the digests of the
/// two, and the children of both are digested alike exactly where the hasher ends alike on the
/// hashes of all of them. The same is hashed only of children with the same hashes.
pub proof fn law_a_change_of_a_child_is_hashed(a: Seq<ChildView>, b: Seq<ChildView>)
    ensures
        ({
            let own = digest::digest(own_hashes());
            let x = digest::digest(Seq::new(a.len(), |i: int| a[i].hash));
            let y = digest::digest(Seq::new(b.len(), |i: int| b[i].hash));
            let fed_a = digest::hashed(Seq::new(a.len(), |i: int| a[i].hash));
            let fed_b = digest::hashed(Seq::new(b.len(), |i: int| b[i].hash));
            &&& hub_hash(a) == digest::digest(seq![own, x])
            &&& hub_hash(b) == digest::digest(seq![own, y])
            &&& hub_hash(a) == hub_hash(b) <==> DefaultHasher::spec_finish(digest::hashed(seq![own, x]))
                == DefaultHasher::spec_finish(digest::hashed(seq![own, y]))
            &&& digest::hashed(seq![own, x]) == digest::hashed(seq![own, y]) ==> x == y
            &&& x == y <==> DefaultHasher::spec_finish(fed_a) == DefaultHasher::spec_finish(fed_b)
            &&& fed_a == fed_b ==> a.len() == b.len() && forall|i: int|
                0 <= i < a.len() ==> (#[trigger] a[i]).hash == b[i].hash
        }),
{
    let own = digest::digest(own_hashes());
    let p = Seq::new(a.len(), |i: int| a[i].hash);
    let q = Seq::new(b.len(), |i: int| b[i].hash);
    assert(summary_hashes(a) =~= p);
    assert(summary_hashes(b) =~= q);
    let x = digest::digest(p);
    let y = digest::digest(q);
    digest::law_a_digest_is_told_by_the_hasher(p, q);
    digest::law_a_digest_is_told_by_the_hasher(seq![own, x], seq![own, y]);
    if digest::hashed(seq![own, x]) == digest::hashed(seq![own, y]) {
        digest::law_what_is_hashed_tells_the_texts(seq![own, x], seq![own, y]);
        assert(seq![own, x][1] == seq![own, y][1]);
    }
    if digest::hashed(p) == digest::hashed(q) {
        digest::law_what_is_hashed_tells_the_texts(p, q);
        assert(p.len() == q.len());
        assert forall|i: int| 0 <= i < a.len() implies (#[trigger] a[i]).hash == b[i].hash by {
            assert(p[i] == q[i]);
        }
    }
}

/// The hash of each of the hub's own methods is the digest of its name and its description.
pub proof fn law_an_own_method_is_hashed_by_name_and_help(m: MethodSchema, i: int)
    requires
        0 <= i < 4,
        is_own(m, i),
    ensures
        m.hash@ == digest::digest(seq![m.name@, m.description@]),
        m.streaming <==> m.name@ == "call"@,
        m.params is Some <==> m.name@ == "call"@,
        !m.public,
        m.requires_credential is None,
{
    lemma_own_names_differ();
    let n = own_names();
    assert(n[0] == "call"@);
    assert(i != 0 ==> n[i] != n[0]);
}

/// What a schema, the hashes and the hash of a hub say agree: the hash is the same in each, and so
/// are the hashes of the children.
pub proof fn law_schema_and_hashes_agree(namespace: Seq<char>, map: Records, s: PluginSchema, h: PluginHashes)
    requires
        is_hub_schema(namespace, map, s),
        is_hub_hashes(namespace, map, h),
        names_are_free(map),
    ensures
        h.namespace@ == s.namespace@,
        h.self_hash@ == s.self_hash@,
        h.hash@ == s.hash@,
        text::opt_text(h.children_hash) == text::opt_text(s.children_hash),
        h.children is Some,
        h.children->0@.len() == s.children->0@.len(),
        forall|i: int|
            0 <= i < h.children->0@.len() ==> (#[trigger] h.children->0@[i]).namespace@ == s.children->0@[i].namespace@
                && h.children->0@[i].hash@ == s.children->0@[i].hash@,
{
    let kids = schema::child_views(s.children->0@);
    let listed = choose|kids: Seq<ChildView>| #[trigger] lists_children(kids, map) && hashes_list(h, kids);
    law_children_follow_from_what_is_registered(kids, listed, map);
    assert(schema::method_hashes(s.methods@) =~= own_hashes()) by {
        assert forall|i: int| 0 <= i < 4 implies schema::method_hashes(s.methods@)[i] == own_hashes()[i] by {
            assert(is_own(s.methods@[i], i));
        }
    }
    assert(schema::child_hashes(s.children->0@) =~= summary_hashes(kids));
    assert forall|i: int| 0 <= i < h.children->0@.len() implies (#[trigger] h.children->0@[i]).namespace@
        == s.children->0@[i].namespace@ && h.children->0@[i].hash@ == s.children->0@[i].hash@ by {
        assert(kids[i] == s.children->0@[i]@);
    }
}

/// A hub's schema says of the hub what it is and of its own methods how they are called: of the
/// four, the one that routes a call streams its answer and takes parameters, and the others take
/// none and answer once. Each activation is a child of the hub.
pub proof fn law_a_hub_is_described_by_its_schema(namespace: Seq<char>, map: Records, s: PluginSchema)
    requires
        is_hub_schema(namespace, map, s),
    ensures
        s.namespace@ == namespace,
        s.methods@.len() == 4,
        s.methods@[0].name@ == "call"@,
        s.methods@[1].name@ == "hash"@,
        s.methods@[2].name@ == "hashes"@,
        s.methods@[3].name@ == "schema"@,
        s.methods@[0].description@ == "Route a call to a registered activation"@,
        s.methods@[2].description@ == "Get plugin hashes for cache validation"@,
        s.methods@[3].description@ == "Return this activation's schema (methods + optional children)"@,
        s.methods@[0].streaming && s.methods@[0].params is Some,
        forall|i: int| 1 <= i < 4 ==> !(#[trigger] s.methods@[i]).streaming && s.methods@[i].params is None,
        forall|i: int|
            0 <= i < 4 ==> {
                &&& !(#[trigger] s.methods@[i]).bidirectional
                &&& s.methods@[i].role is Rpc
                &&& s.methods@[i].http_method == schema::HttpMethod::Post
                &&& s.methods@[i].returns is None
                &&& s.methods@[i].request_type is None
                &&& s.methods@[i].response_type is None
                &&& s.methods@[i].return_shape is None
                &&& s.methods@[i].params_meta@.len() == 0
                &&& s.methods@[i].credentials@.len() == 0
                &&& s.methods@[i].requires_credential is None
                &&& !s.methods@[i].public
                &&& s.methods@[i].deprecation is None
            },
        s.long_description is None,
        s.request is None,
        s.deprecation is None,
        s.children is Some,
        forall|i: int|
            0 <= i < s.children->0@.len() ==> shows_one_of(
                #[trigger] schema::child_views(s.children->0@)[i],
                map,
            ),
        map.dom().finite() ==> s.children->0@.len() == map.dom().len(),
{
    assert forall|i: int| 0 <= i < 4 implies is_own(#[trigger] s.methods@[i], i) by {}
    assert(is_own(s.methods@[0], 0) && is_own(s.methods@[1], 1) && is_own(s.methods@[2], 2) && is_own(s.methods@[3], 3));
    law_each_activation_is_a_child(schema::child_views(s.children->0@), map);
}

/// What a call takes is an object with a method, which is a text and must be given, and with
/// parameters, of which nothing is demanded.
pub proof fn law_a_call_takes_a_method_and_parameters()
    ensures
        json::json_get(call_params(), "type"@) == Some(JsonView::Text("object"@)),
        json::json_get(call_params(), "required"@) == Some(JsonView::Array(seq![JsonView::Text("method"@)])),
        ({
            let properties = json::json_get(call_params(), "properties"@)->0;
            let method = json::json_get(properties, "method"@)->0;
            let params = json::json_get(properties, "params"@)->0;
            &&& json::json_get(call_params(), "properties"@) is Some
            &&& json::json_get(properties, "method"@) is Some
            &&& json::json_get(properties, "params"@) is Some
            &&& json::json_get(method, "type"@) == Some(JsonView::Text("string"@))
            &&& json::json_get(method, "description"@) == Some(
                JsonView::Text("The method to call (format: namespace.method)"@),
            )
            &&& json::json_get(params, "type"@) is None
            &&& json::json_get(params, "description"@) == Some(
                JsonView::Text("Parameters to pass to the method (optional, defaults to {})"@),
            )
        }),
{
    broadcast use wire::lemma_read_put;

    reveal_strlit("type");
    reveal_strlit("required");
    reveal_strlit("properties");
    reveal_strlit("method");
    reveal_strlit("params");
    reveal_strlit("description");
    assert("type"@.len() == 4 && "required"@.len() == 8 && "properties"@.len() == 10 && "description"@.len() == 11);
    assert("method"@[0] == 'm' && "params"@[0] == 'p');
    assert(json::entry_at(Seq::<(Seq<char>, JsonView)>::empty(), "type"@) is None);
    assert(json::text_items(seq!["method"@])->Array_0 =~= seq![JsonView::Text("method"@)]);
}

/// The schemas that a hub lists are its own and then one for each activation, in the order of
/// their names, each as it was registered.
pub proof fn law_every_schema_is_listed(namespace: Seq<char>, map: Records, v: Seq<PluginSchema>, k: Seq<char>)
    requires
        lists_schemas(namespace, map, v),
        map.dom().finite(),
        map.dom().contains(k),
    ensures
        v.len() == map.dom().len() + 1,
        v[0].namespace@ == namespace,
        exists|j: int| 0 < j < v.len() && copies::copies_plugin(#[trigger] v[j], map[k].plugin_schema),
{
    table::lemma_keys_in_order(map.dom());
    let ks = table::keys_in_order(map.dom());
    assert(ks.contains(k));
    let i = choose|i: int| 0 <= i < ks.len() && ks[i] == k;
    ks.unique_seq_to_set();
    assert(ks.to_set() =~= map.dom());
    assert(copies::copies_plugin(v[i + 1], map[ks[i + 1 - 1]].plugin_schema));
}

/// A hub to which nothing was added has nothing: no activation, no policy, no scopes, no
/// document, and it denies nothing.
pub proof fn law_a_bare_hub_has_nothing<P>(h: DynamicHub<P>, namespace: String)
    requires
        h.is_bare(namespace),
    ensures
        h.wf(),
        h.namespace@ == namespace@,
        h.activations@.dom() == Set::<Seq<char>>::empty(),
        h.registry.by_id@.dom() == Set::<u128>::empty(),
        h.registry.by_path@.dom() == Set::<Seq<char>>::empty(),
        h.forward_policies@.dom() == Set::<Seq<char>>::empty(),
        h.declared_irs@.dom() == Set::<Seq<char>>::empty(),
        h.lazy_irs@.dom() == Set::<Seq<char>>::empty(),
        h.auth_capabilities is None,
        h.scope_registry is None,
        !h.default_deny,
        h.backend_name is None,
        h.respond_method is None,
{
}

/// What is told of an activation with the hub's own name names both.
pub proof fn law_a_shadowed_activation_is_named(child: Seq<char>, root: Seq<char>)
    ensures
        text::starts_with(
            shadow_message(child, root),
            "DynamicHub namespace shadow: activation namespace '"@ + child
                + "' collides with the hub root namespace '"@ + root + "'. "@,
        ),
{
    reveal_strlit("DynamicHub namespace shadow: activation namespace '");
    reveal_strlit("' collides with the hub root namespace '");
    reveal_strlit("'. ");
    reveal_strlit(
        "'. The hub root name is a routing namespace, not a label — routing resolves the root first, so a like-named child activation is unreachable (every '",
    );
    let p = "DynamicHub namespace shadow: activation namespace '"@ + child
        + "' collides with the hub root namespace '"@ + root + "'. "@;
    assert(shadow_message(child, root).take(p.len() as int) =~= p);
}

/// No activation of a hub has the hub's own name, and a document that is served for a child has
/// the hash of what it holds.
pub proof fn law_no_activation_hides_behind_its_hub<P>(h: DynamicHub<P>, k: Seq<char>)
    requires
        h.wf(),
    ensures
        h.activations@.dom().contains(k) ==> k != h.namespace@,
        h.lazy_irs@.dom().contains(k) ==> h.lazy_irs@[k]@.hash == ir::rehashed(h.lazy_irs@[k]@).hash,
{
}

} // verus!
