//! What a hub offers on the wire: the names of its methods, and the form of its answers.

use crate::ir::ActivationIr;
use crate::json;
use crate::json::{put_entry, Json, JsonView};
use crate::plexus::connectome;
use crate::plexus::credential_envelope;
use crate::plexus::credential_envelope::AttachmentSite;
use crate::plexus::error;
use crate::plexus::error::{plexus_error_code, PlexusError};
use crate::plexus::hub;
use crate::plexus::hub::{ActivationRecord, ChildCapabilities, DynamicHub, HashEvent};
use crate::plexus::routing;
use crate::plexus::schema;
use crate::plexus::schema::{ChildView, PluginHashes, PluginSchema, SchemaResult};
use crate::plexus::streaming;
use crate::plexus::streaming::{wrap_stream, ItemView, MetaView, PlexusStreamItem, StreamMetadata};
use crate::plexus::wire;
use crate::table;
use crate::table::sorted_keys;
use crate::text;
use crate::text::{decimal_text, dotted_text, join2, join3};
use vstd::prelude::*;

verus! {

/// What answers a subscription.
#[derive(Debug, Clone, Copy, PartialEq, Eq, Structural)]
pub enum Answer {
    /// The stream of the routed call, or the item of its error.
    Call,
    /// `DynamicHub::hash_answer`.
    Hash,
    /// `DynamicHub::schema_answer`.
    Schema,
    /// `DynamicHub::connectome_answer`.
    Connectome,
    /// `DynamicHub::info_answer`.
    Info,
    /// `child_names_stream` of the children that a router lists.
    ListChildren,
    /// `child_names_stream` of the children that a router finds.
    SearchChildren,
}

/// A method that answers with a stream of notifications.
#[derive(Debug, Clone, PartialEq, Eq)]
pub struct Subscription {
    pub name: String,
    /// What answers it.
    pub answer: Answer,
    /// The hub or the activation that answers it.
    pub namespace: String,
    /// The method name that the notifications carry.
    pub notification: String,
    /// The method that ends the stream.
    pub unsubscribe: String,
}

/// What a `Subscription` says.
pub struct SubscriptionView {
    pub name: Seq<char>,
    pub answer: Answer,
    pub namespace: Seq<char>,
    pub notification: Seq<char>,
    pub unsubscribe: Seq<char>,
}

impl View for Subscription {
    type V = SubscriptionView;

    open spec fn view(&self) -> SubscriptionView {
        SubscriptionView {
            name: self.name@,
            answer: self.answer,
            namespace: self.namespace@,
            notification: self.notification@,
            unsubscribe: self.unsubscribe@,
        }
    }
}

/// The subscription of a name, with what answers it and where. Every notification carries the
/// same method name.
pub open spec fn subscription_of(name: Seq<char>, answer: Answer, namespace: Seq<char>) -> SubscriptionView {
    SubscriptionView {
        name,
        answer,
        namespace,
        notification: hub::PLEXUS_NOTIF_METHOD@,
        unsubscribe: name + "_unsub"@,
    }
}

/// What subscriptions say, in order.
pub open spec fn subscription_views(v: Seq<Subscription>) -> Seq<SubscriptionView> {
    Seq::new(v.len(), |i: int| v[i]@)
}

/// The subscriptions of a hub itself.
pub open spec fn hub_subscriptions(namespace: Seq<char>) -> Seq<SubscriptionView> {
    seq![
        subscription_of(text::dotted(namespace, "call"@), Answer::Call, namespace),
        subscription_of(text::dotted(namespace, "hash"@), Answer::Hash, namespace),
        subscription_of(text::dotted(namespace, "schema"@), Answer::Schema, namespace),
        subscription_of(text::dotted(namespace, "connectome"@), Answer::Connectome, namespace),
        subscription_of("_info"@, Answer::Info, namespace),
    ]
}

/// The names that subscriptions take: those of the methods, then those that end them.
pub open spec fn taken_names(subs: Seq<SubscriptionView>) -> Seq<Seq<char>> {
    Seq::new(subs.len(), |i: int| subs[i].name) + Seq::new(subs.len(), |i: int| subs[i].unsubscribe)
}

/// What stands behind the namespace in the names that a hub takes, in the order of
/// `taken_names`; empty for those without a namespace.
spec fn taken_suffixes() -> Seq<Seq<char>> {
    seq![
        "call"@,
        "hash"@,
        "schema"@,
        "connectome"@,
        Seq::empty(),
        "call"@ + "_unsub"@,
        "hash"@ + "_unsub"@,
        "schema"@ + "_unsub"@,
        "connectome"@ + "_unsub"@,
        Seq::empty(),
        "respond"@,
    ]
}

/// Whether two texts differ in length, or in one of the first two characters.
spec fn differ(a: Seq<char>, b: Seq<char>) -> bool {
    a.len() != b.len() || a[0] != b[0] || a[1] != b[1]
}

proof fn lemma_suffixes_differ(i: int, j: int)
    requires
        0 <= i < j < 11,
        i != 4,
        i != 9,
        j != 4,
        j != 9,
    ensures
        differ(taken_suffixes()[i], taken_suffixes()[j]),
{
    reveal_strlit("call");
    reveal_strlit("hash");
    reveal_strlit("schema");
    reveal_strlit("connectome");
    reveal_strlit("_unsub");
    reveal_strlit("respond");
}

/// The names that a hub takes on its own never clash, not even with the name under which
/// clients send responses: registering them does not fail.
pub proof fn law_hub_names_do_not_clash(namespace: Seq<char>)
    ensures
        taken_names(hub_subscriptions(namespace)).push(text::dotted(namespace, "respond"@)).no_duplicates(),
{
    let names = taken_names(hub_subscriptions(namespace)).push(text::dotted(namespace, "respond"@));
    let n = namespace.len() as int;
    reveal_strlit("_info");
    reveal_strlit("_unsub");
    assert("_info"@ + "_unsub"@ =~= seq!['_', 'i', 'n', 'f', 'o', '_', 'u', 'n', 's', 'u', 'b']);
    assert forall|i: int| 0 <= i < 11 && i != 4 && i != 9 implies names[i].skip(n + 1) == taken_suffixes()[i]
        && names[i].len() > n && #[trigger] names[i][n] == '.' by {
        assert(names[i].skip(n + 1) =~= taken_suffixes()[i]);
    }
    assert forall|i: int, j: int| 0 <= i < j < 11 implies names[i] != names[j] by {
        if i != 4 && i != 9 && j != 4 && j != 9 {
            assert(names[i][n] == '.' && names[j][n] == '.');
            lemma_suffixes_differ(i, j);
        } else if i == 4 && j == 9 {
            assert(names[i].len() != names[j].len());
        } else if i == 4 || i == 9 {
            assert(names[j][n] == '.');
            assert(names[i].len() > n ==> names[i][n] != '.');
        } else {
            assert(names[i][n] == '.');
            assert(names[j].len() > n ==> names[j][n] != '.');
        }
    }
}

/// The subscriptions by which the children of an activation are listed and searched, as far
/// as it can do so.
pub open spec fn child_subscriptions(namespace: Seq<char>, caps: ChildCapabilities) -> Seq<SubscriptionView> {
    let listing = if caps.bits & hub::CAN_LIST == hub::CAN_LIST {
        seq![subscription_of(text::dotted(namespace, "list_children"@), Answer::ListChildren, namespace)]
    } else {
        Seq::empty()
    };
    let searching = if caps.bits & hub::CAN_SEARCH == hub::CAN_SEARCH {
        seq![subscription_of(text::dotted(namespace, "search_children"@), Answer::SearchChildren, namespace)]
    } else {
        Seq::empty()
    };
    listing + searching
}

fn subscription(name: String, answer: Answer, namespace: &str) -> (r: Subscription)
    ensures
        r@ == subscription_of(name@, answer, namespace@),
{
    let unsubscribe = join2(name.as_str(), "_unsub");
    Subscription {
        name,
        answer,
        namespace: namespace.to_owned(),
        notification: hub::PLEXUS_NOTIF_METHOD.to_owned(),
        unsubscribe,
    }
}

/// The subscriptions by which the children of an activation are listed and searched.
pub fn register_child_capability_methods(namespace: &str, caps: ChildCapabilities) -> (r: Vec<Subscription>)
    ensures
        subscription_views(r@) == child_subscriptions(namespace@, caps),
{
    let mut out: Vec<Subscription> = Vec::new();
    if caps.contains(ChildCapabilities::list()) {
        out.push(subscription(dotted_text(namespace, "list_children"), Answer::ListChildren, namespace));
    }
    if caps.contains(ChildCapabilities::search()) {
        out.push(subscription(dotted_text(namespace, "search_children"), Answer::SearchChildren, namespace));
    }
    assert(subscription_views(out@) =~= child_subscriptions(namespace@, caps));
    out
}

/// A router that can do nothing with its children offers nothing of them.
pub proof fn law_no_capability_no_method(namespace: Seq<char>)
    ensures
        child_subscriptions(namespace, ChildCapabilities { bits: 0 }) == Seq::<SubscriptionView>::empty(),
{
    assert(0u32 & 1 == 0) by (bit_vector);
    assert(0u32 & 2 == 0) by (bit_vector);
    assert(child_subscriptions(namespace, ChildCapabilities { bits: 0 }) =~= Seq::<SubscriptionView>::empty());
}

/// The code of an error as text.
pub open spec fn code_form(code: int) -> Seq<char> {
    if code < 0 {
        seq!['-'] + text::decimal((-code) as nat)
    } else {
        text::decimal(code as nat)
    }
}

fn code_text(code: i32) -> (r: String)
    ensures
        r@ == code_form(code as int),
{
    if code < 0 {
        let n: u64 = (-(code as i64)) as u64;
        let d = decimal_text(n);
        let r = join2("-", d.as_str());
        proof {
            reveal_strlit("-");
            assert("-"@ =~= seq!['-']);
        }
        r
    } else {
        decimal_text(code as u64)
    }
}

fn metadata_of(namespace: &str, plexus_hash: String) -> (r: StreamMetadata)
    ensures
        r@ == (MetaView { provenance: seq![namespace@], plexus_hash: plexus_hash@ }),
{
    let mut provenance: Vec<String> = Vec::new();
    provenance.push(namespace.to_owned());
    assert(text::texts(provenance@) =~= seq![namespace@]);
    StreamMetadata::new(provenance, plexus_hash)
}

/// The item that answers a call that failed: its message and its code, and no use in trying
/// again.
pub fn error_item(namespace: &str, plexus_hash: String, e: &PlexusError) -> (r: PlexusStreamItem)
    ensures
        r@ == (ItemView::Error {
            metadata: MetaView { provenance: seq![namespace@], plexus_hash: plexus_hash@ },
            message: error::error_message(e@),
            code: Some(code_form(error::error_code(e@))),
            recoverable: false,
        }),
{
    PlexusStreamItem::Error {
        metadata: metadata_of(namespace, plexus_hash),
        message: e.message(),
        code: Some(code_text(plexus_error_code(e))),
        recoverable: false,
    }
}

/// The item that answers a call through the hub's own method that failed: the message alone.
pub fn call_error_item(namespace: &str, plexus_hash: String, e: &PlexusError) -> (r: PlexusStreamItem)
    ensures
        r@ == (ItemView::Error {
            metadata: MetaView { provenance: seq![namespace@], plexus_hash: plexus_hash@ },
            message: error::error_message(e@),
            code: None,
            recoverable: false,
        }),
{
    PlexusStreamItem::Error {
        metadata: metadata_of(namespace, plexus_hash),
        message: e.message(),
        code: None,
        recoverable: false,
    }
}

/// The item that answers where no document is declared.
pub fn connectome_error_item(namespace: &str, plexus_hash: String, message: String) -> (r: PlexusStreamItem)
    ensures
        r@ == (ItemView::Error {
            metadata: MetaView { provenance: seq![namespace@], plexus_hash: plexus_hash@ },
            message: message@,
            code: Some("connectome_not_declared"@),
            recoverable: false,
        }),
{
    PlexusStreamItem::Error {
        metadata: metadata_of(namespace, plexus_hash),
        message,
        code: Some("connectome_not_declared".to_owned()),
        recoverable: false,
    }
}

/// The wire form of an answered hash.
pub open spec fn hash_json(value: Seq<char>) -> JsonView {
    JsonView::Object(
        json::put(
            json::put(Seq::empty(), "event"@, JsonView::Text("hash"@)),
            "value"@,
            JsonView::Text(value),
        ),
    )
}

impl HashEvent {
    /// The wire form.
    pub fn to_json(&self) -> (r: Json)
        ensures
            r@ == hash_json(self->value@),
    {
        let HashEvent::Hash { value } = self;
        let mut e: Vec<(String, Json)> = Vec::new();
        assert(json::entries_view(e@) =~= Seq::empty());
        put_entry(&mut e, "event", Json::text("hash"));
        put_entry(&mut e, "value", Json::text(value.as_str()));
        proof {
            json::lemma_object_view(e);
        }
        Json::Object(e)
    }
}

/// Names as payloads.
pub open spec fn name_payloads(names: Seq<Seq<char>>) -> Seq<JsonView> {
    Seq::new(names.len(), |i: int| JsonView::Text(names[i]))
}

/// The stream that answers a listing or a search of children: each name as data under the
/// method's name, then the end.
pub fn child_names_stream(namespace: &str, plexus_hash: String, method: &str, names: &Vec<String>) -> (r: Vec<
    PlexusStreamItem,
>)
    ensures
        streaming::item_views(r@) == streaming::wrapped(
            name_payloads(text::texts(names@)),
            method@,
            MetaView { provenance: seq![namespace@], plexus_hash: plexus_hash@ },
        ),
{
    let mut payloads: Vec<Result<Json, String>> = Vec::new();
    let mut i: usize = 0;
    while i < names.len()
        invariant
            i <= names.len(),
            payloads@.len() == i,
            forall|j: int|
                0 <= j < i ==> credential_envelope::serialized(#[trigger] payloads@[j]) == JsonView::Text(
                    names@[j]@,
                ),
        decreases names.len() - i,
    {
        payloads.push(Ok(Json::text(names[i].as_str())));
        i += 1;
    }
    assert(streaming::serialized_payloads(payloads@) =~= name_payloads(text::texts(names@)));
    wrap_stream(payloads, method, metadata_of(namespace, plexus_hash))
}

/// What became of a response that a client sent.
#[derive(Debug, PartialEq, Eq)]
pub enum Delivered {
    /// It reached the request.
    Delivered,
    /// Nobody waits for it.
    UnknownRequest,
    /// Nobody waits for it any more.
    ChannelClosed,
    /// It could not be delivered for another reason.
    Failed(String),
}

/// The error that answers a response that did not arrive: a code and a message.
pub open spec fn response_error(d: Delivered, request_id: Seq<char>) -> Option<(int, Seq<char>)> {
    match d {
        Delivered::Delivered => None,
        Delivered::UnknownRequest => Some(
            (
                -32602,
                "Unknown request ID: "@ + request_id + ". The request may have timed out or been cancelled."@,
            ),
        ),
        Delivered::ChannelClosed => Some(
            (-32000, "Response channel was closed (request may have timed out)"@),
        ),
        Delivered::Failed(why) => Some((-32000, "Failed to deliver response: "@ + why@)),
    }
}

/// The answer to a response that a client sent.
pub fn respond_reply(d: Delivered, request_id: &str) -> (r: Result<Json, (i32, String)>)
    ensures
        match r {
            Ok(j) => d is Delivered && j@ == JsonView::Object(
                json::put(Seq::empty(), "success"@, JsonView::Bool(true)),
            ),
            Err(e) => response_error(d, request_id@) == Some((e.0 as int, e.1@)),
        },
{
    match d {
        Delivered::Delivered => {
            let mut e: Vec<(String, Json)> = Vec::new();
            assert(json::entries_view(e@) =~= Seq::empty());
            put_entry(&mut e, "success", Json::Bool(true));
            proof {
                json::lemma_object_view(e);
            }
            Ok(Json::Object(e))
        },
        Delivered::UnknownRequest => Err(
            (
                -32602,
                join3(
                    "Unknown request ID: ",
                    request_id,
                    ". The request may have timed out or been cancelled.",
                ),
            ),
        ),
        Delivered::ChannelClosed => Err(
            (-32000, "Response channel was closed (request may have timed out)".to_owned()),
        ),
        Delivered::Failed(why) => Err((-32000, join2("Failed to deliver response: ", why.as_str()))),
    }
}

/// The subscriptions by which the children of some activations are listed and searched, one
/// activation after the other.
pub open spec fn all_child_subscriptions(
    activations: Map<Seq<char>, ActivationRecord>,
    namespaces: Seq<Seq<char>>,
) -> Seq<SubscriptionView>
    decreases namespaces.len(),
{
    if namespaces.len() == 0 {
        Seq::empty()
    } else {
        all_child_subscriptions(activations, namespaces.drop_last()) + child_subscriptions(
            namespaces.last(),
            activations[namespaces.last()].capabilities,
        )
    }
}

/// What a server is to register for a hub.
#[derive(Debug, Clone, PartialEq, Eq)]
pub struct RpcModule {
    pub subscriptions: Vec<Subscription>,
    /// The methods that answer once.
    pub methods: Vec<String>,
}

/// All the subscriptions of a hub: its own, then those of its activations in the order of
/// their namespaces.
pub open spec fn all_subscriptions<P>(h: DynamicHub<P>) -> Seq<SubscriptionView> {
    hub_subscriptions(h.namespace@) + all_child_subscriptions(
        h.activations@,
        table::keys_in_order(h.activations@.dom()),
    )
}

/// What answers a request for a document.
pub enum ConnectomeAnswer {
    /// The document.
    Document(ActivationIr),
    /// The one item that says that there is none.
    NotDeclared(PlexusStreamItem),
}

/// Whether a schema is the one that a hub makes of itself.
pub open spec fn is_own_schema<P>(h: DynamicHub<P>, s: PluginSchema) -> bool {
    hub::is_hub_schema(h.namespace@, h.activations@, s)
}

/// Whether a schema is another one with the hints of a site, where there is a site.
pub open spec fn is_hinted(before: PluginSchema, after: PluginSchema, site: Option<AttachmentSite>) -> bool {
    match site {
        Some(at) => after == (PluginSchema { methods: after.methods, ..before }) && schema::hints_filled(
            before.methods@,
            after.methods@,
            at,
        ),
        None => after == before,
    }
}

/// Whether a schema is what a hub answers with when its own is asked for.
pub open spec fn is_answered_schema<P>(h: DynamicHub<P>, s: SchemaResult) -> bool {
    s is Plugin && exists|plain: PluginSchema, site: Option<AttachmentSite>| #[trigger]
        is_own_schema(h, plain) && #[trigger] routing::is_hint(site, routing::hub_site(h)) && is_hinted(
            plain,
            s->Plugin_0,
            site,
        )
}

/// The stream of one payload.
pub open spec fn one_payload(payload: JsonView, content_type: Seq<char>, metadata: MetaView) -> Seq<ItemView> {
    seq![ItemView::Data { metadata, content_type, content: payload }, ItemView::Done { metadata }]
}

fn one_payload_stream(payload: Json, content_type: &str, metadata: StreamMetadata) -> (r: Vec<PlexusStreamItem>)
    ensures
        streaming::item_views(r@) == one_payload(payload@, content_type@, metadata@),
{
    let mut payloads: Vec<Result<Json, String>> = Vec::new();
    payloads.push(Ok(payload));
    let ghost all = streaming::serialized_payloads(payloads@);
    assert(all =~= seq![payload@]);
    proof {
        assert(streaming::wrapped(all, content_type@, metadata@) =~= one_payload(
            payload@,
            content_type@,
            metadata@,
        ));
    }
    wrap_stream(payloads, content_type, metadata)
}

impl<P> DynamicHub<P> {
    /// The subscriptions of the hub itself.
    pub fn subscriptions(&self) -> (r: Vec<Subscription>)
        ensures
            subscription_views(r@) == hub_subscriptions(self.namespace@),
    {
        let ns = self.namespace.as_str();
        let mut out: Vec<Subscription> = Vec::new();
        out.push(subscription(dotted_text(ns, "call"), Answer::Call, ns));
        out.push(subscription(dotted_text(ns, "hash"), Answer::Hash, ns));
        out.push(subscription(dotted_text(ns, "schema"), Answer::Schema, ns));
        out.push(subscription(dotted_text(ns, "connectome"), Answer::Connectome, ns));
        out.push(subscription("_info".to_owned(), Answer::Info, ns));
        assert(subscription_views(out@) =~= hub_subscriptions(self.namespace@));
        out
    }

    /// The method through which clients send responses.
    pub fn respond_name(&self) -> (r: String)
        ensures
            r@ == text::dotted(self.namespace@, "respond"@),
    {
        dotted_text(self.namespace.as_str(), "respond")
    }

    /// The subscriptions of the hub and of the children of its activations.
    fn all_subscriptions(&self) -> (r: Vec<Subscription>)
        ensures
            subscription_views(r@) == all_subscriptions(*self),
    {
        let keys = sorted_keys(&self.activations);
        let ghost ks = text::texts(keys@);
        let ghost own = hub_subscriptions(self.namespace@);
        let mut out = self.subscriptions();
        assert(ks.take(0) =~= Seq::empty());
        assert(own + all_child_subscriptions(self.activations@, ks.take(0)) =~= own);
        let mut i: usize = 0;
        while i < keys.len()
            invariant
                i <= keys.len(),
                ks == text::texts(keys@),
                forall|k: Seq<char>| #[trigger] ks.contains(k) <==> self.activations@.dom().contains(k),
                subscription_views(out@) == own + all_child_subscriptions(self.activations@, ks.take(i as int)),
            decreases keys.len() - i,
        {
            proof {
                assert(ks[i as int] == keys@[i as int]@);
                assert(ks.contains(ks[i as int]));
                assert(ks.take(i + 1).drop_last() =~= ks.take(i as int));
                assert(ks.take(i + 1).last() == ks[i as int]);
            }
            match self.activations.get(&keys[i]) {
                Some(a) => {
                    let ghost before = out@;
                    let mut more = register_child_capability_methods(keys[i].as_str(), a.capabilities);
                    let ghost added = more@;
                    out.append(&mut more);
                    proof {
                        assert(out@ =~= before + added);
                        assert(subscription_views(out@) =~= subscription_views(before) + subscription_views(added));
                        assert(subscription_views(out@) =~= own + all_child_subscriptions(
                            self.activations@,
                            ks.take(i + 1),
                        ));
                    }
                },
                None => {},
            }
            i += 1;
        }
        assert(ks.take(ks.len() as int) =~= ks);
        out
    }

    /// What a server registers for the hub: its subscriptions, and the method that clients send
    /// responses to. The methods of the activations themselves come from the activations.
    pub fn into_rpc_module(&self) -> (r: RpcModule)
        ensures
            subscription_views(r.subscriptions@) == all_subscriptions(*self),
            text::texts(r.methods@) == seq![text::dotted(self.namespace@, "respond"@)],
    {
        let mut methods: Vec<String> = Vec::new();
        methods.push(self.respond_name());
        assert(text::texts(methods@) =~= seq![text::dotted(self.namespace@, "respond"@)]);
        RpcModule { subscriptions: self.all_subscriptions(), methods }
    }

    /// What a server registers for a shared hub: the same.
    pub fn arc_into_rpc_module(&self) -> (r: RpcModule)
        ensures
            subscription_views(r.subscriptions@) == all_subscriptions(*self),
            text::texts(r.methods@) == seq![text::dotted(self.namespace@, "respond"@)],
    {
        self.into_rpc_module()
    }

    /// The stream that answers a request for the hub's hash.
    pub fn hash_answer(&self, plexus_hash: String) -> (r: Vec<PlexusStreamItem>)
        requires
            hub::names_are_free(self.activations@),
        ensures
            exists|kids: Seq<ChildView>|
                hub::lists_children(kids, self.activations@) && streaming::item_views(r@) == one_payload(
                    hash_json(#[trigger] hub::hub_hash(kids)),
                    text::dotted(self.namespace@, "hash"@),
                    MetaView { provenance: seq![self.namespace@], plexus_hash: plexus_hash@ },
                ),
    {
        let event = self.hash();
        let content_type = dotted_text(self.namespace.as_str(), "hash");
        one_payload_stream(
            event.to_json(),
            content_type.as_str(),
            metadata_of(self.namespace.as_str(), plexus_hash),
        )
    }

    /// The hub's own schema as it is answered: with hints where to attach credentials, where
    /// the hub's capabilities imply a site.
    pub fn own_schema(&self) -> (r: SchemaResult)
        requires
            hub::names_are_free(self.activations@),
        ensures
            is_answered_schema(*self, r),
    {
        let plain = self.plugin_schema();
        let ghost before = plain;
        assert(is_own_schema(*self, before));
        match self.derived_site_hint() {
            Some(site) => {
                let hinted = plain.fill_site_hints(&site);
                assert(routing::is_hint(Some(site), routing::hub_site(*self)));
                assert(is_hinted(before, hinted, Some(site)));
                SchemaResult::Plugin(hinted)
            },
            None => {
                assert(routing::is_hint(None, routing::hub_site(*self)));
                assert(is_hinted(before, plain, None));
                SchemaResult::Plugin(plain)
            },
        }
    }

    /// The stream that answers a request for the hub's schema.
    pub fn schema_answer(&self, plexus_hash: String) -> (r: Vec<PlexusStreamItem>)
        requires
            hub::names_are_free(self.activations@),
        ensures
            exists|s: SchemaResult| #[trigger]
                is_answered_schema(*self, s) && streaming::item_views(r@) == one_payload(
                    wire::result_json(s),
                    text::dotted(self.namespace@, "schema"@),
                    MetaView { provenance: seq![self.namespace@], plexus_hash: plexus_hash@ },
                ),
    {
        let s = self.own_schema();
        let content_type = dotted_text(self.namespace.as_str(), "schema");
        one_payload_stream(s.to_json(), content_type.as_str(), metadata_of(self.namespace.as_str(), plexus_hash))
    }

    /// The stream that answers a request for the hashes of the hub and its activations.
    pub fn hashes_answer(&self, plexus_hash: String) -> (r: Vec<PlexusStreamItem>)
        requires
            hub::names_are_free(self.activations@),
        ensures
            exists|h: PluginHashes| #[trigger]
                hub::is_hub_hashes(self.namespace@, self.activations@, h) && streaming::item_views(r@) == one_payload(
                    wire::hashes_json(h),
                    text::dotted(self.namespace@, "hashes"@),
                    MetaView { provenance: seq![self.namespace@], plexus_hash: plexus_hash@ },
                ),
    {
        let h = self.hashes();
        assert(hub::is_hub_hashes(self.namespace@, self.activations@, h));
        let content_type = dotted_text(self.namespace.as_str(), "hashes");
        one_payload_stream(h.to_json(), content_type.as_str(), metadata_of(self.namespace.as_str(), plexus_hash))
    }

    /// What answers a request for a document, the hub's own where no path is given.
    pub fn connectome_answer(&self, path: Option<&str>, plexus_hash: String) -> (r: ConnectomeAnswer)
        ensures
            match (path, r) {
                (None, ConnectomeAnswer::Document(d)) => d@ == connectome::hub_document(*self),
                (None, ConnectomeAnswer::NotDeclared(_)) => false,
                (Some(p), ConnectomeAnswer::Document(d)) => connectome::document_at(*self, p@) == Some(d@),
                (Some(p), ConnectomeAnswer::NotDeclared(item)) => {
                    &&& connectome::document_at(*self, p@) is None
                    &&& item@ == (ItemView::Error {
                        metadata: MetaView { provenance: seq![self.namespace@], plexus_hash: plexus_hash@ },
                        message: connectome::not_declared_message(p@),
                        code: Some("connectome_not_declared"@),
                        recoverable: false,
                    })
                },
            },
    {
        match self.connectome_for(path) {
            Ok(d) => ConnectomeAnswer::Document(d),
            Err(message) => ConnectomeAnswer::NotDeclared(
                connectome_error_item(self.namespace.as_str(), plexus_hash, message),
            ),
        }
    }

    /// The stream that answers a request for what the hub says of itself.
    pub fn info_answer(&self, plexus_hash: String) -> (r: Vec<PlexusStreamItem>)
        ensures
            streaming::item_views(r@) == one_payload(
                crate::plexus::capabilities::info_json(self.namespace@, self.auth_capabilities),
                "_info"@,
                MetaView { provenance: Seq::empty(), plexus_hash: plexus_hash@ },
            ),
    {
        let provenance: Vec<String> = Vec::new();
        assert(text::texts(provenance@) =~= Seq::empty());
        one_payload_stream(self.info(), "_info", StreamMetadata::new(provenance, plexus_hash))
    }

    /// What the hub says of itself.
    pub fn info(&self) -> (r: Json)
        ensures
            r@ == crate::plexus::capabilities::info_json(self.namespace@, self.auth_capabilities),
    {
        crate::plexus::capabilities::build_info_payload(self.namespace.as_str(), self.auth_capabilities.as_ref())
    }
}

/// A hub answers five subscriptions of its own, each under the name that goes with what it answers:
/// four behind its namespace and a dot, and one that every hub has under the same name. Each sends
/// its notifications under the common name, and ends under its own name with the common ending.
pub proof fn law_a_hub_answers_under_its_names(namespace: Seq<char>)
    ensures
        hub_subscriptions(namespace).len() == 5,
        forall|i: int|
            0 <= i < 5 ==> {
                let s = #[trigger] hub_subscriptions(namespace)[i];
                &&& s.namespace == namespace
                &&& s.notification == "result"@
                &&& s.unsubscribe == s.name + "_unsub"@
                &&& s.name == (match s.answer {
                    Answer::Call => namespace + seq!['.'] + "call"@,
                    Answer::Hash => namespace + seq!['.'] + "hash"@,
                    Answer::Schema => namespace + seq!['.'] + "schema"@,
                    Answer::Connectome => namespace + seq!['.'] + "connectome"@,
                    Answer::Info => "_info"@,
                    _ => Seq::empty(),
                })
                &&& s.answer != Answer::ListChildren
                &&& s.answer != Answer::SearchChildren
            },
        forall|i: int, j: int|
            0 <= i < j < 5 ==> (#[trigger] hub_subscriptions(namespace)[i]).answer != (#[trigger] hub_subscriptions(
                namespace,
            )[j]).answer,
{
}

/// The children of an activation are listed where it can list them and searched where it can search
/// them, each under the activation's namespace, a dot and the name of the method; the listing
/// comes first, and nothing else is offered.
pub proof fn law_children_are_offered_as_far_as_they_can_be(namespace: Seq<char>, bits: u32)
    ensures
        ({
            let offered = child_subscriptions(namespace, ChildCapabilities { bits });
            let listing = SubscriptionView {
                name: namespace + seq!['.'] + "list_children"@,
                answer: Answer::ListChildren,
                namespace,
                notification: "result"@,
                unsubscribe: namespace + seq!['.'] + "list_children"@ + "_unsub"@,
            };
            let searching = SubscriptionView {
                name: namespace + seq!['.'] + "search_children"@,
                answer: Answer::SearchChildren,
                namespace,
                notification: "result"@,
                unsubscribe: namespace + seq!['.'] + "search_children"@ + "_unsub"@,
            };
            &&& bits & 1 == 0 && bits & 2 == 0 ==> offered.len() == 0
            &&& bits & 1 == 1 && bits & 2 == 0 ==> offered == seq![listing]
            &&& bits & 1 == 0 && bits & 2 == 2 ==> offered == seq![searching]
            &&& bits & 1 == 1 && bits & 2 == 2 ==> offered == seq![listing, searching]
        }),
{
    let offered = child_subscriptions(namespace, ChildCapabilities { bits });
    let listing = subscription_of(
        text::dotted(namespace, "list_children"@),
        Answer::ListChildren,
        namespace,
    );
    let searching = subscription_of(
        text::dotted(namespace, "search_children"@),
        Answer::SearchChildren,
        namespace,
    );
    if bits & 1 == 1 && bits & 2 == 0 {
        assert(offered =~= seq![listing]);
    }
    if bits & 1 == 0 && bits & 2 == 2 {
        assert(offered =~= seq![searching]);
    }
    if bits & 1 == 1 && bits & 2 == 2 {
        assert(offered =~= seq![listing, searching]);
    }
}

/// What a server registers for a hub are the hub's own subscriptions and, behind them, those of the
/// children of each activation, activation by activation in the order of the namespaces: each of
/// them, and nothing else.
pub proof fn law_every_subscription_is_registered<P>(h: DynamicHub<P>, s: SubscriptionView)
    requires
        h.activations@.dom().finite(),
    ensures
        all_subscriptions(h).take(5) == hub_subscriptions(h.namespace@),
        all_subscriptions(h).contains(s) <==> hub_subscriptions(h.namespace@).contains(s) || exists|k: Seq<char>|
            h.activations@.dom().contains(k) && #[trigger] child_subscriptions(
                k,
                h.activations@[k].capabilities,
            ).contains(s),
{
    let ks = table::keys_in_order(h.activations@.dom());
    let own = hub_subscriptions(h.namespace@);
    let rest = all_child_subscriptions(h.activations@, ks);
    let all = all_subscriptions(h);
    table::lemma_keys_in_order(h.activations@.dom());
    lemma_child_subscriptions(h.activations@, ks, s);
    assert(all.take(5) =~= own);
    if all.contains(s) {
        let i = choose|i: int| 0 <= i < all.len() && all[i] == s;
        if i < own.len() {
            assert(own[i] == s);
        } else {
            assert(rest[i - own.len()] == s);
            assert(rest.contains(s));
            let k = choose|k: int|
                0 <= k < ks.len() && #[trigger] child_subscriptions(ks[k], h.activations@[ks[k]].capabilities).contains(
                    s,
                );
            assert(ks.contains(ks[k]));
        }
    }
    if own.contains(s) {
        let i = choose|i: int| 0 <= i < own.len() && own[i] == s;
        assert(all[i] == s);
    }
    if exists|k: Seq<char>|
        h.activations@.dom().contains(k) && #[trigger] child_subscriptions(
            k,
            h.activations@[k].capabilities,
        ).contains(s) {
        let k = choose|k: Seq<char>|
            h.activations@.dom().contains(k) && #[trigger] child_subscriptions(
                k,
                h.activations@[k].capabilities,
            ).contains(s);
        assert(ks.contains(k));
        let p = choose|p: int| 0 <= p < ks.len() && ks[p] == k;
        assert(child_subscriptions(ks[p], h.activations@[ks[p]].capabilities).contains(s));
        assert(rest.contains(s));
        let i = choose|i: int| 0 <= i < rest.len() && rest[i] == s;
        assert(all[own.len() + i] == s);
    }
}

proof fn lemma_child_subscriptions(
    activations: Map<Seq<char>, ActivationRecord>,
    ks: Seq<Seq<char>>,
    s: SubscriptionView,
)
    ensures
        all_child_subscriptions(activations, ks).contains(s) <==> exists|k: int|
            0 <= k < ks.len() && #[trigger] child_subscriptions(ks[k], activations[ks[k]].capabilities).contains(s),
    decreases ks.len(),
{
    let all = all_child_subscriptions(activations, ks);
    if ks.len() > 0 {
        let rest = ks.drop_last();
        let last = ks.len() - 1;
        let before = all_child_subscriptions(activations, rest);
        let added = child_subscriptions(ks.last(), activations[ks.last()].capabilities);
        lemma_child_subscriptions(activations, rest, s);
        assert(ks[last] == ks.last());
        if all.contains(s) {
            let i = choose|i: int| 0 <= i < all.len() && all[i] == s;
            if i < before.len() {
                assert(before[i] == s);
                assert(before.contains(s));
                let k = choose|k: int|
                    0 <= k < rest.len() && #[trigger] child_subscriptions(
                        rest[k],
                        activations[rest[k]].capabilities,
                    ).contains(s);
                assert(child_subscriptions(ks[k], activations[ks[k]].capabilities).contains(s));
            } else {
                assert(added[i - before.len()] == s);
                assert(child_subscriptions(ks[last], activations[ks[last]].capabilities).contains(s));
            }
        }
        if exists|k: int|
            0 <= k < ks.len() && #[trigger] child_subscriptions(ks[k], activations[ks[k]].capabilities).contains(s) {
            let k = choose|k: int|
                0 <= k < ks.len() && #[trigger] child_subscriptions(ks[k], activations[ks[k]].capabilities).contains(s);
            if k < last {
                assert(child_subscriptions(rest[k], activations[rest[k]].capabilities).contains(s));
                assert(before.contains(s));
                let i = choose|i: int| 0 <= i < before.len() && before[i] == s;
                assert(all[i] == s);
            } else {
                let i = choose|i: int| 0 <= i < added.len() && added[i] == s;
                assert(all[before.len() + i] == s);
            }
        }
    }
}

/// The code of an error is written as a number: the digits of a negative one behind a sign.
pub proof fn law_a_code_is_written_as_a_number(n: nat)
    ensures
        code_form(n as int) == text::decimal(n),
        n > 0 ==> code_form(-n) == seq!['-'] + text::decimal(n),
{
}

/// A response that did not arrive is answered with why: bad parameters that name the request where
/// nobody waits for it, and a fault of the server, with its reason, otherwise. One that arrived is
/// no error.
pub proof fn law_a_lost_response_is_answered_with_why(d: Delivered, request_id: Seq<char>, other: Seq<char>)
    ensures
        response_error(d, request_id) is None <==> d is Delivered,
        d is UnknownRequest ==> (response_error(d, request_id)->0).0 == -32602,
        d is UnknownRequest && response_error(d, request_id) == response_error(d, other) ==> request_id == other,
        d is ChannelClosed || d is Failed ==> (response_error(d, request_id)->0).0 == -32000,
        d matches Delivered::Failed(why) ==> text::ends_with((response_error(d, request_id)->0).1, why@),
{
    match d {
        Delivered::UnknownRequest => {
            let a = "Unknown request ID: "@;
            let z = ". The request may have timed out or been cancelled."@;
            let x = a + request_id + z;
            let y = a + other + z;
            if response_error(d, request_id) == response_error(d, other) {
                assert(x == y);
                assert(x.len() == y.len());
                assert(request_id =~= x.subrange(a.len() as int, x.len() - z.len()));
                assert(other =~= y.subrange(a.len() as int, y.len() - z.len()));
            }
        },
        Delivered::Failed(why) => {
            let a = "Failed to deliver response: "@;
            assert((a + why@).skip(a.len() as int) =~= why@);
        },
        _ => {},
    }
}

/// An answered hash shows its value, and what it is.
pub proof fn law_an_answered_hash_shows_its_value(value: Seq<char>)
    ensures
        json::json_get(hash_json(value), "value"@) == Some(JsonView::Text(value)),
        json::json_get(hash_json(value), "event"@) == Some(JsonView::Text("hash"@)),
{
    broadcast use wire::lemma_read_put;

    reveal_strlit("event");
    reveal_strlit("value");
    assert("event"@[0] != "value"@[0]);
}

/// An answer of one payload is that payload under its content type, and then the end; names are
/// answered one by one, each as a text.
pub proof fn law_an_answer_carries_its_payload(
    payload: JsonView,
    content_type: Seq<char>,
    metadata: MetaView,
    names: Seq<Seq<char>>,
)
    ensures
        one_payload(payload, content_type, metadata).len() == 2,
        one_payload(payload, content_type, metadata)[0] == (ItemView::Data { metadata, content_type, content: payload }),
        one_payload(payload, content_type, metadata)[1] == (ItemView::Done { metadata }),
        name_payloads(names).len() == names.len(),
        forall|i: int| 0 <= i < names.len() ==> #[trigger] name_payloads(names)[i] == JsonView::Text(names[i]),
{
}

/// The schema that a hub answers with is its own: with its namespace, its hashes, its children and
/// its methods, which differ from the hub's own in the hints to the credentials that they demand,
/// and in nothing where the hub implies no site.
pub proof fn law_the_answered_schema_is_the_hubs_own<P>(h: DynamicHub<P>, s: SchemaResult)
    requires
        is_answered_schema(h, s),
    ensures
        s is Plugin,
        exists|own: PluginSchema|
            {
                let told = s->Plugin_0;
                &&& #[trigger] hub::is_hub_schema(h.namespace@, h.activations@, own)
                &&& told == (PluginSchema { methods: told.methods, ..own })
                &&& told.methods@.len() == own.methods@.len()
                &&& forall|i: int|
                    0 <= i < told.methods@.len() ==> (#[trigger] told.methods@[i]) == (schema::MethodSchema {
                        requires_credential: told.methods@[i].requires_credential,
                        ..own.methods@[i]
                    })
                &&& routing::hub_site(h) is None ==> told == own
            },
{
    let (plain, site) = choose|plain: PluginSchema, site: Option<AttachmentSite>| #[trigger]
        is_own_schema(h, plain) && #[trigger] routing::is_hint(site, routing::hub_site(h)) && is_hinted(
            plain,
            s->Plugin_0,
            site,
        );
    let told = s->Plugin_0;
    assert(hub::is_hub_schema(h.namespace@, h.activations@, plain));
    assert forall|i: int| 0 <= i < told.methods@.len() implies (#[trigger] told.methods@[i]) == (schema::MethodSchema {
        requires_credential: told.methods@[i].requires_credential,
        ..plain.methods@[i]
    }) by {
        if site is Some {
            schema::law_a_hint_is_filled_where_it_is_missing(plain.methods@[i], site->0);
        }
    }
}

} // verus!
