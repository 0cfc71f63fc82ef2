//! The documents that a hub serves: its own, and those of what is below it.

use crate::ir;
use crate::ir::{ActivationIr, ChildEdge, EdgeView, IrView};
use crate::plexus::hub;
use crate::plexus::hub::{ActivationRecord, DynamicHub};
use crate::table;
use crate::table::sorted_keys;
use crate::text;
use crate::text::{join3, split_all};
use vstd::prelude::*;

verus! {

/// The document that is embedded for an activation: its own, else the one declared for it.
pub open spec fn embedded_document(a: ActivationRecord, declared: Map<Seq<char>, ActivationIr>, k: Seq<char>) -> Option<
    IrView,
> {
    match a.connectome_subtree {
        Some(d) => Some(d@),
        None => if declared.dom().contains(k) {
            Some(declared[k]@)
        } else {
            None
        },
    }
}

/// The edge by which an activation shows in the hub's document: the edge that it is, else its
/// document embedded, else its name and the hash of the document that is served for it, else
/// its name and the hash of its schema.
pub open spec fn edge_for(
    a: ActivationRecord,
    declared: Map<Seq<char>, ActivationIr>,
    lazy: Map<Seq<char>, ActivationIr>,
    k: Seq<char>,
) -> EdgeView {
    match a.connectome_edge {
        Some(e) => e@,
        None => match embedded_document(a, declared, k) {
            Some(d) => EdgeView::Static { child: Box::new(d) },
            None => if lazy.dom().contains(k) {
                EdgeView::Dynamic { namespace: k, hash: lazy[k].hash@, description: lazy[k].description@ }
            } else {
                EdgeView::Dynamic {
                    namespace: a.plugin_schema.namespace@,
                    hash: a.plugin_schema.hash@,
                    description: a.plugin_schema.description@,
                }
            },
        },
    }
}

/// The edges of a hub's document, in the order of the activations' names.
pub open spec fn hub_edges<P>(h: DynamicHub<P>) -> Seq<EdgeView> {
    let ks = table::keys_in_order(h.activations@.dom());
    Seq::new(ks.len(), |i: int| edge_for(h.activations@[ks[i]], h.declared_irs@, h.lazy_irs@, ks[i]))
}

/// A hub's document before its hashes.
pub open spec fn hub_root<P>(h: DynamicHub<P>) -> IrView {
    IrView {
        namespace: h.namespace@,
        version: hub::HUB_VERSION@,
        description: hub::HUB_DESCRIPTION@,
        long_description: None,
        methods: Seq::empty(),
        children: hub_edges(h),
        backend_name: text::opt_text(h.backend_name),
        respond_method: text::opt_text(h.respond_method),
        ir_version: None,
        hash_algorithm: None,
        ir_hash: None,
        hash: Seq::empty(),
    }
}

/// A hub's document.
pub open spec fn hub_document<P>(h: DynamicHub<P>) -> IrView {
    ir::rehashed(hub_root(h))
}

/// A document as a hub serves it: with what the hub says of itself, and with its hashes.
pub open spec fn served<P>(h: DynamicHub<P>, d: IrView) -> IrView {
    ir::rehashed(
        IrView {
            backend_name: match h.backend_name {
                Some(n) => Some(n@),
                None => d.backend_name,
            },
            respond_method: match h.respond_method {
                Some(m) => Some(m@),
                None => d.respond_method,
            },
            ..d
        },
    )
}

/// The node that a path of names leads to; empty names are passed over, and no path leads
/// through a lazy edge.
pub open spec fn walk(d: IrView, names: Seq<Seq<char>>) -> Option<IrView>
    decreases names.len(),
{
    if names.len() == 0 {
        Some(d)
    } else if names[0].len() == 0 {
        walk(d, names.skip(1))
    } else {
        match ir::first_edge(d.children, names[0]) {
            None => None,
            Some(e) => match ir::edge_document(e) {
                None => None,
                Some(c) => walk(c, names.skip(1)),
            },
        }
    }
}

/// The document at a path below a hub: the one embedded for the activation of that name, else
/// the one declared for the path, else the node that the hub's document carries there.
pub open spec fn document_at<P>(h: DynamicHub<P>, path: Seq<char>) -> Option<IrView> {
    let embedded = if h.activations@.dom().contains(path) {
        embedded_document(h.activations@[path], h.declared_irs@, path)
    } else {
        None
    };
    if path.len() == 0 {
        None
    } else if embedded is Some {
        Some(served(h, embedded->0))
    } else if h.lazy_irs@.dom().contains(path) {
        Some(served(h, h.lazy_irs@[path]@))
    } else {
        match walk(hub_document(h), text::segments(path, '/')) {
            Some(d) => Some(served(h, d)),
            None => None,
        }
    }
}

/// The message where no document is declared.
pub open spec fn not_declared_message(path: Seq<char>) -> Seq<char> {
    "no Connectome document is declared for `"@ + path + "`"@
}

impl<P> DynamicHub<P> {
    /// The same hub with a document to embed for the activation of its namespace.
    pub fn declare_ir(self, document: ActivationIr) -> (r: Self)
        ensures
            r == (DynamicHub { declared_irs: r.declared_irs, ..self }),
            r.declared_irs@ == self.declared_irs@.insert(document.namespace@, document),
            self.wf() ==> r.wf(),
    {
        let mut hub = self;
        hub.declared_irs.insert(document.namespace.clone(), document);
        hub
    }

    /// The same hub with a document to serve, and not embed, for the activation of its
    /// namespace.
    pub fn declare_ir_lazy(self, document: ActivationIr) -> (r: Self)
        ensures
            r == (DynamicHub { lazy_irs: r.lazy_irs, ..self }),
            exists|d: ActivationIr| #[trigger]
                d@ == ir::rehashed(document@) && r.lazy_irs@ == self.lazy_irs@.insert(document.namespace@, d),
            self.wf() ==> r.wf(),
    {
        let path = document.namespace.clone();
        self.declare_ir_at(path, document)
    }

    /// The same hub with a document to serve at a path.
    pub fn declare_ir_at(self, path: String, document: ActivationIr) -> (r: Self)
        ensures
            r == (DynamicHub { lazy_irs: r.lazy_irs, ..self }),
            exists|d: ActivationIr| #[trigger]
                d@ == ir::rehashed(document@) && r.lazy_irs@ == self.lazy_irs@.insert(path@, d),
            self.wf() ==> r.wf(),
    {
        let mut hub = self;
        let d = document.recompute_hashes();
        let ghost kept = d;
        proof {
            ir::law_rehashing_is_stable(document@);
        }
        hub.lazy_irs.insert(path, d);
        assert(kept@ == ir::rehashed(document@));
        hub
    }

    /// The document that is embedded for an activation.
    fn embedded_for(&self, a: &ActivationRecord, k: &String) -> (r: Option<ActivationIr>)
        ensures
            match r {
                Some(d) => embedded_document(*a, self.declared_irs@, k@) == Some(d@),
                None => embedded_document(*a, self.declared_irs@, k@) is None,
            },
    {
        match &a.connectome_subtree {
            Some(d) => Some(d.copy()),
            None => match self.declared_irs.get(k) {
                Some(d) => Some(d.copy()),
                None => None,
            },
        }
    }

    /// The edge by which an activation shows in the hub's document.
    fn edge_of(&self, a: &ActivationRecord, k: &String) -> (r: ChildEdge)
        ensures
            r@ == edge_for(*a, self.declared_irs@, self.lazy_irs@, k@),
    {
        match &a.connectome_edge {
            Some(e) => e.copy(),
            None => match self.embedded_for(a, k) {
                Some(d) => ChildEdge::embedded(d),
                None => match self.lazy_irs.get(k) {
                    Some(d) => ChildEdge::lazy(k.clone(), d.hash.clone(), d.description.clone()),
                    None => ChildEdge::lazy(
                        a.plugin_schema.namespace.clone(),
                        a.plugin_schema.hash.clone(),
                        a.plugin_schema.description.clone(),
                    ),
                },
            },
        }
    }

    /// The hub's document.
    pub fn connectome(&self) -> (r: ActivationIr)
        ensures
            r@ == hub_document(*self),
    {
        let mut root = ActivationIr::new(self.namespace.clone(), hub::HUB_VERSION.to_owned());
        root = root.with_description(hub::HUB_DESCRIPTION.to_owned());
        match &self.backend_name {
            Some(n) => {
                root = root.with_backend_name(n.clone());
            },
            None => {},
        }
        match &self.respond_method {
            Some(m) => {
                root = root.with_respond_method(m.clone());
            },
            None => {},
        }
        let ghost bare = root;
        let keys = sorted_keys(&self.activations);
        let ghost ks = text::texts(keys@);
        let mut i: usize = 0;
        while i < keys.len()
            invariant
                i <= keys.len(),
                ks == text::texts(keys@),
                forall|k: Seq<char>| #[trigger] ks.contains(k) <==> self.activations@.dom().contains(k),
                root == (ActivationIr { children: root.children, ..bare }),
                root.children@.len() == i,
                forall|j: int|
                    0 <= j < i ==> (#[trigger] root.children@[j])@ == edge_for(
                        self.activations@[ks[j]],
                        self.declared_irs@,
                        self.lazy_irs@,
                        ks[j],
                    ),
            decreases keys.len() - i,
        {
            proof {
                assert(ks[i as int] == keys@[i as int]@);
                assert(ks.contains(ks[i as int]));
            }
            match self.activations.get(&keys[i]) {
                Some(a) => {
                    root = root.with_child(self.edge_of(a, &keys[i]));
                },
                None => {},
            }
            i += 1;
        }
        proof {
            ir::lemma_ir_children(root);
            assert(root@.children =~= hub_edges(*self));
            assert(root@.methods =~= Seq::empty());
            assert(root@.hash =~= Seq::empty());
            assert(root@ =~= hub_root(*self));
        }
        root.recompute_hashes()
    }

    /// A document as the hub serves it.
    fn as_served_document(&self, document: ActivationIr) -> (r: ActivationIr)
        ensures
            r@ == served(*self, document@),
    {
        let ghost before = document;
        let mut d = document;
        match &self.backend_name {
            Some(n) => {
                d = d.with_backend_name(n.clone());
            },
            None => {},
        }
        match &self.respond_method {
            Some(m) => {
                d = d.with_respond_method(m.clone());
            },
            None => {},
        }
        proof {
            ir::lemma_ir_children(d);
            ir::lemma_ir_children(before);
        }
        d.recompute_hashes()
    }

    /// The document at a path below the hub.
    pub fn child_connectome(&self, path: &str) -> (r: Option<ActivationIr>)
        ensures
            match r {
                Some(d) => document_at(*self, path@) == Some(d@),
                None => document_at(*self, path@) is None,
            },
    {
        if path.is_empty() {
            return None;
        }
        let key = path.to_owned();
        match self.activations.get(&key) {
            Some(a) => match self.embedded_for(a, &key) {
                Some(d) => {
                    return Some(self.as_served_document(d));
                },
                None => {},
            },
            None => {},
        }
        match self.lazy_irs.get(&key) {
            Some(d) => {
                return Some(self.as_served_document(d.copy()));
            },
            None => {},
        }
        let names = split_all(path, '/');
        let ghost all = text::segments(path@, '/');
        let mut node = self.connectome();
        let mut i: usize = 0;
        assert(all.skip(0) =~= all);
        while i < names.len()
            invariant
                i <= names.len(),
                names@.len() == all.len(),
                forall|j: int| 0 <= j < names@.len() ==> (#[trigger] names@[j])@ == all[j],
                walk(hub_document(*self), all) == walk(node@, all.skip(i as int)),
                all == text::segments(path@, '/'),
                document_at(*self, path@) == (match walk(hub_document(*self), all) {
                    Some(d) => Some(served(*self, d)),
                    None => None,
                }),
            decreases names.len() - i,
        {
            proof {
                assert(all.skip(i as int)[0] == names@[i as int]@);
                assert(all.skip(i as int).skip(1) =~= all.skip(i + 1));
            }
            let name = names[i];
            if !name.is_empty() {
                let next = match node.child(name) {
                    None => {
                        return None;
                    },
                    Some(e) => match e.child() {
                        None => {
                            return None;
                        },
                        Some(c) => c.copy(),
                    },
                };
                node = next;
            }
            i += 1;
        }
        assert(all.skip(all.len() as int) =~= Seq::empty());
        Some(self.as_served_document(node))
    }

    /// The document that is asked for: the hub's own, or the one at a path; else the message
    /// that there is none.
    pub fn connectome_for(&self, path: Option<&str>) -> (r: Result<ActivationIr, String>)
        ensures
            match (path, r) {
                (None, Ok(d)) => d@ == hub_document(*self),
                (None, Err(_)) => false,
                (Some(p), Ok(d)) => document_at(*self, p@) == Some(d@),
                (Some(p), Err(m)) => document_at(*self, p@) is None && m@ == not_declared_message(p@),
            },
    {
        match path {
            None => Ok(self.connectome()),
            Some(p) => match self.child_connectome(p) {
                Some(d) => Ok(d),
                None => Err(join3("no Connectome document is declared for `", p, "`")),
            },
        }
    }
}

/// What is served for a path that a lazy edge names has the hash that the edge advertises.
pub proof fn law_an_advertised_hash_is_served<P>(h: DynamicHub<P>, k: Seq<char>)
    requires
        h.wf(),
        k.len() > 0,
        h.activations@.dom().contains(k),
        h.activations@[k].connectome_edge is None,
        embedded_document(h.activations@[k], h.declared_irs@, k) is None,
        h.lazy_irs@.dom().contains(k),
    ensures
        edge_for(h.activations@[k], h.declared_irs@, h.lazy_irs@, k) is Dynamic,
        document_at(h, k) is Some,
        document_at(h, k)->0.hash == edge_for(h.activations@[k], h.declared_irs@, h.lazy_irs@, k)->Dynamic_hash,
{
    let d = h.lazy_irs@[k]@;
    lemma_served_hash(h, d);
    assert(d == ir::rehashed(d));
    assert(d.hash == ir::folded(d).hash);
}

/// What is served for an activation whose document is embedded has the hash that it has where
/// it is embedded.
pub proof fn law_an_embedded_hash_is_served<P>(h: DynamicHub<P>, k: Seq<char>)
    requires
        k.len() > 0,
        h.activations@.dom().contains(k),
        embedded_document(h.activations@[k], h.declared_irs@, k) is Some,
    ensures
        document_at(h, k) is Some,
        document_at(h, k)->0.hash == ir::folded(embedded_document(h.activations@[k], h.declared_irs@, k)->0).hash,
{
    lemma_served_hash(h, embedded_document(h.activations@[k], h.declared_irs@, k)->0);
}

proof fn lemma_served_hash<P>(h: DynamicHub<P>, d: IrView)
    ensures
        served(h, d).hash == ir::folded(d).hash,
{
    let backend_name = match h.backend_name {
        Some(n) => Some(n@),
        None => d.backend_name,
    };
    let respond_method = match h.respond_method {
        Some(m) => Some(m@),
        None => d.respond_method,
    };
    ir::law_root_facts_leave_the_node_alone(d, backend_name, respond_method);
    ir::law_a_served_node_keeps_its_hash(d);
}

/// Every document that a hub with a name and a respond method serves says both.
pub proof fn law_served_documents_say_who_serves_them<P>(h: DynamicHub<P>, path: Seq<char>)
    requires
        h.backend_name is Some,
        h.respond_method is Some,
        document_at(h, path) is Some,
    ensures
        document_at(h, path)->0.backend_name == Some(h.backend_name->0@),
        document_at(h, path)->0.respond_method == Some(h.respond_method->0@),
        document_at(h, path)->0.ir_version == Some(ir::IR_VERSION@),
        document_at(h, path)->0.hash_algorithm == Some(ir::HASH_ALGORITHM@),
        hub_document(h).backend_name == Some(h.backend_name->0@),
        hub_document(h).respond_method == Some(h.respond_method->0@),
{
}

/// Every document that a hub serves, its own and those below it, says at its root the version of
/// its form, how its hashes were computed, and the hash of the whole.
pub proof fn law_a_root_says_the_mandatory_facts<P>(h: DynamicHub<P>, path: Seq<char>)
    ensures
        hub_document(h).ir_version == Some(ir::IR_VERSION@),
        hub_document(h).hash_algorithm == Some(ir::HASH_ALGORITHM@),
        hub_document(h).ir_hash is Some,
        document_at(h, path) matches Some(d) ==> {
            &&& d.ir_version == Some(ir::IR_VERSION@)
            &&& d.hash_algorithm == Some(ir::HASH_ALGORITHM@)
            &&& d.ir_hash is Some
        },
{
}

/// A document declared for a namespace that nobody has adds no edge.
pub proof fn law_a_document_alone_adds_no_edge<P>(before: DynamicHub<P>, after: DynamicHub<P>, k: Seq<char>, d: ActivationIr)
    requires
        after == (DynamicHub { declared_irs: after.declared_irs, ..before }),
        after.declared_irs@ == before.declared_irs@.insert(k, d),
        !before.activations@.dom().contains(k),
        before.activations@.dom().finite(),
    ensures
        hub_document(after) == hub_document(before),
{
    let dom = before.activations@.dom();
    table::lemma_keys_in_order(dom);
    let ks = table::keys_in_order(dom);
    assert forall|i: int| 0 <= i < ks.len() implies #[trigger] hub_edges(after)[i] == hub_edges(before)[i] by {
        assert(ks.contains(ks[i]));
        assert(dom.contains(ks[i]));
    }
    assert(hub_edges(after) =~= hub_edges(before));
}

/// Documents that are declared to be served, and not embedded, leave embedded nodes alone.
pub proof fn law_embedding_wins<P>(h: DynamicHub<P>, k: Seq<char>)
    requires
        h.activations@.dom().contains(k),
        h.activations@[k].connectome_edge is None,
        embedded_document(h.activations@[k], h.declared_irs@, k) is Some,
    ensures
        edge_for(h.activations@[k], h.declared_irs@, h.lazy_irs@, k) is Static,
{
}

/// An activation shows in the hub's document as what is known of it, the best first: the edge that
/// it is; its own document; the document that was declared for it; the name and the hash of the
/// document that is served for it; the namespace and the hash of its schema.
pub proof fn law_an_activation_shows_as_what_is_known_of_it(
    a: ActivationRecord,
    declared: Map<Seq<char>, ActivationIr>,
    lazy: Map<Seq<char>, ActivationIr>,
    k: Seq<char>,
)
    ensures
        a.connectome_edge matches Some(e) ==> edge_for(a, declared, lazy, k) == e@,
        a.connectome_edge is None ==> (a.connectome_subtree matches Some(d) ==> edge_for(a, declared, lazy, k) == (
        EdgeView::Static { child: Box::new(d@) })),
        a.connectome_edge is None && a.connectome_subtree is None && declared.dom().contains(k) ==> edge_for(
            a,
            declared,
            lazy,
            k,
        ) == (EdgeView::Static { child: Box::new(declared[k]@) }),
        a.connectome_edge is None && a.connectome_subtree is None && !declared.dom().contains(k) && lazy.dom().contains(
            k,
        ) ==> edge_for(a, declared, lazy, k) == (EdgeView::Dynamic {
            namespace: k,
            hash: lazy[k].hash@,
            description: lazy[k].description@,
        }),
        a.connectome_edge is None && a.connectome_subtree is None && !declared.dom().contains(k)
            && !lazy.dom().contains(k) ==> edge_for(a, declared, lazy, k) == (EdgeView::Dynamic {
            namespace: a.plugin_schema.namespace@,
            hash: a.plugin_schema.hash@,
            description: a.plugin_schema.description@,
        }),
{
}

/// The document of a hub is its own: under its namespace, without methods, with what the hub says of
/// its backend, and with one edge for each activation, in the order of their names, folded.
pub proof fn law_a_hub_shows_each_activation<P>(h: DynamicHub<P>)
    requires
        h.activations@.dom().finite(),
    ensures
        hub_document(h).namespace == h.namespace@,
        hub_document(h).version == hub::HUB_VERSION@,
        hub_document(h).description == hub::HUB_DESCRIPTION@,
        hub_document(h).methods.len() == 0,
        hub_document(h).backend_name == text::opt_text(h.backend_name),
        hub_document(h).respond_method == text::opt_text(h.respond_method),
        hub_document(h).children.len() == h.activations@.dom().len(),
        ({
            let ks = table::keys_in_order(h.activations@.dom());
            &&& text::is_sorted(ks)
            &&& ks.no_duplicates()
            &&& forall|k: Seq<char>| #[trigger] ks.contains(k) <==> h.activations@.dom().contains(k)
            &&& forall|i: int|
                0 <= i < ks.len() ==> #[trigger] hub_document(h).children[i] == ir::folded_edge(
                    edge_for(h.activations@[ks[i]], h.declared_irs@, h.lazy_irs@, ks[i]),
                )
        }),
{
    let dom = h.activations@.dom();
    let ks = table::keys_in_order(dom);
    table::lemma_keys_in_order(dom);
    ir::law_rehashing_keeps_what_is_declared(hub_root(h));
    ks.unique_seq_to_set();
    assert(ks.to_set() =~= dom);
    assert forall|i: int| 0 <= i < ks.len() implies #[trigger] hub_document(h).children[i] == ir::folded_edge(
        edge_for(h.activations@[ks[i]], h.declared_irs@, h.lazy_irs@, ks[i]),
    ) by {
        assert(hub_root(h).children[i] == edge_for(h.activations@[ks[i]], h.declared_irs@, h.lazy_irs@, ks[i]));
    }
}

/// A served document is the one that was declared, but for its hashes and what the hub says of
/// itself: where the hub says nothing, the document's own word stays.
pub proof fn law_a_served_document_is_the_declared_one<P>(h: DynamicHub<P>, d: IrView)
    ensures
        served(h, d).namespace == d.namespace,
        served(h, d).version == d.version,
        served(h, d).description == d.description,
        served(h, d).long_description == d.long_description,
        served(h, d).methods == d.methods,
        served(h, d).children == ir::folded(d).children,
        served(h, d).hash == ir::folded(d).hash,
        h.backend_name matches Some(n) ==> served(h, d).backend_name == Some(n@),
        h.backend_name is None ==> served(h, d).backend_name == d.backend_name,
        h.respond_method matches Some(m) ==> served(h, d).respond_method == Some(m@),
        h.respond_method is None ==> served(h, d).respond_method == d.respond_method,
{
    let backend_name = match h.backend_name {
        Some(n) => Some(n@),
        None => d.backend_name,
    };
    let respond_method = match h.respond_method {
        Some(m) => Some(m@),
        None => d.respond_method,
    };
    lemma_served_hash(h, d);
    ir::law_root_facts_leave_the_node_alone(d, backend_name, respond_method);
    ir::law_rehashing_keeps_what_is_declared(IrView { backend_name, respond_method, ..d });
    ir::law_rehashing_keeps_what_is_declared(d);
}

/// A path leads from node to node by the names of children: no name leads nowhere else, an empty
/// name is passed over, a name leads into the document that its edge carries, and no path leads on
/// from a lazy edge or from a name that no child has.
pub proof fn law_a_path_leads_from_child_to_child(d: IrView, name: Seq<char>, rest: Seq<Seq<char>>)
    ensures
        walk(d, Seq::empty()) == Some(d),
        walk(d, seq![Seq::<char>::empty()] + rest) == walk(d, rest),
        name.len() > 0 && ir::first_edge(d.children, name) is None ==> walk(d, seq![name] + rest) is None,
        name.len() > 0 && ir::first_edge(d.children, name) is Some && ir::first_edge(d.children, name)->0 is Dynamic
            ==> walk(d, seq![name] + rest) is None,
        name.len() > 0 && ir::first_edge(d.children, name) is Some ==> (ir::first_edge(d.children, name)->0 matches EdgeView::Static {
            child,
        } ==> walk(d, seq![name] + rest) == walk(*child, rest)),
        name.len() > 0 && ir::first_edge(d.children, name) is Some ==> (ir::first_edge(d.children, name)->0 matches EdgeView::Indexed {
            template,
            ..
        } ==> walk(d, seq![name] + rest) == walk(*template, rest)),
{
    assert((seq![name] + rest).skip(1) =~= rest);
    assert((seq![Seq::<char>::empty()] + rest).skip(1) =~= rest);
    assert((seq![name] + rest)[0] == name);
    assert((seq![Seq::<char>::empty()] + rest)[0].len() == 0);
}

/// What is served at a path: nothing at the empty one; the embedded document of the activation of
/// that name; else the document that was declared for the path; else the node that the hub's own
/// document carries there; each as the hub serves it, and nothing where there is none of them.
pub proof fn law_the_best_document_is_served<P>(h: DynamicHub<P>, path: Seq<char>)
    ensures
        path.len() == 0 ==> document_at(h, path) is None,
        path.len() > 0 && h.activations@.dom().contains(path) && h.activations@[path].connectome_subtree is Some
            ==> document_at(h, path) == Some(served(h, h.activations@[path].connectome_subtree->0@)),
        path.len() > 0 && h.activations@.dom().contains(path) && h.activations@[path].connectome_subtree is None
            && h.declared_irs@.dom().contains(path) ==> document_at(h, path) == Some(
            served(h, h.declared_irs@[path]@),
        ),
        path.len() > 0 && !(h.activations@.dom().contains(path) && (h.activations@[path].connectome_subtree is Some
            || h.declared_irs@.dom().contains(path))) && h.lazy_irs@.dom().contains(path) ==> document_at(h, path)
            == Some(served(h, h.lazy_irs@[path]@)),
        path.len() > 0 && !(h.activations@.dom().contains(path) && (h.activations@[path].connectome_subtree is Some
            || h.declared_irs@.dom().contains(path))) && !h.lazy_irs@.dom().contains(path) ==> {
            &&& document_at(h, path) is Some <==> walk(hub_document(h), text::segments(path, '/')) is Some
            &&& walk(hub_document(h), text::segments(path, '/')) matches Some(d) ==> document_at(h, path) == Some(
                served(h, d),
            )
        },
{
}

/// What is told where no document is declared names the path that was asked for.
pub proof fn law_an_undeclared_document_is_named(path: Seq<char>)
    ensures
        not_declared_message(path) == "no Connectome document is declared for `"@ + path + "`"@,
{
}

} // verus!
