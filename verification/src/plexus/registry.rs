//! Which activation stands behind which identifier, and which identifier behind which path.

use crate::outside;
use crate::outside::uuid_v5;
use crate::table;
use crate::table::Table;
use crate::text;
use crate::text::{find_first, join3};
use vstd::prelude::*;

verus! {

/// The namespace of the identifiers that are derived from names.
pub const NAMESPACE_OID: u128 = 0x6ba7b812_9dad_11d1_80b4_00c04fd430c8;

/// What stands before the first dot of a version; all of it when there is none.
pub open spec fn major_of(version: Seq<char>) -> Seq<char> {
    text::before_first(version, '.')
}

/// The identifier of an activation: derived from its namespace and the major part of its
/// version.
pub open spec fn plugin_id_of(namespace: Seq<char>, version: Seq<char>) -> u128 {
    outside::uuid_of_name(
        NAMESPACE_OID,
        vstd::utf8::encode_utf8(namespace + "@"@ + major_of(version)),
    )
}

/// The identifier of an activation.
pub fn plugin_id(namespace: &str, version: &str) -> (r: u128)
    ensures
        r == plugin_id_of(namespace@, version@),
{
    let at = find_first(version, '.');
    let major = version.substring_char(0, at);
    assert(major@ =~= major_of(version@));
    let name = join3(namespace, "@", major);
    uuid_v5(NAMESPACE_OID, name.as_str().as_bytes())
}

/// An activation keeps its identifier as long as its namespace and the major part of its
/// version stay.
pub proof fn law_identifier_survives_a_minor_version(namespace: Seq<char>, v1: Seq<char>, v2: Seq<char>)
    requires
        major_of(v1) == major_of(v2),
    ensures
        plugin_id_of(namespace, v1) == plugin_id_of(namespace, v2),
{
}

/// An activation as the registry knows it.
#[derive(Debug, Clone, PartialEq, Eq)]
pub struct PluginEntry {
    pub id: u128,
    pub path: String,
    pub plugin_type: String,
}

/// What a `PluginEntry` says.
pub struct PluginEntryView {
    pub id: u128,
    pub path: Seq<char>,
    pub plugin_type: Seq<char>,
}

impl View for PluginEntry {
    type V = PluginEntryView;

    open spec fn view(&self) -> PluginEntryView {
        PluginEntryView { id: self.id, path: self.path@, plugin_type: self.plugin_type@ }
    }
}

/// Activations by identifier, and identifiers by path.
pub struct PluginRegistry {
    pub by_id: Table<u128, PluginEntry>,
    pub by_path: Table<String, u128>,
}

/// The registry as it was at one moment.
pub struct PluginRegistrySnapshot {
    pub registry: PluginRegistry,
}

/// The path under an identifier.
pub open spec fn path_of(ids: Map<u128, PluginEntry>, id: u128) -> Option<Seq<char>> {
    if ids.dom().contains(id) {
        Some(ids[id].path@)
    } else {
        None
    }
}

/// The identifier under a path.
pub open spec fn id_of(paths: Map<Seq<char>, u128>, path: Seq<char>) -> Option<u128> {
    if paths.dom().contains(path) {
        Some(paths[path])
    } else {
        None
    }
}

/// Whether a registry is another with one activation more, or one replaced.
pub open spec fn registers(before: PluginRegistry, after: PluginRegistry, id: u128, path: Seq<char>, plugin_type: Seq<char>) -> bool {
    &&& after.by_path@ == before.by_path@.insert(path, id)
    &&& exists|e: PluginEntry| #[trigger]
        e@ == (PluginEntryView { id, path, plugin_type }) && after.by_id@ == before.by_id@.insert(id, e)
}

/// An activation that was registered is found by its identifier and by its path, and what was
/// registered under others is found as before.
pub proof fn law_the_registered_is_found(
    before: PluginRegistry,
    after: PluginRegistry,
    id: u128,
    path: Seq<char>,
    plugin_type: Seq<char>,
    other_id: u128,
    other_path: Seq<char>,
)
    requires
        registers(before, after, id, path, plugin_type),
        other_id != id,
        other_path != path,
    ensures
        path_of(after.by_id@, id) == Some(path),
        id_of(after.by_path@, path) == Some(id),
        path_of(after.by_id@, other_id) == path_of(before.by_id@, other_id),
        id_of(after.by_path@, other_path) == id_of(before.by_path@, other_path),
{
}

impl Default for PluginRegistry {
    fn default() -> (r: Self)
        ensures
            r.by_id@ == Map::<u128, PluginEntry>::empty(),
            r.by_path@ == Map::<Seq<char>, u128>::empty(),
    {
        PluginRegistry::new()
    }
}

impl PluginRegistry {
    /// The registry without an activation.
    pub fn new() -> (r: Self)
        ensures
            r.by_id@ == Map::<u128, PluginEntry>::empty(),
            r.by_path@ == Map::<Seq<char>, u128>::empty(),
    {
        PluginRegistry { by_id: Table::new(), by_path: Table::new() }
    }

    /// The path under an identifier.
    pub fn lookup(&self, id: u128) -> (r: Option<&str>)
        ensures
            match r {
                Some(p) => path_of(self.by_id@, id) == Some(p@),
                None => path_of(self.by_id@, id) is None,
            },
    {
        match self.by_id.get(&id) {
            Some(e) => Some(e.path.as_str()),
            None => None,
        }
    }

    /// The identifier under a path.
    pub fn lookup_by_path(&self, path: &str) -> (r: Option<u128>)
        ensures
            r == id_of(self.by_path@, path@),
    {
        match self.by_path.get(&path.to_owned()) {
            Some(id) => Some(*id),
            None => None,
        }
    }

    /// The activation under an identifier.
    pub fn get(&self, id: u128) -> (r: Option<&PluginEntry>)
        ensures
            match r {
                Some(e) => self.by_id@.dom().contains(id) && self.by_id@[id] == *e,
                None => !self.by_id@.dom().contains(id),
            },
    {
        self.by_id.get(&id)
    }

    /// Registers an activation under its identifier and its path, in place of what was there.
    pub fn register(&mut self, id: u128, path: String, plugin_type: String)
        ensures
            registers(*old(self), *final(self), id, path@, plugin_type@),
    {
        let entry = PluginEntry { id, path: path.clone(), plugin_type };
        let ghost e = entry;
        self.by_id.insert(id, entry);
        self.by_path.insert(path, id);
        assert(e@ == (PluginEntryView { id, path: path@, plugin_type: plugin_type@ }));
    }

    /// The registry as it is now.
    pub fn snapshot(&self) -> (r: PluginRegistrySnapshot)
        ensures
            r.registry.by_id@ == self.by_id@,
            r.registry.by_path@ == self.by_path@,
    {
        let mut by_id: Table<u128, PluginEntry> = Table::new();
        let ids = self.by_id.keys();
        let mut i: usize = 0;
        while i < ids.len()
            invariant
                i <= ids.len(),
                forall|j: int| 0 <= j < ids@.len() ==> self.by_id@.dom().contains((#[trigger] ids@[j])@),
                forall|k: u128| #[trigger]
                    by_id@.dom().contains(k) <==> exists|j: int| 0 <= j < i && (#[trigger] ids@[j])@ == k,
                forall|k: u128| #[trigger] by_id@.dom().contains(k) ==> by_id@[k] == self.by_id@[k],
            decreases ids.len() - i,
        {
            let ghost before = by_id@;
            let id: u128 = *ids[i];
            assert(self.by_id@.dom().contains(ids@[i as int]@));
            match self.by_id.get(&id) {
                Some(e) => {
                    by_id.insert(
                        id,
                        PluginEntry { id: e.id, path: e.path.clone(), plugin_type: e.plugin_type.clone() },
                    );
                },
                None => {},
            }
            proof {
                assert forall|k: u128| #[trigger] by_id@.dom().contains(k) <==> exists|j: int|
                    0 <= j < i + 1 && (#[trigger] ids@[j])@ == k by {
                    if k == id {
                        assert(ids@[i as int]@ == k);
                    } else {
                        if before.dom().contains(k) {
                            let j = choose|j: int| 0 <= j < i && (#[trigger] ids@[j])@ == k;
                            assert(ids@[j]@ == k);
                        }
                    }
                }
            }
            i += 1;
        }
        let mut by_path: Table<String, u128> = Table::new();
        let paths = self.by_path.keys();
        let mut i: usize = 0;
        while i < paths.len()
            invariant
                i <= paths.len(),
                forall|j: int| 0 <= j < paths@.len() ==> self.by_path@.dom().contains((#[trigger] paths@[j])@),
                forall|k: Seq<char>| #[trigger]
                    by_path@.dom().contains(k) <==> exists|j: int| 0 <= j < i && (#[trigger] paths@[j])@ == k,
                forall|k: Seq<char>| #[trigger] by_path@.dom().contains(k) ==> by_path@[k] == self.by_path@[k],
            decreases paths.len() - i,
        {
            let ghost before = by_path@;
            let path: String = paths[i].clone();
            assert(self.by_path@.dom().contains(paths@[i as int]@));
            match self.by_path.get(&path) {
                Some(id) => {
                    by_path.insert(path.clone(), *id);
                },
                None => {},
            }
            proof {
                assert forall|k: Seq<char>| #[trigger] by_path@.dom().contains(k) <==> exists|j: int|
                    0 <= j < i + 1 && (#[trigger] paths@[j])@ == k by {
                    if k == path@ {
                        assert(paths@[i as int]@ == k);
                    } else {
                        if before.dom().contains(k) {
                            let j = choose|j: int| 0 <= j < i && (#[trigger] paths@[j])@ == k;
                            assert(paths@[j]@ == k);
                        }
                    }
                }
            }
            i += 1;
        }
        assert(by_id@ =~= self.by_id@);
        assert(by_path@ =~= self.by_path@);
        PluginRegistrySnapshot { registry: PluginRegistry { by_id, by_path } }
    }

    /// The activations, one for each identifier, in no particular order.
    pub fn list(&self) -> (r: Vec<&PluginEntry>)
        ensures
            exists|ks: Seq<u128>| table::lists_values(r@, self.by_id@, ks),
    {
        self.by_id.values()
    }

    /// How many activations there are.
    pub fn len(&self) -> (r: usize)
        ensures
            r == self.by_id@.dom().len(),
    {
        self.by_id.len()
    }

    /// Whether there is no activation.
    pub fn is_empty(&self) -> (r: bool)
        ensures
            r == (self.by_id@.dom().len() == 0),
    {
        self.by_id.len() == 0
    }
}

impl PluginRegistrySnapshot {
    /// The path under an identifier.
    pub fn lookup(&self, id: u128) -> (r: Option<&str>)
        ensures
            match r {
                Some(p) => path_of(self.registry.by_id@, id) == Some(p@),
                None => path_of(self.registry.by_id@, id) is None,
            },
    {
        self.registry.lookup(id)
    }

    /// The identifier under a path.
    pub fn lookup_by_path(&self, path: &str) -> (r: Option<u128>)
        ensures
            r == id_of(self.registry.by_path@, path@),
    {
        self.registry.lookup_by_path(path)
    }

    /// The activation under an identifier.
    pub fn get(&self, id: u128) -> (r: Option<&PluginEntry>)
        ensures
            match r {
                Some(e) => self.registry.by_id@.dom().contains(id) && self.registry.by_id@[id] == *e,
                None => !self.registry.by_id@.dom().contains(id),
            },
    {
        self.registry.get(id)
    }

    /// The activations, one for each identifier, in no particular order.
    pub fn list(&self) -> (r: Vec<&PluginEntry>)
        ensures
            exists|ks: Seq<u128>| table::lists_values(r@, self.registry.by_id@, ks),
    {
        self.registry.list()
    }

    /// How many activations there are.
    pub fn len(&self) -> (r: usize)
        ensures
            r == self.registry.by_id@.dom().len(),
    {
        self.registry.len()
    }

    /// Whether there is no activation.
    pub fn is_empty(&self) -> (r: bool)
        ensures
            r == (self.registry.by_id@.dom().len() == 0),
    {
        self.registry.is_empty()
    }
}

/// The identifier of an activation is derived from its namespace, a mark and the major part of its
/// version, which is what stands before the first dot, or all of it where there is none.
pub proof fn law_an_identifier_is_derived_from_name_and_major(
    namespace: Seq<char>,
    major: Seq<char>,
    rest: Seq<char>,
)
    requires
        !major.contains('.'),
    ensures
        plugin_id_of(namespace, major) == outside::uuid_of_name(
            0x6ba7b812_9dad_11d1_80b4_00c04fd430c8,
            vstd::utf8::encode_utf8(namespace + "@"@ + major),
        ),
        plugin_id_of(namespace, major + seq!['.'] + rest) == plugin_id_of(namespace, major),
{
    text::lemma_join_cuts(major, '.', rest);
    text::lemma_position(major, '.');
    assert(text::before_first(major, '.') =~= major);
}

/// Different namespaces, and different major versions of one, are hashed from different bytes, so
/// that they share an identifier only where the derivation itself gives the same for two names.
pub proof fn law_what_an_identifier_is_derived_from_tells_the_activation(
    namespace: Seq<char>,
    other: Seq<char>,
    v: Seq<char>,
    w: Seq<char>,
)
    requires
        !major_of(v).contains('@'),
        !major_of(w).contains('@'),
        vstd::utf8::encode_utf8(namespace + "@"@ + major_of(v)) == vstd::utf8::encode_utf8(
            other + "@"@ + major_of(w),
        ),
    ensures
        namespace == other,
        major_of(v) == major_of(w),
{
    reveal_strlit("@");
    let x = namespace + "@"@ + major_of(v);
    let y = other + "@"@ + major_of(w);
    vstd::utf8::encode_utf8_decode_utf8(x);
    vstd::utf8::encode_utf8_decode_utf8(y);
    assert(x == y);
    let n = namespace.len() as int;
    let m = other.len() as int;
    assert(x[n] == '@' && y[m] == '@');
    if n < m {
        assert(x[m] == major_of(v)[m - n - 1]);
        assert(major_of(v).contains('@'));
    } else if m < n {
        assert(y[n] == major_of(w)[n - m - 1]);
        assert(major_of(w).contains('@'));
    }
    assert(namespace =~= x.take(n));
    assert(other =~= y.take(m));
    assert(major_of(v) =~= x.skip(n + 1));
    assert(major_of(w) =~= y.skip(m + 1));
}

/// A registered activation is known by all that was said of it.
pub proof fn law_a_registered_activation_is_known(
    before: PluginRegistry,
    after: PluginRegistry,
    id: u128,
    path: Seq<char>,
    plugin_type: Seq<char>,
)
    requires
        registers(before, after, id, path, plugin_type),
    ensures
        after.by_id@.dom() == before.by_id@.dom().insert(id),
        after.by_path@.dom() == before.by_path@.dom().insert(path),
        after.by_id@[id].id == id,
        after.by_id@[id].path@ == path,
        after.by_id@[id].plugin_type@ == plugin_type,
        after.by_path@[path] == id,
        forall|other: u128|
            other != id && before.by_id@.dom().contains(other) ==> #[trigger] after.by_id@[other]
                == before.by_id@[other],
        forall|other: Seq<char>|
            other != path && before.by_path@.dom().contains(other) ==> #[trigger] after.by_path@[other]
                == before.by_path@[other],
{
    assert(after.by_id@.dom() =~= before.by_id@.dom().insert(id));
    assert(after.by_path@.dom() =~= before.by_path@.dom().insert(path));
}

/// An entry says what its fields hold.
pub proof fn law_an_entry_says_what_it_holds(e: PluginEntry)
    ensures
        e@.id == e.id,
        e@.path == e.path@,
        e@.plugin_type == e.plugin_type@,
{
}

} // verus!
