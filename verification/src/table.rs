//! Maps from texts and numbers to values.

use crate::text;
use crate::text::same_text;
use vstd::prelude::*;

verus! {

/// What can be the key of a table: values that can be told apart by what they hold.
pub trait TableKey: View + Sized {
    /// Whether two keys hold the same.
    fn same(&self, other: &Self) -> (r: bool)
        ensures
            r == (self@ == other@),
    ;
}

impl TableKey for String {
    fn same(&self, other: &Self) -> (r: bool) {
        same_text(self.as_str(), other.as_str())
    }
}

impl TableKey for u128 {
    fn same(&self, other: &Self) -> (r: bool) {
        *self == *other
    }
}

/// A map from keys to values.
pub struct Table<K: TableKey, V> {
    entries: Vec<(K, V)>,
}

impl<K: TableKey, V> View for Table<K, V> {
    type V = Map<<K as View>::V, V>;

    closed spec fn view(&self) -> Map<<K as View>::V, V> {
        map_of(self.entries@)
    }
}

spec fn map_of<K: TableKey, V>(entries: Seq<(K, V)>) -> Map<<K as View>::V, V>
    decreases entries.len(),
{
    if entries.len() == 0 {
        Map::empty()
    } else {
        map_of(entries.drop_last()).insert(entries.last().0@, entries.last().1)
    }
}

spec fn distinct<K: TableKey, V>(entries: Seq<(K, V)>) -> bool {
    forall|a: int, b: int| 0 <= a < b < entries.len() ==> (#[trigger] entries[a]).0@ != (#[trigger] entries[b]).0@
}

proof fn lemma_distinct_rest<K: TableKey, V>(entries: Seq<(K, V)>)
    requires
        distinct(entries),
        entries.len() > 0,
    ensures
        distinct(entries.drop_last()),
{
    let rest = entries.drop_last();
    assert forall|a: int, b: int| 0 <= a < b < rest.len() implies (#[trigger] rest[a]).0@ != (#[trigger] rest[b]).0@ by {
        assert(rest[a] == entries[a] && rest[b] == entries[b]);
    }
}

proof fn lemma_keys<K: TableKey, V>(entries: Seq<(K, V)>)
    ensures
        forall|k: <K as View>::V| #[trigger] map_of(entries).dom().contains(k) ==> exists|i: int|
            0 <= i < entries.len() && #[trigger] entries[i].0@ == k,
        map_of(entries).dom().finite(),
    decreases entries.len(),
{
    if entries.len() > 0 {
        let rest = entries.drop_last();
        lemma_keys(rest);
        assert forall|k: <K as View>::V| #[trigger] map_of(entries).dom().contains(k) implies exists|i: int|
            0 <= i < entries.len() && #[trigger] entries[i].0@ == k by {
            if k == entries.last().0@ {
                assert(entries[entries.len() - 1].0@ == k);
            } else {
                assert(map_of(rest).dom().contains(k));
                let i = choose|i: int| 0 <= i < rest.len() && #[trigger] rest[i].0@ == k;
                assert(entries[i].0@ == k);
            }
        }
    }
}

proof fn lemma_entry<K: TableKey, V>(entries: Seq<(K, V)>, i: int)
    requires
        0 <= i < entries.len(),
        distinct(entries),
    ensures
        map_of(entries).dom().contains(entries[i].0@),
        map_of(entries)[entries[i].0@] == entries[i].1,
    decreases entries.len(),
{
    if i < entries.len() - 1 {
        let rest = entries.drop_last();
        lemma_distinct_rest(entries);
        lemma_entry(rest, i);
        assert(rest[i] == entries[i]);
        assert(entries[i].0@ != entries[entries.len() - 1].0@);
    }
}

proof fn lemma_len<K: TableKey, V>(entries: Seq<(K, V)>)
    requires
        distinct(entries),
    ensures
        map_of(entries).dom().len() == entries.len(),
    decreases entries.len(),
{
    lemma_keys(entries);
    if entries.len() > 0 {
        let rest = entries.drop_last();
        lemma_distinct_rest(entries);
        lemma_len(rest);
        lemma_keys(rest);
        assert(!map_of(rest).dom().contains(entries.last().0@)) by {
            if map_of(rest).dom().contains(entries.last().0@) {
                let i = choose|i: int| 0 <= i < rest.len() && #[trigger] rest[i].0@ == entries.last().0@;
                assert(entries[i].0@ == entries[entries.len() - 1].0@);
            }
        }
        assert(map_of(entries).dom() =~= map_of(rest).dom().insert(entries.last().0@));
    }
}

proof fn lemma_replaced<K: TableKey, V>(before: Seq<(K, V)>, after: Seq<(K, V)>, i: int)
    requires
        0 <= i < before.len(),
        after.len() == before.len(),
        before[i].0@ == after[i].0@,
        forall|j: int| 0 <= j < before.len() && j != i ==> after[j] == before[j],
        distinct(before),
    ensures
        map_of(after) == map_of(before).insert(after[i].0@, after[i].1),
    decreases before.len(),
{
    let b = before.drop_last();
    let a = after.drop_last();
    if i < before.len() - 1 {
        lemma_distinct_rest(before);
        lemma_replaced(b, a, i);
        assert(before.last() == before[before.len() - 1]);
        assert(after.last() == before.last());
        assert(before[i].0@ != before[before.len() - 1].0@);
        assert(map_of(after) =~= map_of(before).insert(after[i].0@, after[i].1));
    } else {
        assert(a =~= b);
        assert(map_of(after) =~= map_of(before).insert(after[i].0@, after[i].1));
    }
}

proof fn lemma_removed<K: TableKey, V>(entries: Seq<(K, V)>, i: int)
    requires
        distinct(entries),
        0 <= i < entries.len(),
    ensures
        distinct(entries.remove(i)),
        map_of(entries.remove(i)) == map_of(entries).remove(entries[i].0@),
{
    let after = entries.remove(i);
    let k = entries[i].0@;
    assert forall|a: int, b: int| 0 <= a < b < after.len() implies (#[trigger] after[a]).0@ != (#[trigger] after[b]).0@ by {
        let a0 = if a < i { a } else { a + 1 };
        let b0 = if b < i { b } else { b + 1 };
        assert(after[a] == entries[a0] && after[b] == entries[b0]);
    }
    lemma_keys(entries);
    lemma_keys(after);
    let m = map_of(entries).remove(k);
    assert forall|x: <K as View>::V| #[trigger] map_of(after).dom().contains(x) <==> m.dom().contains(x) by {
        if map_of(after).dom().contains(x) {
            let a = choose|a: int| 0 <= a < after.len() && (#[trigger] after[a]).0@ == x;
            let a0 = if a < i { a } else { a + 1 };
            assert(after[a] == entries[a0]);
            lemma_entry(entries, a0);
            if a0 < i {
                assert(entries[a0].0@ != entries[i].0@);
            } else {
                assert(entries[i].0@ != entries[a0].0@);
            }
        }
        if m.dom().contains(x) {
            let a0 = choose|a: int| 0 <= a < entries.len() && (#[trigger] entries[a]).0@ == x;
            let a = if a0 < i { a0 } else { a0 - 1 };
            assert(after[a] == entries[a0]);
            lemma_entry(after, a);
        }
    }
    assert forall|x: <K as View>::V| #[trigger] map_of(after).dom().contains(x) implies map_of(after)[x] == m[x] by {
        let a = choose|a: int| 0 <= a < after.len() && (#[trigger] after[a]).0@ == x;
        let a0 = if a < i { a } else { a + 1 };
        assert(after[a] == entries[a0]);
        lemma_entry(entries, a0);
        lemma_entry(after, a);
    }
    assert(map_of(after) =~= m);
}

impl<K: TableKey, V> Table<K, V> {
    #[verifier::type_invariant]
    spec fn wf(self) -> bool {
        distinct(self.entries@)
    }

    /// The empty table.
    pub fn new() -> (r: Self)
        ensures
            r@ == Map::<<K as View>::V, V>::empty(),
            r@.dom().finite(),
    {
        Table { entries: Vec::new() }
    }

    /// Puts a value under a key, in place of the one that was there.
    pub fn insert(&mut self, key: K, value: V)
        ensures
            final(self)@ == old(self)@.insert(key@, value),
            old(self)@.dom().finite(),
            final(self)@.dom().finite(),
    {
        proof {
            use_type_invariant(&*self);
            lemma_keys(self.entries@);
        }
        let mut entries: Vec<(K, V)> = Vec::new();
        std::mem::swap(&mut entries, &mut self.entries);
        let ghost before = entries@;
        let mut i: usize = 0;
        while i < entries.len() && !entries[i].0.same(&key)
            invariant
                entries@ == before,
                i <= entries.len(),
                forall|j: int| 0 <= j < i ==> (#[trigger] entries@[j]).0@ != key@,
            decreases entries.len() - i,
        {
            i += 1;
        }
        if i < entries.len() {
            entries.set(i, (key, value));
            proof {
                let after = entries@;
                assert forall|a: int, b: int| 0 <= a < b < after.len() implies (#[trigger] after[a]).0@ != (#[trigger] after[b]).0@ by {
                    assert(before[a].0@ != before[b].0@);
                }
                lemma_replaced(before, after, i as int);
            }
        } else {
            entries.push((key, value));
            proof {
                let after = entries@;
                assert(after.drop_last() =~= before);
                assert forall|a: int, b: int| 0 <= a < b < after.len() implies (#[trigger] after[a]).0@ != (#[trigger] after[b]).0@ by {
                    assert(after[a] == before[a]);
                    if b < before.len() {
                        assert(after[b] == before[b]);
                    }
                }
            }
        }
        self.entries = entries;
    }

    /// The value under a key.
    pub fn get(&self, key: &K) -> (r: Option<&V>)
        ensures
            match r {
                Some(v) => self@.dom().contains(key@) && self@[key@] == *v,
                None => !self@.dom().contains(key@),
            },
            self@.dom().finite(),
    {
        proof {
            use_type_invariant(self);
            lemma_keys(self.entries@);
        }
        let mut i: usize = 0;
        while i < self.entries.len()
            invariant
                self.wf(),
                i <= self.entries.len(),
                forall|j: int| 0 <= j < i ==> (#[trigger] self.entries@[j]).0@ != key@,
            decreases self.entries.len() - i,
        {
            if self.entries[i].0.same(key) {
                proof {
                    lemma_entry(self.entries@, i as int);
                    lemma_keys(self.entries@);
                }
                return Some(&self.entries[i].1);
            }
            i += 1;
        }
        None
    }

    /// Takes away the value under a key.
    pub fn remove(&mut self, key: &K) -> (r: Option<V>)
        ensures
            final(self)@ == old(self)@.remove(key@),
            match r {
                Some(v) => old(self)@.dom().contains(key@) && old(self)@[key@] == v,
                None => !old(self)@.dom().contains(key@),
            },
            old(self)@.dom().finite(),
            final(self)@.dom().finite(),
    {
        proof {
            use_type_invariant(&*self);
            lemma_keys(self.entries@);
        }
        let mut entries: Vec<(K, V)> = Vec::new();
        std::mem::swap(&mut entries, &mut self.entries);
        let ghost before = entries@;
        let mut i: usize = 0;
        while i < entries.len() && !entries[i].0.same(key)
            invariant
                entries@ == before,
                i <= entries.len(),
                forall|j: int| 0 <= j < i ==> (#[trigger] entries@[j]).0@ != key@,
            decreases entries.len() - i,
        {
            i += 1;
        }
        let r = if i < entries.len() {
            let (_, v) = entries.remove(i);
            proof {
                lemma_entry(before, i as int);
                lemma_removed(before, i as int);
            }
            Some(v)
        } else {
            proof {
                lemma_keys(before);
                assert(map_of(before).remove(key@) =~= map_of(before));
            }
            None
        };
        self.entries = entries;
        r
    }

    /// How many keys there are.
    pub fn len(&self) -> (r: usize)
        ensures
            r == self@.dom().len(),
            self@.dom().finite(),
    {
        proof {
            use_type_invariant(self);
            lemma_keys(self.entries@);
            lemma_len(self.entries@);
        }
        self.entries.len()
    }

    /// The values, one for each key, in no particular order.
    pub fn values(&self) -> (r: Vec<&V>)
        ensures
            exists|ks: Seq<<K as View>::V>| lists_values(r@, self@, ks),
            self@.dom().finite(),
    {
        proof {
            use_type_invariant(self);
            lemma_keys(self.entries@);
        }
        let mut out: Vec<&V> = Vec::new();
        let mut i: usize = 0;
        while i < self.entries.len()
            invariant
                i <= self.entries.len(),
                out@.len() == i,
                forall|j: int| 0 <= j < i ==> *(#[trigger] out@[j]) == self.entries@[j].1,
            decreases self.entries.len() - i,
        {
            out.push(&self.entries[i].1);
            i += 1;
        }
        proof {
            let ks = Seq::new(self.entries@.len(), |j: int| self.entries@[j].0@);
            assert forall|a: int, b: int| 0 <= a < ks.len() && 0 <= b < ks.len() && a != b implies ks[a] != ks[b] by {
                if a < b {
                    assert(self.entries@[a].0@ != self.entries@[b].0@);
                } else {
                    assert(self.entries@[b].0@ != self.entries@[a].0@);
                }
            }
            assert forall|k: <K as View>::V| #[trigger] ks.contains(k) <==> self@.dom().contains(k) by {
                if ks.contains(k) {
                    let j = choose|j: int| 0 <= j < ks.len() && ks[j] == k;
                    lemma_entry(self.entries@, j);
                }
                if self@.dom().contains(k) {
                    let j = choose|j: int| 0 <= j < self.entries@.len() && #[trigger] self.entries@[j].0@ == k;
                    assert(ks[j] == k);
                }
            }
            assert forall|j: int| 0 <= j < out@.len() implies *(#[trigger] out@[j]) == self@[ks[j]] by {
                lemma_entry(self.entries@, j);
            }
            assert(lists_values(out@, self@, ks));
        }
        out
    }
}

/// Whether the values are those of a map, one for each key.
pub open spec fn lists_values<K, V>(values: Seq<&V>, map: Map<K, V>, ks: Seq<K>) -> bool {
    &&& ks.no_duplicates()
    &&& forall|k: K| #[trigger] ks.contains(k) <==> map.dom().contains(k)
    &&& values.len() == ks.len()
    &&& forall|i: int| 0 <= i < values.len() ==> *(#[trigger] values[i]) == map[ks[i]]
}

/// Whether the keys are those of a domain, in order, each once.
pub open spec fn is_key_order(ks: Seq<Seq<char>>, dom: Set<Seq<char>>) -> bool {
    &&& text::is_sorted(ks)
    &&& ks.no_duplicates()
    &&& forall|k: Seq<char>| #[trigger] ks.contains(k) <==> dom.contains(k)
}

/// The keys of a domain in order.
pub open spec fn keys_in_order(dom: Set<Seq<char>>) -> Seq<Seq<char>> {
    choose|ks: Seq<Seq<char>>| is_key_order(ks, dom)
}

/// There is one order of the keys of a domain.
pub proof fn lemma_key_order(ks: Seq<Seq<char>>, dom: Set<Seq<char>>)
    requires
        is_key_order(ks, dom),
    ensures
        keys_in_order(dom) == ks,
{
    let a = keys_in_order(dom);
    assert(is_key_order(a, dom));
    lemma_same_keys(a, ks);
    text::lemma_sorted_unique(a, ks);
}

/// A finite domain has an order of its keys.
pub proof fn lemma_keys_in_order(dom: Set<Seq<char>>)
    requires
        dom.finite(),
    ensures
        is_key_order(keys_in_order(dom), dom),
    decreases dom.len(),
{
    if dom.len() == 0 {
        let ks: Seq<Seq<char>> = Seq::empty();
        assert(dom =~= Set::empty());
        assert(is_key_order(ks, dom));
    } else {
        let x = dom.choose();
        let rest = dom.remove(x);
        lemma_keys_in_order(rest);
        let ks = keys_in_order(rest);
        let all = ks.push(x);
        assert(!ks.contains(x));
        let sorted = text::in_order(all);
        text::lemma_in_order_exists(all);
        broadcast use vstd::seq_lib::to_multiset_contains;

        assert(all.no_duplicates());
        all.lemma_multiset_has_no_duplicates();
        sorted.lemma_multiset_has_no_duplicates_conv();
        assert forall|k: Seq<char>| #[trigger] sorted.contains(k) <==> dom.contains(k) by {
            assert(sorted.contains(k) <==> sorted.to_multiset().contains(k));
            assert(all.contains(k) <==> all.to_multiset().contains(k));
            if all.contains(k) {
                let i = choose|i: int| 0 <= i < all.len() && all[i] == k;
                if i < ks.len() {
                    assert(ks[i] == k);
                    assert(ks.contains(k));
                }
            }
            if dom.contains(k) {
                if k == x {
                    assert(all[ks.len() as int] == k);
                } else {
                    assert(rest.contains(k));
                    assert(ks.contains(k));
                    let i = choose|i: int| 0 <= i < ks.len() && ks[i] == k;
                    assert(all[i] == k);
                }
            }
        }
        assert(is_key_order(sorted, dom));
    }
}

/// Sequences without repetition that hold the same hold it equally often.
pub proof fn lemma_same_keys(a: Seq<Seq<char>>, b: Seq<Seq<char>>)
    requires
        a.no_duplicates(),
        b.no_duplicates(),
        forall|k: Seq<char>| #[trigger] a.contains(k) <==> b.contains(k),
    ensures
        a.to_multiset() == b.to_multiset(),
{
    broadcast use vstd::seq_lib::to_multiset_contains;

    a.lemma_multiset_has_no_duplicates();
    b.lemma_multiset_has_no_duplicates();
    assert forall|k: Seq<char>| #[trigger] a.to_multiset().count(k) == b.to_multiset().count(k) by {
        assert(a.contains(k) <==> a.to_multiset().contains(k));
        assert(b.contains(k) <==> b.to_multiset().contains(k));
    }
    assert(a.to_multiset() =~= b.to_multiset());
}

impl<K: TableKey, V> Table<K, V> {
    /// The keys, each once, in no particular order.
    pub fn keys(&self) -> (r: Vec<&K>)
        ensures
            forall|i: int, j: int| 0 <= i < j < r@.len() ==> (#[trigger] r@[i])@ != (#[trigger] r@[j])@,
            forall|i: int| 0 <= i < r@.len() ==> self@.dom().contains((#[trigger] r@[i])@),
            forall|k: <K as View>::V| #[trigger]
                self@.dom().contains(k) ==> exists|i: int| 0 <= i < r@.len() && (#[trigger] r@[i])@ == k,
            self@.dom().finite(),
    {
        proof {
            use_type_invariant(self);
            lemma_keys(self.entries@);
        }
        let mut out: Vec<&K> = Vec::new();
        let mut i: usize = 0;
        while i < self.entries.len()
            invariant
                i <= self.entries.len(),
                out@.len() == i,
                forall|j: int| 0 <= j < i ==> *(#[trigger] out@[j]) == self.entries@[j].0,
            decreases self.entries.len() - i,
        {
            out.push(&self.entries[i].0);
            i += 1;
        }
        proof {
            assert forall|a: int, b: int| 0 <= a < b < out@.len() implies (#[trigger] out@[a])@ != (
            #[trigger] out@[b])@ by {
                assert(self.entries@[a].0@ != self.entries@[b].0@);
            }
            assert forall|a: int| 0 <= a < out@.len() implies self@.dom().contains((#[trigger] out@[a])@) by {
                lemma_entry(self.entries@, a);
            }
            assert forall|k: <K as View>::V| #[trigger] self@.dom().contains(k) implies exists|a: int|
                0 <= a < out@.len() && (#[trigger] out@[a])@ == k by {
                let a = choose|a: int| 0 <= a < self.entries@.len() && #[trigger] self.entries@[a].0@ == k;
                assert(out@[a]@ == k);
            }
        }
        out
    }
}

/// The keys of a table of texts, in order, each once.
pub fn sorted_keys<V>(table: &Table<String, V>) -> (r: Vec<String>)
    ensures
        text::is_sorted(text::texts(r@)),
        text::texts(r@).no_duplicates(),
        forall|k: Seq<char>| #[trigger] text::texts(r@).contains(k) <==> table@.dom().contains(k),
        r@.len() == table@.dom().len(),
        table@.dom().finite(),
        text::texts(r@) == keys_in_order(table@.dom()),
{
    proof {
        use_type_invariant(table);
        lemma_keys(table.entries@);
        lemma_len(table.entries@);
    }
    let mut names: Vec<String> = Vec::new();
    let mut i: usize = 0;
    while i < table.entries.len()
        invariant
            i <= table.entries.len(),
            names@.len() == i,
            forall|j: int| 0 <= j < i ==> (#[trigger] names@[j])@ == table.entries@[j].0@,
        decreases table.entries.len() - i,
    {
        names.push(table.entries[i].0.clone());
        i += 1;
    }
    let r = crate::text::sort_texts(&names);
    proof {
        let n = text::texts(names@);
        let s = text::texts(r@);
        broadcast use vstd::seq_lib::to_multiset_contains;
        assert forall|k: Seq<char>| #[trigger] s.contains(k) <==> table@.dom().contains(k) by {
            assert(s.contains(k) <==> s.to_multiset().contains(k));
            assert(n.contains(k) <==> n.to_multiset().contains(k));
            if n.contains(k) {
                let j = choose|j: int| 0 <= j < names@.len() && n[j] == k;
                lemma_entry(table.entries@, j);
            }
            if table@.dom().contains(k) {
                let j = choose|j: int| 0 <= j < table.entries@.len() && #[trigger] table.entries@[j].0@ == k;
                assert(n[j] == k);
            }
        }
        assert(n.no_duplicates()) by {
            assert forall|a: int, b: int| 0 <= a < n.len() && 0 <= b < n.len() && a != b implies n[a] != n[b] by {
                if a < b {
                    assert(table.entries@[a].0@ != table.entries@[b].0@);
                } else {
                    assert(table.entries@[b].0@ != table.entries@[a].0@);
                }
            }
        }
        n.lemma_multiset_has_no_duplicates();
        s.lemma_multiset_has_no_duplicates_conv();
        vstd::seq_lib::to_multiset_len(n);
        vstd::seq_lib::to_multiset_len(s);
        lemma_key_order(s, table@.dom());
    }
    r
}

/// Values that are listed are those of the map: each key has its value among them, there is none
/// besides, and there are as many as keys.
pub proof fn law_every_value_is_listed<K, V>(values: Seq<&V>, map: Map<K, V>, ks: Seq<K>, k: K)
    requires
        lists_values(values, map, ks),
    ensures
        map.dom().contains(k) ==> exists|i: int| 0 <= i < values.len() && *(#[trigger] values[i]) == map[k],
        forall|i: int| 0 <= i < values.len() ==> map.dom().contains(#[trigger] ks[i]) && *values[i] == map[ks[i]],
        map.dom().finite() ==> values.len() == map.dom().len(),
{
    if map.dom().contains(k) {
        assert(ks.contains(k));
        let i = choose|i: int| 0 <= i < ks.len() && ks[i] == k;
        assert(*values[i] == map[k]);
    }
    assert forall|i: int| 0 <= i < values.len() implies map.dom().contains(#[trigger] ks[i]) && *values[i] == map[ks[i]] by {
        assert(ks.contains(ks[i]));
    }
    ks.unique_seq_to_set();
    assert(ks.to_set() =~= map.dom());
}

} // verus!
