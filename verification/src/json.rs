//! JSON values.

use crate::text;
use crate::text::{same_text, text_at_most};
use vstd::prelude::*;

verus! {

/// A JSON value. A fraction is kept as the bit pattern of its double.
#[derive(Debug, PartialEq)]
pub enum Json {
    Null,
    Bool(bool),
    Unsigned(u64),
    Negative(i64),
    Fraction(u64),
    Text(String),
    Array(Vec<Json>),
    Object(Vec<(String, Json)>),
}

/// What a JSON value holds: strings as texts, lists as sequences.
#[verifier::ext_equal]
pub enum JsonView {
    Null,
    Bool(bool),
    Unsigned(u64),
    Negative(i64),
    Fraction(u64),
    Text(Seq<char>),
    Array(Seq<JsonView>),
    Object(Seq<(Seq<char>, JsonView)>),
}

/// What `j` holds.
pub open spec fn json_view(j: Json) -> JsonView
    decreases j,
{
    match j {
        Json::Null => JsonView::Null,
        Json::Bool(b) => JsonView::Bool(b),
        Json::Unsigned(n) => JsonView::Unsigned(n),
        Json::Negative(n) => JsonView::Negative(n),
        Json::Fraction(n) => JsonView::Fraction(n),
        Json::Text(s) => JsonView::Text(s@),
        Json::Array(v) => JsonView::Array(
            Seq::new(
                v@.len(),
                |i: int|
                    if 0 <= i < v@.len() {
                        json_view(v@[i])
                    } else {
                        JsonView::Null
                    },
            ),
        ),
        Json::Object(v) => JsonView::Object(
            Seq::new(
                v@.len(),
                |i: int|
                    if 0 <= i < v@.len() {
                        (v@[i].0@, json_view(v@[i].1))
                    } else {
                        (Seq::<char>::empty(), JsonView::Null)
                    },
            ),
        ),
    }
}

impl View for Json {
    type V = JsonView;

    open spec fn view(&self) -> JsonView {
        json_view(*self)
    }
}

impl Clone for Json {
    fn clone(&self) -> (r: Self)
        ensures
            r@ == self@,
        decreases self,
    {
        match self {
            Json::Null => Json::Null,
            Json::Bool(b) => Json::Bool(*b),
            Json::Unsigned(n) => Json::Unsigned(*n),
            Json::Negative(n) => Json::Negative(*n),
            Json::Fraction(n) => Json::Fraction(*n),
            Json::Text(s) => Json::Text(s.clone()),
            Json::Array(v) => {
                let mut out: Vec<Json> = Vec::new();
                let mut i: usize = 0;
                while i < v.len()
                    invariant
                        *self == Json::Array(*v),
                        i <= v.len(),
                        out@.len() == i,
                        forall|j: int| 0 <= j < i ==> (#[trigger] out@[j])@ == v@[j]@,
                    decreases v.len() - i,
                {
                    proof {
                        assert(decreases_to!(*self => self->Array_0));
                        assert(decreases_to!(*v => v@));
                        assert(decreases_to!(v@ => v@[i as int]));
                    }
                    let item = v[i].clone();
                    out.push(item);
                    i += 1;
                }
                let r = Json::Array(out);
                assert(r@->Array_0 =~= self@->Array_0);
                r
            },
            Json::Object(v) => {
                let mut out: Vec<(String, Json)> = Vec::new();
                let mut i: usize = 0;
                while i < v.len()
                    invariant
                        *self == Json::Object(*v),
                        i <= v.len(),
                        out@.len() == i,
                        forall|j: int|
                            0 <= j < i ==> (#[trigger] out@[j]).0@ == v@[j].0@ && out@[j].1@ == v@[j].1@,
                    decreases v.len() - i,
                {
                    proof {
                        assert(decreases_to!(*self => self->Object_0));
                        assert(decreases_to!(*v => v@));
                        assert(decreases_to!(v@ => v@[i as int]));
                        assert(decreases_to!(v@[i as int] => v@[i as int].1));
                    }
                    let item = v[i].1.clone();
                    out.push((v[i].0.clone(), item));
                    i += 1;
                }
                let r = Json::Object(out);
                assert(r@->Object_0 =~= self@->Object_0);
                r
            },
        }
    }
}

/// The value of the first entry under `k`.
pub open spec fn entry_at(entries: Seq<(Seq<char>, JsonView)>, k: Seq<char>) -> Option<JsonView>
    decreases entries.len(),
{
    if entries.len() == 0 {
        None
    } else if entries[0].0 == k {
        Some(entries[0].1)
    } else {
        entry_at(entries.skip(1), k)
    }
}

/// What the entries of an object hold.
pub open spec fn entries_view(v: Seq<(String, Json)>) -> Seq<(Seq<char>, JsonView)> {
    Seq::new(v.len(), |i: int| (v[i].0@, v[i].1@))
}

pub proof fn lemma_object_view(v: Vec<(String, Json)>)
    ensures
        Json::Object(v)@ == JsonView::Object(entries_view(v@)),
{
    assert(Json::Object(v)@->Object_0 =~= entries_view(v@));
}

/// What a list of values holds.
pub open spec fn items_view(v: Seq<Json>) -> Seq<JsonView> {
    Seq::new(v.len(), |i: int| v[i]@)
}

pub proof fn lemma_array_view(v: Vec<Json>)
    ensures
        Json::Array(v)@ == JsonView::Array(items_view(v@)),
{
    assert(Json::Array(v)@->Array_0 =~= items_view(v@));
}

/// What a value that may be missing holds.
pub open spec fn opt_json(v: Option<Json>) -> Option<JsonView> {
    match v {
        Some(j) => Some(j@),
        None => None,
    }
}

/// A copy of a value that may be missing.
pub fn copy_opt_json(v: &Option<Json>) -> (r: Option<Json>)
    ensures
        opt_json(r) == opt_json(*v),
{
    match v {
        Some(j) => Some(j.clone()),
        None => None,
    }
}

/// A copy of the entries of an object.
pub fn copy_entries(v: &Vec<(String, Json)>) -> (r: Vec<(String, Json)>)
    ensures
        entries_view(r@) == entries_view(v@),
{
    let mut out: Vec<(String, Json)> = Vec::new();
    let mut i: usize = 0;
    while i < v.len()
        invariant
            i <= v.len(),
            out@.len() == i,
            forall|j: int| 0 <= j < i ==> (#[trigger] out@[j]).0@ == v@[j].0@ && out@[j].1@ == v@[j].1@,
        decreases v.len() - i,
    {
        let item = v[i].1.clone();
        out.push((v[i].0.clone(), item));
        i += 1;
    }
    assert(entries_view(out@) =~= entries_view(v@));
    out
}

/// The entries with `v` under `k`: in place of an entry with that key, else before the
/// first entry with a greater one.
pub open spec fn put(entries: Seq<(Seq<char>, JsonView)>, k: Seq<char>, v: JsonView) -> Seq<(Seq<char>, JsonView)>
    decreases entries.len(),
{
    if entries.len() == 0 {
        seq![(k, v)]
    } else if entries[0].0 == k {
        entries.update(0, (k, v))
    } else if text::text_le(k, entries[0].0) {
        seq![(k, v)] + entries
    } else {
        seq![entries[0]] + put(entries.skip(1), k, v)
    }
}

/// Puts `v` under `k`.
pub fn put_entry(entries: &mut Vec<(String, Json)>, k: &str, v: Json)
    ensures
        entries_view(final(entries)@) == put(entries_view(old(entries)@), k@, v@),
{
    let ghost all = entries_view(entries@);
    let ghost value = v@;
    let mut i: usize = 0;
    assert(all.skip(0) =~= all);
    assert(all.take(0) + put(all, k@, value) =~= put(all, k@, value));
    while i < entries.len() && !same_text(entries[i].0.as_str(), k) && !text_at_most(k, entries[i].0.as_str())
        invariant
            all == entries_view(entries@),
            i <= entries.len(),
            put(all, k@, value) == all.take(i as int) + put(all.skip(i as int), k@, value),
        decreases entries.len() - i,
    {
        proof {
            let rest = all.skip(i as int);
            assert(rest[0] == all[i as int]);
            assert(rest.skip(1) =~= all.skip(i + 1));
            assert(all.take(i + 1) =~= all.take(i as int) + seq![all[i as int]]);
            assert(put(all, k@, value) =~= all.take(i + 1) + put(all.skip(i + 1), k@, value));
        }
        i += 1;
    }
    let ghost rest = all.skip(i as int);
    if i < entries.len() {
        assert(rest[0] == all[i as int]);
        if same_text(entries[i].0.as_str(), k) {
            entries.set(i, (k.to_owned(), v));
            assert(entries_view(entries@) =~= all.take(i as int) + rest.update(0, (k@, value)));
        } else {
            entries.insert(i, (k.to_owned(), v));
            assert(entries_view(entries@) =~= all.take(i as int) + (seq![(k@, value)] + rest));
        }
    } else {
        entries.push((k.to_owned(), v));
        assert(entries_view(entries@) =~= all.take(i as int) + seq![(k@, value)]);
    }
}

/// A value put under a key is found there, and what stands under the other keys stays.
pub proof fn law_put_then_read(entries: Seq<(Seq<char>, JsonView)>, k: Seq<char>, v: JsonView, other: Seq<char>)
    ensures
        entry_at(put(entries, k, v), k) == Some(v),
        other != k ==> entry_at(put(entries, k, v), other) == entry_at(entries, other),
    decreases entries.len(),
{
    let after = put(entries, k, v);
    reveal_with_fuel(entry_at, 3);
    if entries.len() == 0 {
        assert(after.skip(1) =~= entries);
    } else if entries[0].0 == k {
        assert(after.skip(1) =~= entries.skip(1));
    } else if text::text_le(k, entries[0].0) {
        assert(after.skip(1) =~= entries);
    } else {
        law_put_then_read(entries.skip(1), k, v, other);
        assert(after.skip(1) =~= put(entries.skip(1), k, v));
    }
}

/// The keys of an object, in order.
pub open spec fn keys(entries: Seq<(Seq<char>, JsonView)>) -> Seq<Seq<char>> {
    Seq::new(entries.len(), |i: int| entries[i].0)
}

/// Two values put under different keys of an ordered object: the order of the two steps
/// does not show.
pub proof fn law_put_order_does_not_show(
    entries: Seq<(Seq<char>, JsonView)>,
    k1: Seq<char>,
    v1: JsonView,
    k2: Seq<char>,
    v2: JsonView,
)
    requires
        k1 != k2,
        text::is_sorted(keys(entries)),
    ensures
        put(put(entries, k1, v1), k2, v2) == put(put(entries, k2, v2), k1, v1),
    decreases entries.len(),
{
    text::lemma_text_le_total(k1, k2);
    if text::text_le(k1, k2) {
        lemma_put_swaps(entries, k1, v1, k2, v2);
    } else {
        lemma_put_swaps(entries, k2, v2, k1, v1);
    }
}

proof fn lemma_put_swaps(
    entries: Seq<(Seq<char>, JsonView)>,
    k1: Seq<char>,
    v1: JsonView,
    k2: Seq<char>,
    v2: JsonView,
)
    requires
        k1 != k2,
        text::text_le(k1, k2),
        text::is_sorted(keys(entries)),
    ensures
        put(put(entries, k1, v1), k2, v2) == put(put(entries, k2, v2), k1, v1),
    decreases entries.len(),
{
    reveal_with_fuel(put, 3);
    let a = put(put(entries, k1, v1), k2, v2);
    let b = put(put(entries, k2, v2), k1, v1);
    if text::text_le(k2, k1) {
        text::lemma_text_le_antisymmetric(k1, k2);
    }
    if entries.len() == 0 {
        assert(put(entries, k1, v1).skip(1) =~= entries);
        assert(a =~= b);
    } else {
        let k0 = entries[0].0;
        let rest = entries.skip(1);
        assert forall|i: int, j: int| 0 <= i <= j < keys(rest).len() implies text::text_le(
            #[trigger] keys(rest)[i],
            #[trigger] keys(rest)[j],
        ) by {
            assert(keys(rest)[i] == keys(entries)[i + 1]);
            assert(keys(rest)[j] == keys(entries)[j + 1]);
        }
        text::lemma_text_le_total(k0, k1);
        text::lemma_text_le_total(k0, k2);
        if k0 == k1 {
            assert(put(entries, k1, v1).skip(1) =~= rest);
            assert(put(entries, k2, v2).skip(1) =~= put(rest, k2, v2));
            assert(a =~= b);
        } else if text::text_le(k1, k0) {
            let once = put(entries, k1, v1);
            assert(once.skip(1) =~= entries);
            assert(a =~= seq![(k1, v1)] + put(entries, k2, v2));
            if k0 == k2 {
                assert(put(entries, k2, v2)[0].0 == k2);
            } else if text::text_le(k2, k0) {
                assert(put(entries, k2, v2)[0].0 == k2);
            } else {
                assert(put(entries, k2, v2)[0].0 == k0);
            }
            assert(a =~= b);
        } else {
            if text::text_le(k2, k0) {
                text::lemma_text_le_transitive(k1, k2, k0);
            }
            lemma_put_swaps(rest, k1, v1, k2, v2);
            if k0 == k2 {
                assert(false);
            }
            assert(put(entries, k1, v1).skip(1) =~= put(rest, k1, v1));
            assert(put(entries, k2, v2).skip(1) =~= put(rest, k2, v2));
            assert(a =~= b);
        }
    }
}

/// The value under `k` of a JSON value, if it is an object that has one.
pub open spec fn json_get(j: JsonView, k: Seq<char>) -> Option<JsonView> {
    match j {
        JsonView::Object(entries) => entry_at(entries, k),
        _ => None,
    }
}

/// Finds the first entry under `k`.
pub fn find_entry<'a>(entries: &'a Vec<(String, Json)>, k: &str) -> (r: Option<&'a Json>)
    ensures
        match r {
            Some(v) => entry_at(entries_view(entries@), k@) == Some(v@),
            None => entry_at(entries_view(entries@), k@) is None,
        },
{
    let ghost all = entries_view(entries@);
    assert(all.skip(0) =~= all);
    let mut i: usize = 0;
    while i < entries.len()
        invariant
            all == entries_view(entries@),
            i <= entries.len(),
            entry_at(all, k@) == entry_at(all.skip(i as int), k@),
        decreases entries.len() - i,
    {
        assert(all.skip(i as int)[0] == all[i as int]);
        if same_text(entries[i].0.as_str(), k) {
            return Some(&entries[i].1);
        }
        assert(all.skip(i as int).skip(1) =~= all.skip(i + 1));
        i += 1;
    }
    None
}

impl Json {
    /// The value under `k`, if this is an object that has one.
    pub fn get<'a>(&'a self, k: &str) -> (r: Option<&'a Json>)
        ensures
            match r {
                Some(v) => json_get(self@, k@) == Some(v@),
                None => json_get(self@, k@) is None,
            },
    {
        match self {
            Json::Object(entries) => {
                proof {
                    lemma_object_view(*entries);
                }
                find_entry(entries, k)
            },
            _ => None,
        }
    }

    /// The text, if this is one.
    pub fn as_text<'a>(&'a self) -> (r: Option<&'a str>)
        ensures
            match r {
                Some(t) => self@ == JsonView::Text(t@),
                None => !(self@ is Text),
            },
    {
        match self {
            Json::Text(t) => Some(t.as_str()),
            _ => None,
        }
    }

    /// A JSON string.
    pub fn text(s: &str) -> (r: Json)
        ensures
            r@ == JsonView::Text(s@),
    {
        Json::Text(s.to_owned())
    }

    /// An array of strings.
    pub fn text_array(list: &Vec<String>) -> (r: Json)
        ensures
            r@ == text_items(text::texts(list@)),
    {
        let mut out: Vec<Json> = Vec::new();
        let mut i: usize = 0;
        while i < list.len()
            invariant
                i <= list.len(),
                out@.len() == i,
                forall|j: int| 0 <= j < i ==> (#[trigger] out@[j])@ == JsonView::Text(list@[j]@),
            decreases list.len() - i,
        {
            out.push(Json::Text(list[i].clone()));
            i += 1;
        }
        proof {
            lemma_array_view(out);
            assert(items_view(out@) =~= text_items(text::texts(list@))->Array_0);
        }
        Json::Array(out)
    }
}

/// An array of texts.
pub open spec fn text_items(s: Seq<Seq<char>>) -> JsonView {
    JsonView::Array(Seq::new(s.len(), |i: int| JsonView::Text(s[i])))
}

/// A value put under a key keeps the entries in the order of their keys.
pub proof fn law_put_keeps_order(entries: Seq<(Seq<char>, JsonView)>, k: Seq<char>, v: JsonView)
    requires
        text::is_sorted(keys(entries)),
    ensures
        text::is_sorted(keys(put(entries, k, v))),
    decreases entries.len(),
{
    let after = put(entries, k, v);
    text::lemma_text_le_total(k, k);
    if entries.len() > 0 {
        let first = entries[0].0;
        let rest = entries.skip(1);
        assert forall|i: int, j: int| 0 <= i <= j < keys(rest).len() implies text::text_le(
            #[trigger] keys(rest)[i],
            #[trigger] keys(rest)[j],
        ) by {
            assert(keys(rest)[i] == keys(entries)[i + 1]);
            assert(keys(rest)[j] == keys(entries)[j + 1]);
        }
        text::lemma_text_le_total(k, first);
        text::lemma_text_le_total(first, first);
        if first == k {
            assert(keys(after) =~= keys(entries));
        } else if text::text_le(k, first) {
            assert forall|i: int, j: int| 0 <= i <= j < keys(after).len() implies text::text_le(
                #[trigger] keys(after)[i],
                #[trigger] keys(after)[j],
            ) by {
                if i > 0 {
                    assert(keys(after)[i] == keys(entries)[i - 1]);
                }
                if j > 0 {
                    assert(keys(after)[j] == keys(entries)[j - 1]);
                    assert(keys(entries)[0] == first);
                    text::lemma_text_le_transitive(k, first, keys(entries)[j - 1]);
                }
            }
        } else {
            law_put_keeps_order(rest, k, v);
            let tail = put(rest, k, v);
            lemma_put_keys(rest, k, v);
            assert forall|i: int, j: int| 0 <= i <= j < keys(after).len() implies text::text_le(
                #[trigger] keys(after)[i],
                #[trigger] keys(after)[j],
            ) by {
                if i > 0 {
                    assert(keys(after)[i] == keys(tail)[i - 1]);
                }
                if j > 0 {
                    assert(keys(after)[j] == keys(tail)[j - 1]);
                    if i == 0 && keys(tail)[j - 1] != k {
                        let m = choose|m: int| 0 <= m < rest.len() && keys(rest)[m] == keys(tail)[j - 1];
                        assert(keys(entries)[m + 1] == keys(tail)[j - 1]);
                        assert(keys(entries)[0] == first);
                    }
                }
            }
        }
    }
}

proof fn lemma_put_keys(entries: Seq<(Seq<char>, JsonView)>, k: Seq<char>, v: JsonView)
    ensures
        forall|i: int|
            0 <= i < put(entries, k, v).len() ==> #[trigger] keys(put(entries, k, v))[i] == k || exists|m: int|
                0 <= m < entries.len() && #[trigger] keys(entries)[m] == keys(put(entries, k, v))[i],
    decreases entries.len(),
{
    let after = put(entries, k, v);
    if entries.len() > 0 {
        let rest = entries.skip(1);
        lemma_put_keys(rest, k, v);
        assert forall|i: int| 0 <= i < after.len() implies #[trigger] keys(after)[i] == k || exists|m: int|
            0 <= m < entries.len() && #[trigger] keys(entries)[m] == keys(after)[i] by {
            if entries[0].0 == k {
                assert(keys(entries)[i] == keys(after)[i]);
            } else if text::text_le(k, entries[0].0) {
                if i > 0 {
                    assert(keys(entries)[i - 1] == keys(after)[i]);
                }
            } else if i == 0 {
                assert(keys(entries)[0] == keys(after)[0]);
            } else {
                let tail = put(rest, k, v);
                assert(keys(after)[i] == keys(tail)[i - 1]);
                if keys(tail)[i - 1] != k {
                    let m = choose|m: int| 0 <= m < rest.len() && #[trigger] keys(rest)[m] == keys(tail)[i - 1];
                    assert(keys(entries)[m + 1] == keys(rest)[m]);
                }
            }
        }
    }
}

/// A value says what it holds: nothing, a number or a text as it is; a list and an object what
/// each of their parts holds, in order.
pub proof fn law_a_value_says_what_it_holds(j: Json)
    ensures
        match j {
            Json::Null => j@ is Null,
            Json::Bool(b) => j@ is Bool && j@->Bool_0 == b,
            Json::Unsigned(n) => j@ is Unsigned && j@->Unsigned_0 == n,
            Json::Negative(n) => j@ is Negative && j@->Negative_0 == n,
            Json::Fraction(n) => j@ is Fraction && j@->Fraction_0 == n,
            Json::Text(s) => j@ is Text && j@->Text_0 == s@,
            Json::Array(v) => {
                &&& j@ is Array
                &&& j@->Array_0.len() == v@.len()
                &&& forall|i: int| 0 <= i < v@.len() ==> #[trigger] j@->Array_0[i] == v@[i]@
            },
            Json::Object(v) => {
                &&& j@ is Object
                &&& j@->Object_0.len() == v@.len()
                &&& forall|i: int| 0 <= i < v@.len() ==> #[trigger] j@->Object_0[i] == (v@[i].0@, v@[i].1@)
            },
        },
{
}

/// What is read under a key is the first value that stands under it, and nothing where none does.
pub proof fn law_the_first_value_of_a_key_is_read(entries: Seq<(Seq<char>, JsonView)>, k: Seq<char>, i: int)
    requires
        0 <= i <= entries.len(),
        forall|j: int| 0 <= j < i ==> (#[trigger] entries[j]).0 != k,
        i < entries.len() ==> entries[i].0 == k,
    ensures
        i < entries.len() ==> entry_at(entries, k) == Some(entries[i].1),
        i == entries.len() ==> entry_at(entries, k) is None,
        json_get(JsonView::Object(entries), k) == entry_at(entries, k),
    decreases i,
{
    if i > 0 {
        let rest = entries.skip(1);
        assert(entries[0].0 != k);
        assert forall|j: int| 0 <= j < i - 1 implies (#[trigger] rest[j]).0 != k by {
            assert(rest[j] == entries[j + 1]);
        }
        if i < entries.len() {
            assert(rest[i - 1] == entries[i]);
        }
        law_the_first_value_of_a_key_is_read(rest, k, i - 1);
    }
}

/// Values that may be missing, the parts of a list and the entries of an object say what they
/// hold, in order.
pub proof fn law_parts_say_what_they_hold(j: Json, v: Seq<Json>, e: Seq<(String, Json)>)
    ensures
        opt_json(Some(j)) is Some,
        opt_json(Some(j))->0 == j@,
        opt_json(None) is None,
        items_view(v).len() == v.len(),
        forall|i: int| 0 <= i < v.len() ==> #[trigger] items_view(v)[i] == v[i]@,
        entries_view(e).len() == e.len(),
        forall|i: int| 0 <= i < e.len() ==> (#[trigger] entries_view(e)[i]).0 == e[i].0@ && entries_view(e)[i].1 == e[i].1@,
{
}

/// Texts stand in a list as texts, in order, each once.
pub proof fn law_texts_stand_in_a_list(s: Seq<Seq<char>>)
    ensures
        text_items(s) is Array,
        text_items(s)->Array_0.len() == s.len(),
        forall|i: int| 0 <= i < s.len() ==> #[trigger] text_items(s)->Array_0[i] == JsonView::Text(s[i]),
{
}

} // verus!
