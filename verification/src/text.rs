//! Strings as sequences of characters: comparison, cutting, joining, sorting.

use crate::outside;
use vstd::prelude::*;

verus! {

/// The texts that a sequence of strings holds.
pub open spec fn texts(v: Seq<String>) -> Seq<Seq<char>> {
    Seq::new(v.len(), |i: int| v[i]@)
}

/// Whether two strings hold the same text.
pub fn same_text(a: &str, b: &str) -> (r: bool)
    ensures
        r == (a@ == b@),
{
    a.to_owned() == b.to_owned()
}

/// Whether a list of strings holds a text.
pub fn holds_text(list: &Vec<String>, name: &str) -> (r: bool)
    ensures
        r == texts(list@).contains(name@),
{
    let mut i: usize = 0;
    while i < list.len()
        invariant
            i <= list.len(),
            forall|j: int| 0 <= j < i ==> list@[j]@ != name@,
        decreases list.len() - i,
    {
        if same_text(list[i].as_str(), name) {
            assert(texts(list@)[i as int] == name@);
            return true;
        }
        i += 1;
    }
    false
}

/// A copy of a list of strings.
pub fn copy_texts(list: &Vec<String>) -> (r: Vec<String>)
    ensures
        texts(r@) == texts(list@),
        r@ == list@,
{
    let mut out: Vec<String> = Vec::new();
    let mut i: usize = 0;
    while i < list.len()
        invariant
            i <= list.len(),
            out@ == list@.take(i as int),
        decreases list.len() - i,
    {
        out.push(list[i].clone());
        i += 1;
    }
    assert(out@ =~= list@);
    out
}

/// The characters of a string, in order.
pub fn chars_of(s: &str) -> (r: Vec<char>)
    ensures
        r@ == s@,
{
    let mut out: Vec<char> = Vec::new();
    for c in it: s.chars()
        invariant
            out@ == it.seq().take(it.index() as int),
            it.seq() == s@,
    {
        out.push(c);
    }
    assert(out@ =~= s@);
    out
}

/// The position of the first `c` in `s`, or the length of `s` when there is none.
pub open spec fn position(s: Seq<char>, c: char) -> int
    decreases s.len(),
{
    if s.len() == 0 {
        0
    } else if s[0] == c {
        0
    } else {
        1 + position(s.skip(1), c)
    }
}

/// What stands before the first `c` in `s`; all of `s` when there is none.
pub open spec fn before_first(s: Seq<char>, c: char) -> Seq<char> {
    s.take(position(s, c))
}

/// What stands behind the first `c` in `s`; nothing when there is none.
pub open spec fn after_first(s: Seq<char>, c: char) -> Seq<char> {
    if s.contains(c) {
        s.skip(position(s, c) + 1)
    } else {
        Seq::empty()
    }
}

pub proof fn lemma_position(s: Seq<char>, c: char)
    ensures
        0 <= position(s, c) <= s.len(),
        forall|j: int| 0 <= j < position(s, c) ==> s[j] != c,
        position(s, c) < s.len() ==> s[position(s, c)] == c,
        s.contains(c) <==> position(s, c) < s.len(),
    decreases s.len(),
{
    if s.len() > 0 && s[0] != c {
        lemma_position(s.skip(1), c);
        assert forall|j: int| 0 <= j < position(s, c) implies s[j] != c by {
            if j > 0 {
                assert(s.skip(1)[j - 1] == s[j]);
            }
        }
        if position(s, c) < s.len() {
            assert(s.skip(1)[position(s, c) - 1] == s[position(s, c)]);
        }
    }
    if s.len() > 0 && s[0] == c {
        assert(s.contains(c));
    }
    if s.contains(c) {
        let k = choose|k: int| 0 <= k < s.len() && s[k] == c;
        assert(s[k] == c);
    }
}

/// An index below which there is no `c` and at which there is one is its position.
pub proof fn lemma_position_is(s: Seq<char>, c: char, i: int)
    requires
        0 <= i <= s.len(),
        forall|j: int| 0 <= j < i ==> s[j] != c,
        i < s.len() ==> s[i] == c,
    ensures
        position(s, c) == i,
{
    lemma_position(s, c);
}

/// The position of the first `c` in `s`, or the number of characters when there is none.
pub fn find_first(s: &str, c: char) -> (r: usize)
    ensures
        r == position(s@, c),
        r <= s@.len(),
        s@.contains(c) <==> r < s@.len(),
{
    let cs = chars_of(s);
    let mut i: usize = 0;
    while i < cs.len() && cs[i] != c
        invariant
            i <= cs.len(),
            forall|j: int| 0 <= j < i ==> cs@[j] != c,
        decreases cs.len() - i,
    {
        i += 1;
    }
    proof {
        lemma_position_is(s@, c, i as int);
        lemma_position(s@, c);
    }
    i
}

/// `s` cut at the first `c`; `None` when there is no `c`.
pub fn split_first<'a>(s: &'a str, c: char) -> (r: Option<(&'a str, &'a str)>)
    ensures
        match r {
            Some((a, b)) => s@.contains(c) && a@ == before_first(s@, c) && b@ == after_first(s@, c),
            None => !s@.contains(c),
        },
{
    let at = find_first(s, c);
    let n = s.unicode_len();
    if at < n {
        let a = s.substring_char(0, at);
        let b = s.substring_char(at + 1, n);
        assert(a@ =~= before_first(s@, c));
        assert(b@ =~= after_first(s@, c));
        Some((a, b))
    } else {
        None
    }
}

/// What a cut at the first `c` yields, put together again, is the whole.
pub proof fn lemma_cut_rejoins(s: Seq<char>, c: char)
    requires
        s.contains(c),
    ensures
        s == before_first(s, c) + seq![c] + after_first(s, c),
        !before_first(s, c).contains(c),
{
    lemma_position(s, c);
    assert(s =~= before_first(s, c) + seq![c] + after_first(s, c));
}

/// Joining a text without `c`, one `c` and any text, then cutting, gives the two texts back.
pub proof fn lemma_join_cuts(a: Seq<char>, c: char, b: Seq<char>)
    requires
        !a.contains(c),
    ensures
        (a + seq![c] + b).contains(c),
        before_first(a + seq![c] + b, c) == a,
        after_first(a + seq![c] + b, c) == b,
{
    let s = a + seq![c] + b;
    assert(s[a.len() as int] == c);
    assert forall|j: int| 0 <= j < a.len() implies s[j] != c by {
        assert(a.contains(a[j]));
    }
    lemma_position_is(s, c, a.len() as int);
    assert(before_first(s, c) =~= a);
    assert(after_first(s, c) =~= b);
}

/// The parts of `s` between the `c`s, in order.
pub open spec fn segments(s: Seq<char>, c: char) -> Seq<Seq<char>>
    decreases s.len(),
{
    if s.contains(c) {
        proof {
            lemma_position(s, c);
        }
        seq![before_first(s, c)] + segments(after_first(s, c), c)
    } else {
        seq![s]
    }
}

/// The parts of `s` between the `c`s, in order.
pub fn split_all<'a>(s: &'a str, c: char) -> (r: Vec<&'a str>)
    ensures
        r@.len() == segments(s@, c).len(),
        forall|i: int| 0 <= i < r@.len() ==> (#[trigger] r@[i])@ == segments(s@, c)[i],
{
    let mut out: Vec<&'a str> = Vec::new();
    let mut rest = s;
    loop
        invariant
            segments(s@, c).len() == out@.len() + segments(rest@, c).len(),
            forall|i: int| 0 <= i < out@.len() ==> (#[trigger] out@[i])@ == segments(s@, c)[i],
            forall|i: int|
                0 <= i < segments(rest@, c).len() ==> #[trigger] segments(rest@, c)[i]
                    == segments(s@, c)[out@.len() + i],
        decreases rest@.len(),
    {
        let ghost before = rest@;
        let ghost had: int = out@.len() as int;
        match split_first(rest, c) {
            Some((a, b)) => {
                proof {
                    lemma_position(rest@, c);
                    assert(segments(rest@, c)[0] == a@);
                    assert(segments(s@, c)[had + 0] == a@);
                    assert forall|i: int| 0 <= i < segments(b@, c).len() implies #[trigger] segments(b@, c)[i]
                        == segments(s@, c)[had + 1 + i] by {
                        assert(segments(before, c)[i + 1] == segments(b@, c)[i]);
                        assert(segments(s@, c)[had + (i + 1)] == segments(before, c)[i + 1]);
                    }
                }
                out.push(a);
                rest = b;
            },
            None => {
                proof {
                    assert(segments(rest@, c)[0] == rest@);
                    assert(segments(s@, c)[had + 0] == rest@);
                }
                out.push(rest);
                return out;
            },
        }
    }
}

/// One hexadecimal digit.
pub open spec fn hex_digit(d: int) -> char {
    if d == 0 { '0' } else if d == 1 { '1' } else if d == 2 { '2' } else if d == 3 { '3' }
    else if d == 4 { '4' } else if d == 5 { '5' } else if d == 6 { '6' } else if d == 7 { '7' }
    else if d == 8 { '8' } else if d == 9 { '9' } else if d == 10 { 'a' } else if d == 11 { 'b' }
    else if d == 12 { 'c' } else if d == 13 { 'd' } else if d == 14 { 'e' } else { 'f' }
}

fn hex_digit_str(d: u64) -> (r: &'static str)
    requires
        d < 16,
    ensures
        r@ == seq![hex_digit(d as int)],
{
    proof {
        reveal_strlit("0"); reveal_strlit("1"); reveal_strlit("2"); reveal_strlit("3");
        reveal_strlit("4"); reveal_strlit("5"); reveal_strlit("6"); reveal_strlit("7");
        reveal_strlit("8"); reveal_strlit("9"); reveal_strlit("a"); reveal_strlit("b");
        reveal_strlit("c"); reveal_strlit("d"); reveal_strlit("e"); reveal_strlit("f");
    }
    let r = if d == 0 { "0" } else if d == 1 { "1" } else if d == 2 { "2" } else if d == 3 { "3" }
    else if d == 4 { "4" } else if d == 5 { "5" } else if d == 6 { "6" } else if d == 7 { "7" }
    else if d == 8 { "8" } else if d == 9 { "9" } else if d == 10 { "a" } else if d == 11 { "b" }
    else if d == 12 { "c" } else if d == 13 { "d" } else if d == 14 { "e" } else { "f" };
    assert(r@ =~= seq![hex_digit(d as int)]);
    r
}

/// A number in decimal, without leading zeros.
pub open spec fn decimal(n: nat) -> Seq<char>
    decreases n,
{
    if n < 10 {
        seq![hex_digit(n as int)]
    } else {
        decimal(n / 10).push(hex_digit((n % 10) as int))
    }
}

/// A number in decimal, without leading zeros.
pub fn decimal_text(n: u64) -> (r: String)
    ensures
        r@ == decimal(n as nat),
    decreases n,
{
    if n < 10 {
        hex_digit_str(n).to_owned()
    } else {
        let mut s = decimal_text(n / 10);
        s.append(hex_digit_str(n % 10));
        assert(s@ =~= decimal(n as nat));
        s
    }
}

/// The lowest `width` hexadecimal digits of a number, the highest first.
pub open spec fn hex(n: nat, width: nat) -> Seq<char>
    decreases width,
{
    if width == 0 {
        Seq::empty()
    } else {
        hex(n / 16, (width - 1) as nat).push(hex_digit((n % 16) as int))
    }
}

/// How many numbers have so many hexadecimal digits.
pub open spec fn hex_range(width: nat) -> nat
    decreases width,
{
    if width == 0 {
        1
    } else {
        16 * hex_range((width - 1) as nat)
    }
}

proof fn lemma_digits_differ(a: int, b: int)
    requires
        0 <= a < 16,
        0 <= b < 16,
        hex_digit(a) == hex_digit(b),
    ensures
        a == b,
{
}

/// Hexadecimal digits tell the number, as far as there are digits for it.
pub proof fn lemma_hex_tells(a: nat, b: nat, width: nat)
    requires
        hex(a, width) == hex(b, width),
    ensures
        hex_range(width) > 0,
        a % hex_range(width) == b % hex_range(width),
    decreases width,
{
    if width == 0 {
        assert(a % 1 == 0 && b % 1 == 0);
    } else {
        let less = (width - 1) as nat;
        let x = hex(a, width);
        let y = hex(b, width);
        assert(x.last() == hex_digit((a % 16) as int) && y.last() == hex_digit((b % 16) as int));
        lemma_digits_differ((a % 16) as int, (b % 16) as int);
        assert(x.drop_last() =~= hex(a / 16, less));
        assert(y.drop_last() =~= hex(b / 16, less));
        lemma_hex_tells(a / 16, b / 16, less);
        vstd::arithmetic::div_mod::lemma_mod_breakdown(a as int, 16, hex_range(less) as int);
        vstd::arithmetic::div_mod::lemma_mod_breakdown(b as int, 16, hex_range(less) as int);
    }
}

/// So many hexadecimal digits are that long.
pub proof fn lemma_hex_len(n: nat, width: nat)
    ensures
        hex(n, width).len() == width,
    decreases width,
{
    if width > 0 {
        lemma_hex_len(n / 16, (width - 1) as nat);
    }
}

/// Whether a character is a lowercase hexadecimal digit.
pub open spec fn is_hex_digit(c: char) -> bool {
    '0' <= c <= '9' || 'a' <= c <= 'f'
}

/// Hexadecimal digits are lowercase.
pub proof fn lemma_hex_digits(n: nat, width: nat)
    ensures
        forall|i: int| 0 <= i < hex(n, width).len() ==> is_hex_digit(#[trigger] hex(n, width)[i]),
    decreases width,
{
    if width > 0 {
        let fewer = hex(n / 16, (width - 1) as nat);
        lemma_hex_digits(n / 16, (width - 1) as nat);
        assert forall|i: int| 0 <= i < hex(n, width).len() implies is_hex_digit(#[trigger] hex(n, width)[i]) by {
            if i < fewer.len() {
                assert(hex(n, width)[i] == fewer[i]);
            }
        }
    }
}

proof fn lemma_decimal_len(n: nat)
    ensures
        decimal(n).len() >= 1,
        n >= 10 ==> decimal(n).len() >= 2,
    decreases n,
{
    if n >= 10 {
        lemma_decimal_len(n / 10);
    }
}

/// Decimal digits tell the number.
pub proof fn lemma_decimal_tells(a: nat, b: nat)
    requires
        decimal(a) == decimal(b),
    ensures
        a == b,
    decreases a,
{
    lemma_decimal_len(a);
    lemma_decimal_len(b);
    let x = decimal(a);
    let y = decimal(b);
    if a < 10 {
        assert(x.len() == 1);
        assert(b < 10);
        assert(x[0] == hex_digit(a as int) && y[0] == hex_digit(b as int));
        lemma_digits_differ(a as int, b as int);
    } else {
        assert(b >= 10) by {
            if b < 10 {
                assert(y.len() == 1);
            }
        }
        assert(x.last() == hex_digit((a % 10) as int) && y.last() == hex_digit((b % 10) as int));
        lemma_digits_differ((a % 10) as int, (b % 10) as int);
        assert(x.drop_last() =~= decimal(a / 10));
        assert(y.drop_last() =~= decimal(b / 10));
        lemma_decimal_tells(a / 10, b / 10);
    }
}

/// The lowest `width` hexadecimal digits of a number, the highest first.
pub fn hex_text(n: u64, width: u64) -> (r: String)
    ensures
        r@ == hex(n as nat, width as nat),
    decreases width,
{
    if width == 0 {
        String::new()
    } else {
        let mut s = hex_text(n / 16, width - 1);
        s.append(hex_digit_str(n % 16));
        assert(s@ =~= hex(n as nat, width as nat));
        s
    }
}

/// The order of texts: by the first character in which they differ, a prefix first.
pub open spec fn text_le(a: Seq<char>, b: Seq<char>) -> bool
    decreases a.len(),
{
    if a.len() == 0 {
        true
    } else if b.len() == 0 {
        false
    } else if a[0] == b[0] {
        text_le(a.skip(1), b.skip(1))
    } else {
        (a[0] as int) < (b[0] as int)
    }
}

pub proof fn lemma_text_le_total(a: Seq<char>, b: Seq<char>)
    ensures
        text_le(a, b) || text_le(b, a),
    decreases a.len(),
{
    if a.len() > 0 && b.len() > 0 && a[0] == b[0] {
        lemma_text_le_total(a.skip(1), b.skip(1));
    }
}

pub proof fn lemma_text_le_antisymmetric(a: Seq<char>, b: Seq<char>)
    requires
        text_le(a, b),
        text_le(b, a),
    ensures
        a == b,
    decreases a.len(),
{
    if a.len() > 0 && b.len() > 0 && a[0] == b[0] {
        lemma_text_le_antisymmetric(a.skip(1), b.skip(1));
        assert(a =~= seq![a[0]] + a.skip(1));
        assert(b =~= seq![b[0]] + b.skip(1));
    } else {
        assert(a =~= b);
    }
}

pub proof fn lemma_text_le_transitive(a: Seq<char>, b: Seq<char>, c: Seq<char>)
    requires
        text_le(a, b),
        text_le(b, c),
    ensures
        text_le(a, c),
    decreases a.len(),
{
    if a.len() > 0 && b.len() > 0 && c.len() > 0 && a[0] == b[0] && b[0] == c[0] {
        lemma_text_le_transitive(a.skip(1), b.skip(1), c.skip(1));
    }
}

/// Whether `a` comes before `b` or is the same text.
pub fn text_at_most(a: &str, b: &str) -> (r: bool)
    ensures
        r == text_le(a@, b@),
{
    let x = chars_of(a);
    let y = chars_of(b);
    let mut i: usize = 0;
    proof {
        assert(a@.skip(0) =~= a@);
        assert(b@.skip(0) =~= b@);
    }
    while i < x.len()
        invariant
            x@ == a@,
            y@ == b@,
            i <= x.len(),
            i <= y.len(),
            text_le(a@, b@) == text_le(a@.skip(i as int), b@.skip(i as int)),
        decreases x.len() - i,
    {
        if i >= y.len() {
            return false;
        }
        if x[i] != y[i] {
            assert(a@.skip(i as int)[0] == a@[i as int]);
            assert(b@.skip(i as int)[0] == b@[i as int]);
            return x[i] < y[i];
        }
        proof {
            assert(a@.skip(i as int)[0] == a@[i as int]);
            assert(b@.skip(i as int)[0] == b@[i as int]);
            assert(a@.skip(i as int).skip(1) =~= a@.skip(i + 1));
            assert(b@.skip(i as int).skip(1) =~= b@.skip(i + 1));
        }
        i += 1;
    }
    true
}

/// Whether the texts stand in order.
pub open spec fn is_sorted(s: Seq<Seq<char>>) -> bool {
    forall|i: int, j: int| 0 <= i <= j < s.len() ==> text_le(#[trigger] s[i], #[trigger] s[j])
}

/// Puts a string where it belongs in a sorted list.
pub fn insert_sorted(list: &mut Vec<String>, x: String)
    requires
        is_sorted(texts(old(list)@)),
    ensures
        is_sorted(texts(final(list)@)),
        texts(final(list)@).to_multiset() == texts(old(list)@).to_multiset().insert(x@),
{
    let ghost before = texts(list@);
    let mut i: usize = 0;
    while i < list.len() && text_at_most(list[i].as_str(), x.as_str())
        invariant
            texts(list@) == before,
            i <= list.len(),
            forall|j: int| 0 <= j < i ==> text_le(#[trigger] before[j], x@),
        decreases list.len() - i,
    {
        assert(before[i as int] == list@[i as int]@);
        i += 1;
    }
    let ghost text = x@;
    list.insert(i, x);
    proof {
        let after = texts(list@);
        assert(after =~= before.insert(i as int, text));
        broadcast use vstd::seq_lib::to_multiset_insert;
        assert forall|a: int, b: int| 0 <= a <= b < after.len() implies text_le(
            #[trigger] after[a],
            #[trigger] after[b],
        ) by {
            if i < before.len() {
                lemma_text_le_total(text, before[i as int]);
            }
            if a == i && b == i {
                lemma_text_le_total(text, text);
            } else if a == i {
                assert(after[b] == before[b - 1]);
                lemma_text_le_transitive(text, before[i as int], before[b - 1]);
            } else if b == i {
                assert(after[a] == before[a]);
            } else {
                let a0 = if a < i { a } else { a - 1 };
                let b0 = if b < i { b } else { b - 1 };
                assert(after[a] == before[a0]);
                assert(after[b] == before[b0]);
            }
        }
    }
}

/// The same strings in order.
pub fn sort_texts(list: &Vec<String>) -> (r: Vec<String>)
    ensures
        is_sorted(texts(r@)),
        texts(r@).to_multiset() == texts(list@).to_multiset(),
{
    let mut out: Vec<String> = Vec::new();
    let mut i: usize = 0;
    assert(texts(list@.take(0)) =~= texts(out@));
    while i < list.len()
        invariant
            i <= list.len(),
            is_sorted(texts(out@)),
            texts(out@).to_multiset() == texts(list@.take(i as int)).to_multiset(),
        decreases list.len() - i,
    {
        insert_sorted(&mut out, list[i].clone());
        proof {
            assert(texts(list@.take(i + 1)) =~= texts(list@.take(i as int)).push(list@[i as int]@));
            vstd::seq_lib::to_multiset_build(texts(list@.take(i as int)), list@[i as int]@);
        }
        i += 1;
    }
    assert(list@.take(list@.len() as int) =~= list@);
    out
}

/// Two sorted sequences that hold the same texts equally often are the same.
pub proof fn lemma_sorted_unique(a: Seq<Seq<char>>, b: Seq<Seq<char>>)
    requires
        is_sorted(a),
        is_sorted(b),
        a.to_multiset() == b.to_multiset(),
    ensures
        a == b,
{
    let leq = |x: Seq<char>, y: Seq<char>| text_le(x, y);
    assert forall|x: Seq<char>| #[trigger] leq(x, x) by {
        lemma_text_le_total(x, x);
    }
    assert forall|x: Seq<char>, y: Seq<char>| #[trigger] leq(x, y) && #[trigger] leq(y, x) implies x == y by {
        lemma_text_le_antisymmetric(x, y);
    }
    assert forall|x: Seq<char>, y: Seq<char>, z: Seq<char>| #[trigger] leq(x, y) && #[trigger] leq(y, z) implies leq(
        x,
        z,
    ) by {
        lemma_text_le_transitive(x, y, z);
    }
    assert forall|x: Seq<char>, y: Seq<char>| #[trigger] leq(x, y) || leq(y, x) by {
        lemma_text_le_total(x, y);
    }
    assert(vstd::relations::total_ordering(leq));
    assert(vstd::relations::sorted_by(a, leq));
    assert(vstd::relations::sorted_by(b, leq));
    vstd::seq_lib::lemma_sorted_unique(a, b, leq);
}

/// The texts in ascending order.
pub open spec fn in_order(s: Seq<Seq<char>>) -> Seq<Seq<char>> {
    choose|t: Seq<Seq<char>>| #[trigger] is_sorted(t) && t.to_multiset() == s.to_multiset()
}

pub proof fn lemma_in_order_is(s: Seq<Seq<char>>, t: Seq<Seq<char>>)
    requires
        is_sorted(t),
        t.to_multiset() == s.to_multiset(),
    ensures
        in_order(s) == t,
{
    lemma_sorted_unique(in_order(s), t);
}

/// Texts can be put in order.
pub proof fn lemma_in_order_exists(s: Seq<Seq<char>>)
    ensures
        is_sorted(in_order(s)),
        in_order(s).to_multiset() == s.to_multiset(),
    decreases s.len(),
{
    if s.len() == 0 {
        assert(is_sorted(s));
    } else {
        let rest = s.drop_last();
        let x = s.last();
        lemma_in_order_exists(rest);
        let t = in_order(rest);
        let p = place_of(t, x);
        lemma_place_of(t, x);
        let u = t.insert(p, x);
        assert forall|i: int, j: int| 0 <= i <= j < u.len() implies text_le(#[trigger] u[i], #[trigger] u[j]) by {
            lemma_text_le_total(u[i], u[i]);
            let i0 = if i < p { i } else { i - 1 };
            let j0 = if j < p { j } else { j - 1 };
            if i != p {
                assert(u[i] == t[i0]);
            }
            if j != p {
                assert(u[j] == t[j0]);
            }
        }
        assert(is_sorted(u));
        vstd::seq_lib::to_multiset_insert(t, p, x);
        vstd::seq_lib::to_multiset_build(rest, x);
        assert(s =~= rest.push(x));
        assert(u.to_multiset() == s.to_multiset());
    }
}

/// Where a text belongs in sorted texts.
spec fn place_of(t: Seq<Seq<char>>, x: Seq<char>) -> int
    decreases t.len(),
{
    if t.len() == 0 {
        0
    } else if text_le(t.last(), x) {
        t.len() as int
    } else {
        place_of(t.drop_last(), x)
    }
}

proof fn lemma_place_of(t: Seq<Seq<char>>, x: Seq<char>)
    requires
        is_sorted(t),
    ensures
        0 <= place_of(t, x) <= t.len(),
        forall|i: int| 0 <= i < place_of(t, x) ==> text_le(#[trigger] t[i], x),
        forall|i: int| place_of(t, x) <= i < t.len() ==> text_le(x, #[trigger] t[i]),
    decreases t.len(),
{
    if t.len() > 0 {
        let n = t.len() - 1;
        if text_le(t.last(), x) {
            assert forall|i: int| 0 <= i < t.len() implies text_le(#[trigger] t[i], x) by {
                assert(text_le(t[i], t[n]));
                lemma_text_le_transitive(t[i], t[n], x);
            }
        } else {
            let rest = t.drop_last();
            assert forall|i: int, j: int| 0 <= i <= j < rest.len() implies text_le(
                #[trigger] rest[i],
                #[trigger] rest[j],
            ) by {
                assert(rest[i] == t[i] && rest[j] == t[j]);
            }
            lemma_place_of(rest, x);
            lemma_text_le_total(t.last(), x);
            assert forall|i: int| 0 <= i < place_of(t, x) implies text_le(#[trigger] t[i], x) by {
                assert(rest[i] == t[i]);
            }
            assert forall|i: int| place_of(t, x) <= i < t.len() implies text_le(x, #[trigger] t[i]) by {
                if i < n {
                    assert(rest[i] == t[i]);
                }
            }
        }
    }
}

pub proof fn lemma_in_order_follows_multiset(a: Seq<Seq<char>>, b: Seq<Seq<char>>)
    requires
        a.to_multiset() == b.to_multiset(),
    ensures
        in_order(a) == in_order(b),
{
}

pub proof fn lemma_map_keeps_multisets<A, B>(a: Seq<A>, b: Seq<A>, f: spec_fn(A) -> B)
    requires
        a.to_multiset() == b.to_multiset(),
    ensures
        a.map_values(f).to_multiset() == b.map_values(f).to_multiset(),
    decreases a.len(),
{
    broadcast use vstd::seq_lib::group_to_multiset_ensures;

    if a.len() == 0 {
        assert(b.len() == b.to_multiset().len());
        assert(a.map_values(f) =~= b.map_values(f));
    } else {
        let x = a.last();
        assert(a.contains(x));
        assert(b.to_multiset().count(x) > 0);
        assert(b.contains(x));
        let i = choose|i: int| 0 <= i < b.len() && b[i] == x;
        let rest = b.remove(i);
        assert(a.remove(a.len() - 1) =~= a.drop_last());
        assert(a.drop_last().to_multiset() =~= rest.to_multiset());
        lemma_map_keeps_multisets(a.drop_last(), rest, f);
        let fb = b.map_values(f);
        assert(fb.remove(i) =~= rest.map_values(f));
        assert(fb[i] == f(x));
        assert(fb.contains(f(x)));
        assert(a.map_values(f) =~= a.drop_last().map_values(f).push(f(x)));
        assert(rest.map_values(f).to_multiset() =~= fb.to_multiset().remove(f(x)));
        assert(rest.map_values(f).to_multiset().insert(f(x)) =~= fb.to_multiset());
    }
}

/// The text without the white space at its two ends.
pub open spec fn trimmed(s: Seq<char>) -> Seq<char>
    decreases s.len(),
{
    if s.len() == 0 {
        s
    } else if outside::is_white_space(s[0]) {
        trimmed(s.skip(1))
    } else if outside::is_white_space(s.last()) {
        trimmed(s.drop_last())
    } else {
        s
    }
}

/// The text without the white space at its two ends.
pub fn trim_text<'a>(s: &'a str) -> (r: &'a str)
    ensures
        r@ == trimmed(s@),
{
    let cs = chars_of(s);
    let mut from: usize = 0;
    let mut to: usize = cs.len();
    assert(s@.subrange(0, to as int) =~= s@);
    while from < to && cs[from].is_whitespace()
        invariant
            cs@ == s@,
            from <= to == cs.len(),
            trimmed(s@.subrange(from as int, to as int)) == trimmed(s@),
        decreases to - from,
    {
        assert(s@.subrange(from as int, to as int).skip(1) =~= s@.subrange(from + 1, to as int));
        from += 1;
    }
    while from < to && cs[to - 1].is_whitespace()
        invariant
            cs@ == s@,
            from <= to <= cs.len(),
            from < to ==> !outside::is_white_space(s@[from as int]),
            trimmed(s@.subrange(from as int, to as int)) == trimmed(s@),
        decreases to - from,
    {
        assert(s@.subrange(from as int, to as int).drop_last() =~= s@.subrange(from as int, to - 1));
        to -= 1;
    }
    s.substring_char(from, to)
}

/// Whether `s` starts with `p`.
pub open spec fn starts_with(s: Seq<char>, p: Seq<char>) -> bool {
    s.len() >= p.len() && s.take(p.len() as int) == p
}

/// Whether `s` ends with `p`.
pub open spec fn ends_with(s: Seq<char>, p: Seq<char>) -> bool {
    s.len() >= p.len() && s.skip(s.len() - p.len()) == p
}

/// Whether `s` starts with `p`.
pub fn has_prefix(s: &str, p: &str) -> (r: bool)
    ensures
        r == starts_with(s@, p@),
{
    let n = s.unicode_len();
    let m = p.unicode_len();
    if n < m {
        return false;
    }
    same_text(s.substring_char(0, m), p)
}

/// Whether `s` ends with `p`.
pub fn has_suffix(s: &str, p: &str) -> (r: bool)
    ensures
        r == ends_with(s@, p@),
{
    let n = s.unicode_len();
    let m = p.unicode_len();
    if n < m {
        return false;
    }
    same_text(s.substring_char(n - m, n), p)
}

/// Two strings, one behind the other.
pub fn join2(a: &str, b: &str) -> (r: String)
    ensures
        r@ == a@ + b@,
{
    let mut s = a.to_owned();
    s.append(b);
    s
}

/// Three strings, one behind the other.
pub fn join3(a: &str, b: &str, c: &str) -> (r: String)
    ensures
        r@ == a@ + b@ + c@,
{
    let mut s = a.to_owned();
    s.append(b);
    s.append(c);
    s
}

/// `a`, a dot and `b`.
pub open spec fn dotted(a: Seq<char>, b: Seq<char>) -> Seq<char> {
    a + seq!['.'] + b
}

/// `a`, a dot and `b`.
pub fn dotted_text(a: &str, b: &str) -> (r: String)
    ensures
        r@ == dotted(a@, b@),
{
    proof {
        reveal_strlit(".");
        assert("."@ =~= seq!['.']);
    }
    join3(a, ".", b)
}

/// The text of a string that may be missing.
pub open spec fn opt_text(s: Option<String>) -> Option<Seq<char>> {
    match s {
        Some(t) => Some(t@),
        None => None,
    }
}

/// A copy of a string that may be missing.
pub fn copy_opt(s: &Option<String>) -> (r: Option<String>)
    ensures
        opt_text(r) == opt_text(*s),
        r == *s,
{
    match s {
        Some(t) => Some(t.clone()),
        None => None,
    }
}

/// Whether `order` lists the positions of `keys` by key, equal keys by position.
pub open spec fn is_order(order: Seq<usize>, keys: Seq<Seq<char>>) -> bool {
    &&& order.len() == keys.len()
    &&& order.no_duplicates()
    &&& forall|i: int| 0 <= i < order.len() ==> (#[trigger] order[i]) < keys.len()
    &&& forall|i: int, j: int|
        0 <= i < j < order.len() ==> text_le(keys[#[trigger] order[i] as int], keys[#[trigger] order[j] as int])
    &&& forall|i: int, j: int|
        0 <= i < j < order.len() && keys[#[trigger] order[i] as int] == keys[#[trigger] order[j] as int] ==> order[i]
            < order[j]
}

/// The positions of keys by key, equal keys by position.
pub fn sorted_order(keys: &Vec<String>) -> (r: Vec<usize>)
    ensures
        is_order(r@, texts(keys@)),
{
    let ghost all = texts(keys@);
    let mut out: Vec<usize> = Vec::new();
    let mut k: usize = 0;
    while k < keys.len()
        invariant
            all == texts(keys@),
            k <= keys.len(),
            out@.len() == k,
            out@.no_duplicates(),
            forall|i: int| 0 <= i < out@.len() ==> (#[trigger] out@[i]) < k,
            forall|i: int, j: int|
                0 <= i < j < out@.len() ==> text_le(all[#[trigger] out@[i] as int], all[#[trigger] out@[j] as int]),
            forall|i: int, j: int|
                0 <= i < j < out@.len() && all[#[trigger] out@[i] as int] == all[#[trigger] out@[j] as int] ==> out@[i]
                    < out@[j],
        decreases keys.len() - k,
    {
        let ghost before = out@;
        let mut p: usize = 0;
        while p < out.len() && text_at_most(keys[out[p]].as_str(), keys[k].as_str())
            invariant
                all == texts(keys@),
                k < keys.len(),
                out@ == before,
                p <= out.len(),
                forall|i: int| 0 <= i < out@.len() ==> (#[trigger] out@[i]) < k,
                forall|i: int| 0 <= i < p ==> text_le(all[#[trigger] before[i] as int], all[k as int]),
            decreases out.len() - p,
        {
            p += 1;
        }
        out.insert(p, k);
        proof {
            let after = out@;
            assert(after =~= before.insert(p as int, k));
            if p < before.len() {
                assert(!text_le(all[before[p as int] as int], all[k as int]));
                lemma_text_le_total(all[before[p as int] as int], all[k as int]);
            }
            assert forall|i: int, j: int| 0 <= i < j < after.len() implies {
                &&& text_le(all[#[trigger] after[i] as int], all[#[trigger] after[j] as int])
                &&& all[after[i] as int] == all[after[j] as int] ==> after[i] < after[j]
                &&& after[i] != after[j]
            } by {
                if i == p {
                    assert(after[j] == before[j - 1]);
                    if j - 1 > p {
                        assert(text_le(all[before[p as int] as int], all[before[j - 1] as int]));
                    } else {
                        lemma_text_le_total(all[before[p as int] as int], all[before[p as int] as int]);
                    }
                    lemma_text_le_transitive(
                        all[k as int],
                        all[before[p as int] as int],
                        all[before[j - 1] as int],
                    );
                    if all[after[i] as int] == all[after[j] as int] {
                        assert(text_le(all[before[p as int] as int], all[k as int]));
                    }
                } else if j == p {
                    assert(after[i] == before[i]);
                } else {
                    let i0 = if i < p { i } else { i - 1 };
                    let j0 = if j < p { j } else { j - 1 };
                    assert(after[i] == before[i0]);
                    assert(after[j] == before[j0]);
                }
            }
            assert forall|i: int| 0 <= i < after.len() implies (#[trigger] after[i]) < k + 1 by {
                if i != p {
                    let i0 = if i < p { i } else { i - 1 };
                    assert(after[i] == before[i0]);
                }
            }
        }
        k += 1;
    }
    out
}

/// The value of the first entry under a name.
pub open spec fn first_under<T>(entries: Seq<(String, T)>, name: Seq<char>) -> Option<T>
    decreases entries.len(),
{
    if entries.len() == 0 {
        None
    } else if entries[0].0@ == name {
        Some(entries[0].1)
    } else {
        first_under(entries.skip(1), name)
    }
}

pub proof fn lemma_first_under<T>(entries: Seq<(String, T)>, name: Seq<char>, i: int)
    requires
        0 <= i <= entries.len(),
        forall|j: int| 0 <= j < i ==> (#[trigger] entries[j]).0@ != name,
        i < entries.len() ==> entries[i].0@ == name,
    ensures
        first_under(entries, name) == (if i < entries.len() {
            Some(entries[i].1)
        } else {
            None
        }),
    decreases entries.len(),
{
    if entries.len() > 0 && i > 0 {
        assert(entries[0].0@ != name);
        let rest = entries.skip(1);
        assert forall|j: int| 0 <= j < i - 1 implies (#[trigger] rest[j]).0@ != name by {
            assert(rest[j] == entries[j + 1]);
        }
        lemma_first_under(rest, name, i - 1);
    }
}

/// The position of the first entry under a name, or the number of entries when there is none.
pub fn find_under<T>(entries: &Vec<(String, T)>, name: &str) -> (r: usize)
    ensures
        r <= entries@.len(),
        forall|j: int| 0 <= j < r ==> (#[trigger] entries@[j]).0@ != name@,
        r < entries@.len() ==> entries@[r as int].0@ == name@,
        first_under(entries@, name@) == (if r < entries@.len() {
            Some(entries@[r as int].1)
        } else {
            None
        }),
{
    let mut i: usize = 0;
    while i < entries.len() && !same_text(entries[i].0.as_str(), name)
        invariant
            i <= entries.len(),
            forall|j: int| 0 <= j < i ==> (#[trigger] entries@[j]).0@ != name@,
        decreases entries.len() - i,
    {
        i += 1;
    }
    proof {
        lemma_first_under(entries@, name@, i as int);
    }
    i
}

/// The value of the first entry under a name.
pub fn get_under<'a, T>(entries: &'a Vec<(String, T)>, name: &str) -> (r: Option<&'a T>)
    ensures
        match r {
            Some(v) => first_under(entries@, name@) == Some(*v),
            None => first_under(entries@, name@) is None,
        },
{
    let i = find_under(entries, name);
    if i < entries.len() {
        Some(&entries[i].1)
    } else {
        None
    }
}

/// Puts a value under a name, in place of the one that was there.
pub fn put_under<T>(entries: &mut Vec<(String, T)>, name: String, value: T)
    ensures
        forall|n: Seq<char>| #[trigger] first_under(final(entries)@, n) == (if n == name@ {
            Some(value)
        } else {
            first_under(old(entries)@, n)
        }),
{
    let ghost before = entries@;
    let i = find_under(entries, name.as_str());
    if i < entries.len() {
        entries.set(i, (name, value));
    } else {
        entries.push((name, value));
    }
    proof {
        let after = entries@;
        assert forall|n: Seq<char>| #[trigger] first_under(after, n) == (if n == name@ {
            Some(value)
        } else {
            first_under(before, n)
        }) by {
            if n == name@ {
                assert forall|j: int| 0 <= j < i implies (#[trigger] after[j]).0@ != n by {
                    assert(after[j] == before[j]);
                }
                lemma_first_under(after, n, i as int);
            } else {
                lemma_first_elsewhere(before, after, i as int, n);
            }
        }
    }
}

proof fn lemma_first_elsewhere<T>(before: Seq<(String, T)>, after: Seq<(String, T)>, i: int, n: Seq<char>)
    requires
        0 <= i <= before.len(),
        i < after.len(),
        after.len() == (if i < before.len() {
            before.len()
        } else {
            before.len() + 1
        }),
        forall|j: int| 0 <= j < before.len() && j != i ==> after[j] == before[j],
        after[i].0@ != n,
        i < before.len() ==> before[i].0@ != n,
    ensures
        first_under(after, n) == first_under(before, n),
    decreases after.len(),
{
    if before.len() == 0 {
        assert(after.skip(1).len() == 0);
        reveal_with_fuel(first_under, 2);
    } else if i > 0 {
        let b = before.skip(1);
        let a = after.skip(1);
        assert(after[0] == before[0]);
        assert forall|j: int| 0 <= j < b.len() && j != i - 1 implies a[j] == b[j] by {
            assert(a[j] == after[j + 1] && b[j] == before[j + 1]);
        }
        lemma_first_elsewhere(b, a, i - 1, n);
    } else {
        assert(after.skip(1) =~= before.skip(1));
    }
}

/// A text is cut at each mark: what stands before the first is the first part, and the parts of
/// the rest follow. A text without the mark is one part, itself.
pub proof fn law_a_text_is_cut_at_each_mark(a: Seq<char>, c: char, b: Seq<char>)
    requires
        !a.contains(c),
    ensures
        segments(a, c) == seq![a],
        segments(a + seq![c] + b, c) == seq![a] + segments(b, c),
{
    lemma_join_cuts(a, c, b);
}

/// Trimming takes white space from the two ends and nothing else: what is left neither starts nor
/// ends with any, and what was taken is nothing but white space.
pub proof fn law_trimming_takes_only_white_space(s: Seq<char>) -> (r: (int, int))
    ensures
        0 <= r.0 <= r.1 <= s.len(),
        trimmed(s) == s.subrange(r.0, r.1),
        forall|i: int| 0 <= i < r.0 || r.1 <= i < s.len() ==> outside::is_white_space(#[trigger] s[i]),
        trimmed(s).len() > 0 ==> !outside::is_white_space(trimmed(s)[0]) && !outside::is_white_space(
            trimmed(s).last(),
        ),
    decreases s.len(),
{
    if s.len() == 0 {
        assert(s.subrange(0, 0) =~= s);
        (0, 0)
    } else if outside::is_white_space(s[0]) {
        let rest = s.skip(1);
        let (a, b) = law_trimming_takes_only_white_space(rest);
        assert(rest.subrange(a, b) =~= s.subrange(a + 1, b + 1));
        assert forall|i: int| 0 <= i < a + 1 || b + 1 <= i < s.len() implies outside::is_white_space(#[trigger] s[i]) by {
            if i > 0 {
                assert(rest[i - 1] == s[i]);
            }
        }
        (a + 1, b + 1)
    } else if outside::is_white_space(s.last()) {
        let rest = s.drop_last();
        let (a, b) = law_trimming_takes_only_white_space(rest);
        assert(rest.subrange(a, b) =~= s.subrange(a, b));
        assert forall|i: int| 0 <= i < a || b <= i < s.len() implies outside::is_white_space(#[trigger] s[i]) by {
            if i < rest.len() {
                assert(rest[i] == s[i]);
            }
        }
        (a, b)
    } else {
        assert(s.subrange(0, s.len() as int) =~= s);
        (0, s.len() as int)
    }
}

/// The value of a digit, decimal or hexadecimal.
pub open spec fn digit_value(c: char) -> int {
    if '0' <= c <= '9' {
        c as int - '0' as int
    } else {
        c as int - 'a' as int + 10
    }
}

/// The number that digits write in a base, the highest first.
pub open spec fn number_of(s: Seq<char>, base: int) -> int
    decreases s.len(),
{
    if s.len() == 0 {
        0
    } else {
        base * number_of(s.drop_last(), base) + digit_value(s.last())
    }
}

/// A number in decimal is the one that its digits write, and has no leading zero.
pub proof fn law_a_decimal_writes_its_number(n: nat)
    ensures
        number_of(decimal(n), 10) == n,
        forall|i: int| 0 <= i < decimal(n).len() ==> '0' <= #[trigger] decimal(n)[i] <= '9',
        decimal(n).len() > 0,
        n > 0 ==> decimal(n)[0] != '0',
    decreases n,
{
    if n >= 10 {
        let fewer = decimal(n / 10);
        law_a_decimal_writes_its_number(n / 10);
        assert(decimal(n).drop_last() =~= fewer);
        assert(decimal(n)[0] == fewer[0]);
        assert forall|i: int| 0 <= i < decimal(n).len() implies '0' <= #[trigger] decimal(n)[i] <= '9' by {
            if i < fewer.len() {
                assert(decimal(n)[i] == fewer[i]);
            }
        }
    } else {
        assert(decimal(n).drop_last() =~= Seq::empty());
        assert(number_of(decimal(n).drop_last(), 10) == 0);
    }
}

/// So many hexadecimal digits of a number write what is left of it when those are all there are.
pub proof fn law_hexadecimal_digits_write_their_number(n: nat, width: nat)
    ensures
        hex(n, width).len() == width,
        n < vstd::arithmetic::power::pow(16, width) ==> number_of(hex(n, width), 16) == n,
    decreases width,
{
    vstd::arithmetic::power::lemma_pow0(16);
    if width > 0 {
        law_hexadecimal_digits_write_their_number(n / 16, (width - 1) as nat);
        assert(hex(n, width).drop_last() =~= hex(n / 16, (width - 1) as nat));
        reveal(vstd::arithmetic::power::pow);
        assert(vstd::arithmetic::power::pow(16, width) == 16 * vstd::arithmetic::power::pow(16, (width - 1) as nat));
    }
}

/// Texts say what their strings hold, in order, each once.
pub proof fn law_texts_say_what_they_hold(v: Seq<String>, s: String)
    ensures
        texts(v).len() == v.len(),
        forall|i: int| 0 <= i < v.len() ==> #[trigger] texts(v)[i] == v[i]@,
        opt_text(Some(s)) is Some,
        opt_text(Some(s))->0 == s@,
        opt_text(None) is None,
{
}

/// Texts are ordered by the first character in which they differ, and a text stands before any
/// that it begins; texts stand in order where none stands behind one that comes later.
pub proof fn law_texts_are_ordered_by_their_first_difference(
    common: Seq<char>,
    x: char,
    a: Seq<char>,
    y: char,
    b: Seq<char>,
)
    ensures
        text_le(common, common + b),
        b.len() > 0 ==> !text_le(common + b, common),
        x != y ==> (text_le(common + seq![x] + a, common + seq![y] + b) <==> (x as int) < (y as int)),
    decreases common.len(),
{
    if common.len() > 0 {
        let rest = common.skip(1);
        law_texts_are_ordered_by_their_first_difference(rest, x, a, y, b);
        assert((common + b).skip(1) =~= rest + b);
        assert((common + seq![x] + a).skip(1) =~= rest + seq![x] + a);
        assert((common + seq![y] + b).skip(1) =~= rest + seq![y] + b);
    } else {
        assert((common + seq![x] + a)[0] == x);
        assert((common + seq![y] + b)[0] == y);
    }
}

/// Texts that stand in order do so one by one, and texts that are put in order are the same
/// texts, each as often.
pub proof fn law_sorting_keeps_the_texts(s: Seq<Seq<char>>)
    ensures
        in_order(s).len() == s.len(),
        forall|t: Seq<char>| #[trigger] in_order(s).contains(t) <==> s.contains(t),
        forall|i: int, j: int|
            0 <= i < j < in_order(s).len() ==> text_le(#[trigger] in_order(s)[i], #[trigger] in_order(s)[j]),
{
    broadcast use vstd::seq_lib::group_to_multiset_ensures;

    lemma_in_order_exists(s);
    let t = in_order(s);
    assert(t.to_multiset().len() == t.len() && s.to_multiset().len() == s.len());
    assert forall|x: Seq<char>| #[trigger] t.contains(x) <==> s.contains(x) by {
        assert(t.contains(x) <==> t.to_multiset().count(x) > 0);
        assert(s.contains(x) <==> s.to_multiset().count(x) > 0);
    }
}

/// A text is cut at the first mark: what stands before it has none, and the two parts and the
/// mark are the text. Where there is no mark, all of it stands before.
pub proof fn law_a_text_is_cut_at_its_first_mark(s: Seq<char>, c: char)
    ensures
        !before_first(s, c).contains(c),
        s.contains(c) ==> s == before_first(s, c) + seq![c] + after_first(s, c),
        !s.contains(c) ==> before_first(s, c) == s && after_first(s, c).len() == 0,
{
    lemma_position(s, c);
    if s.contains(c) {
        lemma_cut_rejoins(s, c);
    } else {
        assert(before_first(s, c) =~= s);
    }
}

/// A text starts with exactly those texts that it is the continuation of, and ends with exactly
/// those that it continues to.
pub proof fn law_a_text_starts_and_ends_as_it_is_joined(s: Seq<char>, p: Seq<char>, rest: Seq<char>)
    ensures
        starts_with(p + rest, p),
        ends_with(rest + p, p),
        starts_with(s, p) ==> s == p + s.skip(p.len() as int),
        ends_with(s, p) ==> s == s.take(s.len() - p.len()) + p,
{
    assert((p + rest).take(p.len() as int) =~= p);
    assert((rest + p).skip(rest.len() as int) =~= p);
    if starts_with(s, p) {
        assert(s =~= s.take(p.len() as int) + s.skip(p.len() as int));
    }
    if ends_with(s, p) {
        assert(s =~= s.take(s.len() - p.len()) + s.skip(s.len() - p.len()));
    }
}

} // verus!
