//! Short digests of lists of texts.

use crate::text;
use crate::text::hex_text;
use std::collections::hash_map::DefaultHasher;
use std::hash::Hasher;
use vstd::prelude::*;
use vstd::std_specs::hash::*;

verus! {

/// What is hashed of a list of texts: the bytes of each, and a byte behind each that occurs
/// in no text.
pub open spec fn hashed(parts: Seq<Seq<char>>) -> Seq<Seq<u8>>
    decreases parts.len(),
{
    if parts.len() == 0 {
        Seq::empty()
    } else {
        hashed(parts.drop_last()).push(vstd::utf8::encode_utf8(parts.last())).push(seq![0xffu8])
    }
}

/// The digest of a list of texts: the hash of what is hashed of it, in sixteen hexadecimal
/// digits.
pub open spec fn digest(parts: Seq<Seq<char>>) -> Seq<char> {
    text::hex(DefaultHasher::spec_finish(hashed(parts)) as nat, 16)
}

/// Whether a text is sixteen lowercase hexadecimal digits.
pub open spec fn is_digest(s: Seq<char>) -> bool {
    &&& s.len() == 16
    &&& forall|i: int| 0 <= i < s.len() ==> text::is_hex_digit(#[trigger] s[i])
}

/// A digest has sixteen lowercase hexadecimal digits.
pub proof fn law_a_digest_has_sixteen_digits(parts: Seq<Seq<char>>)
    ensures
        is_digest(digest(parts)),
{
    text::lemma_hex_len(DefaultHasher::spec_finish(hashed(parts)) as nat, 16);
    text::lemma_hex_digits(DefaultHasher::spec_finish(hashed(parts)) as nat, 16);
}

/// The digest of a list of texts.
pub fn digest_texts(parts: &Vec<String>) -> (r: String)
    ensures
        r@ == digest(text::texts(parts@)),
{
    let ghost all = text::texts(parts@);
    let mut hasher = DefaultHasher::new();
    let mut mark: Vec<u8> = Vec::new();
    mark.push(0xff);
    assert(mark@ =~= seq![0xffu8]);
    let mut i: usize = 0;
    assert(all.take(0) =~= Seq::empty());
    while i < parts.len()
        invariant
            all == text::texts(parts@),
            mark@ == seq![0xffu8],
            i <= parts.len(),
            hasher@ == hashed(all.take(i as int)),
        decreases parts.len() - i,
    {
        proof {
            assert(all.take(i + 1).drop_last() =~= all.take(i as int));
            assert(all.take(i + 1).last() == all[i as int]);
        }
        hasher.write(parts[i].as_str().as_bytes());
        hasher.write(mark.as_slice());
        i += 1;
    }
    assert(all.take(all.len() as int) =~= all);
    hex_text(hasher.finish(), 16)
}

/// What is hashed of a list of texts tells the list: two lists of which the same is hashed are the
/// same, text by text.
pub proof fn law_what_is_hashed_tells_the_texts(a: Seq<Seq<char>>, b: Seq<Seq<char>>)
    requires
        hashed(a) == hashed(b),
    ensures
        a == b,
    decreases a.len(),
{
    lemma_hashed_len(a);
    lemma_hashed_len(b);
    if a.len() > 0 {
        let n = hashed(a).len();
        let x = hashed(a.drop_last());
        let y = hashed(b.drop_last());
        assert(hashed(a)[n - 2] == vstd::utf8::encode_utf8(a.last()));
        assert(hashed(b)[n - 2] == vstd::utf8::encode_utf8(b.last()));
        vstd::utf8::encode_utf8_decode_utf8(a.last());
        vstd::utf8::encode_utf8_decode_utf8(b.last());
        assert(hashed(a).take(n - 2) =~= x);
        assert(hashed(b).take(n - 2) =~= y);
        law_what_is_hashed_tells_the_texts(a.drop_last(), b.drop_last());
        assert(a =~= a.drop_last().push(a.last()));
        assert(b =~= b.drop_last().push(b.last()));
    } else {
        assert(a =~= b);
    }
}

proof fn lemma_hashed_len(a: Seq<Seq<char>>)
    ensures
        hashed(a).len() == 2 * a.len(),
    decreases a.len(),
{
    if a.len() > 0 {
        lemma_hashed_len(a.drop_last());
    }
}

/// Two digests are the same exactly where the hasher ends with the same number on what is hashed
/// of the two lists: no digit of it is lost.
pub proof fn law_a_digest_is_told_by_the_hasher(a: Seq<Seq<char>>, b: Seq<Seq<char>>)
    ensures
        digest(a) == digest(b) <==> DefaultHasher::spec_finish(hashed(a)) == DefaultHasher::spec_finish(hashed(b)),
{
    let x = DefaultHasher::spec_finish(hashed(a)) as nat;
    let y = DefaultHasher::spec_finish(hashed(b)) as nat;
    if digest(a) == digest(b) {
        text::lemma_hex_tells(x, y, 16);
        assert(text::hex_range(16) == 0x1_0000_0000_0000_0000) by {
            reveal_with_fuel(text::hex_range, 17);
        }
    }
}

/// A digest is sixteen characters long, each a decimal digit or one of the letters from `a` to
/// `f`, and it writes the number that the hasher gave.
pub proof fn law_a_digest_writes_what_the_hasher_gave(parts: Seq<Seq<char>>)
    ensures
        digest(parts).len() == 16,
        forall|i: int|
            0 <= i < 16 ==> '0' <= #[trigger] digest(parts)[i] <= '9' || 'a' <= digest(parts)[i] <= 'f',
        text::number_of(digest(parts), 16) == DefaultHasher::spec_finish(hashed(parts)),
{
    law_a_digest_has_sixteen_digits(parts);
    let n = DefaultHasher::spec_finish(hashed(parts)) as nat;
    text::law_hexadecimal_digits_write_their_number(n, 16);
    assert(vstd::arithmetic::power::pow(16, 16) == 0x1_0000_0000_0000_0000) by {
        reveal_with_fuel(vstd::arithmetic::power::pow, 17);
    }
    text::lemma_hex_digits(n, 16);
}

} // verus!
