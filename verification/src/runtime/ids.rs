//! Turn and callback identifiers.

use crate::outside;
use crate::outside::{uuid_text, uuid_v4};
use crate::text;
use crate::text::{decimal_text, join3};
use vstd::prelude::*;

verus! {

/// Identity of one turn.
#[derive(Debug, Clone, Copy, PartialEq, Eq, PartialOrd, Ord, Hash, Structural)]
pub struct TurnId(pub u128);

/// Identity of one callback: the turn that issued it and its number within the turn.
#[derive(Debug, Clone, Copy, PartialEq, Eq, PartialOrd, Ord, Hash, Structural)]
pub struct CallbackId {
    pub turn: TurnId,
    /// Counts the turn's callbacks from 0.
    pub seq: u64,
}

/// The wire form of a turn identifier.
pub open spec fn turn_form(t: TurnId) -> Seq<char> {
    outside::uuid_form(t.0)
}

/// The wire form of a callback identifier: the turn, a colon, the number.
pub open spec fn callback_form(id: CallbackId) -> Seq<char> {
    turn_form(id.turn) + ":"@ + text::decimal(id.seq as nat)
}

impl TurnId {
    /// A fresh identifier, drawn at random. That two of them differ is left to chance.
    pub fn new() -> (r: Self)
        ensures
            (r.0 >> 76) & 0xf == 4,
            (r.0 >> 62) & 0x3 == 2,
    {
        TurnId(uuid_v4())
    }

    /// The underlying number.
    pub fn as_uuid(&self) -> (r: u128)
        ensures
            r == self.0,
    {
        self.0
    }

    /// The wire form.
    pub fn to_text(&self) -> (r: String)
        ensures
            r@ == turn_form(*self),
    {
        uuid_text(self.0)
    }
}

impl CallbackId {
    /// The callback with a number within a turn.
    pub fn new(turn: TurnId, seq: u64) -> (r: Self)
        ensures
            r == (CallbackId { turn, seq }),
    {
        CallbackId { turn, seq }
    }

    /// The wire form.
    pub fn to_text(&self) -> (r: String)
        ensures
            r@ == callback_form(*self),
    {
        join3(self.turn.to_text().as_str(), ":", decimal_text(self.seq).as_str())
    }
}

proof fn lemma_ranges()
    ensures
        text::hex_range(4) == 0x1_0000,
        text::hex_range(8) == 0x1_0000_0000,
        text::hex_range(12) == 0x1_0000_0000_0000,
{
    reveal_with_fuel(text::hex_range, 13);
}

proof fn lemma_groups(n: nat)
    requires
        n < 0x1_0000_0000_0000_0000_0000_0000_0000_0000,
    ensures
        n == (n / 0x1_0000_0000_0000_0000_0000_0000 % 0x1_0000_0000) * 0x1_0000_0000_0000_0000_0000_0000 + (n
            / 0x1_0000_0000_0000_0000_0000 % 0x1_0000) * 0x1_0000_0000_0000_0000_0000 + (n / 0x1_0000_0000_0000_0000
            % 0x1_0000) * 0x1_0000_0000_0000_0000 + (n / 0x1_0000_0000_0000 % 0x1_0000) * 0x1_0000_0000_0000 + n
            % 0x1_0000_0000_0000,
{
    let w48 = 0x1_0000_0000_0000int;
    let w64 = 0x1_0000_0000_0000_0000int;
    let w80 = 0x1_0000_0000_0000_0000_0000int;
    let w96 = 0x1_0000_0000_0000_0000_0000_0000int;
    let a = n as int / w48;
    let b = n as int / w64;
    let c = n as int / w80;
    let d = n as int / w96;
    vstd::arithmetic::div_mod::lemma_div_denominator(n as int, w48, 0x1_0000);
    vstd::arithmetic::div_mod::lemma_div_denominator(n as int, w64, 0x1_0000);
    vstd::arithmetic::div_mod::lemma_div_denominator(n as int, w80, 0x1_0000);
    assert(b == a / 0x1_0000 && c == b / 0x1_0000 && d == c / 0x1_0000);
    assert(n == a * w48 + n as int % w48);
    assert(a == b * 0x1_0000 + a % 0x1_0000);
    assert(b == c * 0x1_0000 + b % 0x1_0000);
    assert(c == d * 0x1_0000 + c % 0x1_0000);
    assert(0 <= d < 0x1_0000_0000);
    assert(d % 0x1_0000_0000 == d);
}

/// Two turns with the same text are the same.
pub proof fn law_a_turn_is_told_by_its_text(a: TurnId, b: TurnId)
    requires
        turn_form(a) == turn_form(b),
    ensures
        a == b,
{
    let x = turn_form(a);
    let y = turn_form(b);
    let n = a.0 as nat;
    let m = b.0 as nat;
    let w96: nat = 0x1_0000_0000_0000_0000_0000_0000;
    let w80: nat = 0x1_0000_0000_0000_0000_0000;
    let w64: nat = 0x1_0000_0000_0000_0000;
    let w48: nat = 0x1_0000_0000_0000;
    lemma_turn_parts(a);
    lemma_turn_parts(b);
    assert(text::hex(n / w96, 8) == text::hex(m / w96, 8));
    assert(text::hex(n / w80, 4) == text::hex(m / w80, 4));
    assert(text::hex(n / w64, 4) == text::hex(m / w64, 4));
    assert(text::hex(n / w48, 4) == text::hex(m / w48, 4));
    assert(text::hex(n, 12) == text::hex(m, 12));
    text::lemma_hex_tells(n / w96, m / w96, 8);
    text::lemma_hex_tells(n / w80, m / w80, 4);
    text::lemma_hex_tells(n / w64, m / w64, 4);
    text::lemma_hex_tells(n / w48, m / w48, 4);
    text::lemma_hex_tells(n, m, 12);
    lemma_ranges();
    lemma_groups(n);
    lemma_groups(m);
}

proof fn lemma_turn_parts(t: TurnId)
    ensures
        turn_form(t).len() == 36,
        turn_form(t).subrange(0, 8) == text::hex(t.0 as nat / 0x1_0000_0000_0000_0000_0000_0000, 8),
        turn_form(t).subrange(9, 13) == text::hex(t.0 as nat / 0x1_0000_0000_0000_0000_0000, 4),
        turn_form(t).subrange(14, 18) == text::hex(t.0 as nat / 0x1_0000_0000_0000_0000, 4),
        turn_form(t).subrange(19, 23) == text::hex(t.0 as nat / 0x1_0000_0000_0000, 4),
        turn_form(t).subrange(24, 36) == text::hex(t.0 as nat, 12),
{
    let n = t.0 as nat;
    let x = turn_form(t);
    let p = text::hex(n / 0x1_0000_0000_0000_0000_0000_0000, 8);
    let q = text::hex(n / 0x1_0000_0000_0000_0000_0000, 4);
    let r = text::hex(n / 0x1_0000_0000_0000_0000, 4);
    let s = text::hex(n / 0x1_0000_0000_0000, 4);
    let u = text::hex(n, 12);
    text::lemma_hex_len(n / 0x1_0000_0000_0000_0000_0000_0000, 8);
    text::lemma_hex_len(n / 0x1_0000_0000_0000_0000_0000, 4);
    text::lemma_hex_len(n / 0x1_0000_0000_0000_0000, 4);
    text::lemma_hex_len(n / 0x1_0000_0000_0000, 4);
    text::lemma_hex_len(n, 12);
    assert(x.subrange(0, 8) =~= p);
    assert(x.subrange(9, 13) =~= q);
    assert(x.subrange(14, 18) =~= r);
    assert(x.subrange(19, 23) =~= s);
    assert(x.subrange(24, 36) =~= u);
}

/// Two callbacks with the same text are the same: a response that quotes the text of a
/// callback names that callback and no other.
pub proof fn law_a_callback_is_told_by_its_text(a: CallbackId, b: CallbackId)
    requires
        callback_form(a) == callback_form(b),
    ensures
        a == b,
{
    reveal_strlit(":");
    let x = callback_form(a);
    let y = callback_form(b);
    lemma_turn_parts(a.turn);
    lemma_turn_parts(b.turn);
    assert(x.subrange(0, 36) =~= turn_form(a.turn));
    assert(y.subrange(0, 36) =~= turn_form(b.turn));
    assert(x.skip(37) =~= text::decimal(a.seq as nat));
    assert(y.skip(37) =~= text::decimal(b.seq as nat));
    law_a_turn_is_told_by_its_text(a.turn, b.turn);
    text::lemma_decimal_tells(a.seq as nat, b.seq as nat);
}

/// The text of a turn has 36 characters.
pub proof fn lemma_turn_form_len(t: TurnId)
    ensures
        turn_form(t).len() == 36,
{
    lemma_turn_parts(t);
}

} // verus!
