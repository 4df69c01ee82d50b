//! Numeric primitives: 4-bit nibbles, 12-bit values, big-endian packing.

use vstd::prelude::*;

verus! {

/// An unchecked nibble: a byte that is expected to hold a value below 16.
pub type UNibble = u8;

/// A checked nibble: 0 <= value <= 15.
#[derive(PartialEq, Eq, Structural, Clone, Copy, Debug)]
pub struct Nibble(pub UNibble);

impl Nibble {
    /// True of a nibble whose byte fits in four bits.
    pub open spec fn wf(self) -> bool {
        self.0 <= 15
    }

    /// Guards the nibble range; callers must already know the bound holds.
    pub fn check(num: u8)
        requires
            num <= 15,
    {
    }

    pub fn new(nibble: u8) -> (r: Nibble)
        requires
            nibble <= 15,
        ensures
            r.0 == nibble,
            r.wf(),
    {
        Self::check(nibble);
        Nibble(nibble)
    }

    /// Splits a byte into its high and low nibbles.
    pub fn byte_to_nibbles(b: u8) -> (r: [Nibble; 2])
        ensures
            r[0].0 == b / 16,
            r[1].0 == b % 16,
            r[0].wf(),
            r[1].wf(),
    {
        [Nibble(b / 16), Nibble(b % 16)]
    }
}

/// A 12-bit value held in a `u16`.
#[derive(PartialEq, Eq, Structural, Clone, Copy, Debug)]
pub struct U12(pub u16);

impl U12 {
    pub open spec fn wf(self) -> bool {
        self.0 <= 0xFFF
    }

    /// Packs three nibbles, high first, into a 12-bit value.
    pub fn from_nibbles(h: UNibble, m: UNibble, l: UNibble) -> (r: U12)
        requires
            h <= 15,
            m <= 15,
            l <= 15,
        ensures
            r.0 == h * 256 + m * 16 + l,
            r.wf(),
    {
        U12((h as u16) * 256 + (m as u16) * 16 + (l as u16))
    }
}

/// The value of a big-endian sequence of base-16 digits.
pub open spec fn nibbles_value(s: Seq<u8>) -> nat
    decreases s.len(),
{
    if s.len() == 0 {
        0
    } else {
        nibbles_value(s.drop_last()) * 16 + s.last() as nat
    }
}

/// 16 raised to the power `n`; bounds the value of an `n`-digit pack.
pub open spec fn pow16(n: nat) -> nat
    decreases n,
{
    if n == 0 {
        1
    } else {
        16 * pow16((n - 1) as nat)
    }
}

pub proof fn lemma_pow16_monotonic(a: nat, b: nat)
    requires
        a <= b,
    ensures
        pow16(a) <= pow16(b),
    decreases b,
{
    if a < b {
        lemma_pow16_monotonic(a, (b - 1) as nat);
    }
}

pub proof fn lemma_nibbles_value_bound(s: Seq<u8>)
    requires
        forall|i: int| 0 <= i < s.len() ==> s[i] <= 15,
    ensures
        nibbles_value(s) < pow16(s.len()),
    decreases s.len(),
{
    if s.len() > 0 {
        lemma_nibbles_value_bound(s.drop_last());
    }
}

/// Packs big-endian base-16 digits into an unsigned integer.
pub fn mk_un(bs: &[UNibble]) -> (r: u32)
    requires
        bs@.len() <= 8,
        forall|i: int| 0 <= i < bs@.len() ==> bs@[i] <= 15,
    ensures
        r == nibbles_value(bs@),
{
    let mut ret: u32 = 0;
    let mut k: usize = 0;
    proof {
        assert(bs@.subrange(0, 0) =~= Seq::<u8>::empty());
    }
    while k < bs.len()
        invariant
            k <= bs@.len() <= 8,
            forall|i: int| 0 <= i < bs@.len() ==> bs@[i] <= 15,
            ret == nibbles_value(bs@.subrange(0, k as int)),
        decreases bs@.len() - k,
    {
        proof {
            let pre = bs@.subrange(0, k as int);
            lemma_nibbles_value_bound(pre);
            lemma_pow16_monotonic(pre.len(), 7);
            assert(pow16(7) == 0x1000_0000) by {
                reveal_with_fuel(pow16, 8);
            }
            assert(bs@.subrange(0, k + 1).drop_last() =~= pre);
        }
        ret = ret * 16 + (bs[k] as u32);
        k = k + 1;
    }
    proof {
        assert(bs@.subrange(0, bs@.len() as int) =~= bs@);
    }
    ret
}

/// Splits a 16-bit value into big-endian bytes.
pub fn u16_to_u8(n: u16) -> (r: [u8; 2])
    ensures
        r[0] == n / 256,
        r[1] == n % 256,
{
    [(n / 256) as u8, (n % 256) as u8]
}

/// Reads a 16-bit value from big-endian bytes.
pub fn u8_to_u16(n: [u8; 2]) -> (r: u16)
    ensures
        r == n[0] * 256 + n[1],
{
    (n[0] as u16) * 256 + (n[1] as u16)
}

} // verus!
