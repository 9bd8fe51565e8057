//! TCP sequence numbers: 32-bit counters compared and subtracted modulo
//! 2^32, so that ordering survives wraparound as long as every window stays
//! well under half the sequence space.

use vstd::prelude::*;

verus! {

/// `a + n` modulo 2^32.
pub open spec fn seq_add(a: u32, n: u32) -> u32 {
    if a + n < 0x1_0000_0000 {
        (a + n) as u32
    } else {
        (a + n - 0x1_0000_0000) as u32
    }
}

/// `a - b` modulo 2^32: the forward distance from `b` to `a`.
pub open spec fn seq_sub(a: u32, b: u32) -> u32 {
    if a >= b {
        (a - b) as u32
    } else {
        (a - b + 0x1_0000_0000) as u32
    }
}

/// `a < b` in modular order: the difference `a - b`, read as a signed 32-bit
/// quantity, is negative.
pub open spec fn seq_lt(a: u32, b: u32) -> bool {
    seq_sub(a, b) >= 0x8000_0000
}

/// Adds a byte count to a sequence number, wrapping silently on overflow.
pub fn wrapping_add(a: u32, n: u32) -> (r: u32)
    ensures
        r == seq_add(a, n),
{
    let s: u64 = a as u64 + n as u64;
    if s >= 0x1_0000_0000 {
        (s - 0x1_0000_0000) as u32
    } else {
        s as u32
    }
}

/// The forward distance from `b` to `a`, modulo 2^32.
pub fn wrapping_sub(a: u32, b: u32) -> (r: u32)
    ensures
        r == seq_sub(a, b),
{
    if a >= b {
        a - b
    } else {
        (a as u64 + 0x1_0000_0000 - b as u64) as u32
    }
}

/// Modular `<` on sequence numbers.
pub fn precedes(a: u32, b: u32) -> (r: bool)
    ensures
        r == seq_lt(a, b),
{
    wrapping_sub(a, b) >= 0x8000_0000
}

pub proof fn lemma_seq_sub_self(a: u32)
    ensures
        seq_sub(a, a) == 0,
{
}

/// Advancing `b` by `k` and measuring from `b` gives back `k`.
pub proof fn lemma_seq_add_sub(b: u32, k: u32)
    ensures
        seq_sub(seq_add(b, k), b) == k,
{
}

/// Consuming `k` of the distance from `b` to `a` leaves the rest.
pub proof fn lemma_seq_sub_split(a: u32, b: u32, k: u32)
    requires
        k <= seq_sub(a, b),
    ensures
        seq_sub(a, seq_add(b, k)) == seq_sub(a, b) - k,
{
}

/// Advancing `a` by `k` grows the distance from `b`, as long as the total
/// distance does not wrap.
pub proof fn lemma_seq_add_extend(a: u32, b: u32, k: u32)
    requires
        seq_sub(a, b) + k < 0x1_0000_0000,
    ensures
        seq_sub(seq_add(a, k), b) == seq_sub(a, b) + k,
{
}

/// Two additions whose sum stays below 2^32 collapse into one.
pub proof fn lemma_seq_add_assoc(a: u32, x: u32, y: u32)
    requires
        x + y < 0x1_0000_0000,
    ensures
        seq_add(seq_add(a, x), y) == seq_add(a, (x + y) as u32),
{
}

/// Adding the distance from `b` to `a` back onto `b` lands on `a`.
pub proof fn lemma_seq_sub_add_cancel(a: u32, b: u32)
    ensures
        seq_add(b, seq_sub(a, b)) == a,
{
}

/// Modular comparison never places a value before itself.
pub proof fn lemma_seq_lt_irreflexive(a: u32)
    ensures
        !seq_lt(a, a),
{
}

/// On any pair of distinct sequence numbers whose distance is within half
/// the modular range, exactly one of `a < b` and `b < a` holds, wraparound
/// included.
pub proof fn lemma_seq_lt_exclusive(a: u32, b: u32)
    requires
        a != b,
        seq_sub(a, b) != 0x8000_0000,
    ensures
        seq_lt(a, b) <==> !seq_lt(b, a),
{
    assert(seq_sub(a, b) + seq_sub(b, a) == 0x1_0000_0000);
}

/// A value a short, non-wrapping distance ahead of `a` is greater than `a`
/// in modular order.
pub proof fn lemma_seq_lt_ahead(a: u32, k: u32)
    requires
        0 < k < 0x8000_0000,
    ensures
        seq_lt(a, seq_add(a, k)),
{
    lemma_seq_add_sub(a, k);
    assert(seq_sub(a, seq_add(a, k)) + seq_sub(seq_add(a, k), a) == 0x1_0000_0000);
}

} // verus!
