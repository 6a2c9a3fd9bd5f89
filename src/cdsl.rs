//! Arithmetic helpers of the type definitions: powers of two.
use vstd::prelude::*;

verus! {

pub open spec fn pow2(k: nat) -> nat
    decreases k,
{
    if k == 0 {
        1
    } else {
        2 * pow2((k - 1) as nat)
    }
}

/// `x` is a power of two.
pub open spec fn is_pow2(x: nat) -> bool {
    exists|k: nat| pow2(k) == x
}

/// The powers of two that fit in a byte, and that the others do not.
pub proof fn lemma_pow2_byte(k: nat)
    ensures
        k == 0 ==> pow2(k) == 1,
        k == 1 ==> pow2(k) == 2,
        k == 2 ==> pow2(k) == 4,
        k == 3 ==> pow2(k) == 8,
        k == 4 ==> pow2(k) == 16,
        k == 5 ==> pow2(k) == 32,
        k == 6 ==> pow2(k) == 64,
        k == 7 ==> pow2(k) == 128,
        k == 8 ==> pow2(k) == 256,
        k >= 8 ==> pow2(k) >= 256,
    decreases k,
{
    reveal_with_fuel(pow2, 9);
    if k > 8 {
        lemma_pow2_byte((k - 1) as nat);
    }
}

/// A byte is a power of two exactly when it is one of the eight single-bit
/// values.
proof fn lemma_is_pow2_byte(x: u8)
    ensures
        is_pow2(x as nat) <==> (x == 1 || x == 2 || x == 4 || x == 8 || x == 16 || x == 32
            || x == 64 || x == 128),
{
    if is_pow2(x as nat) {
        let k = choose|k: nat| pow2(k) == x as nat;
        lemma_pow2_byte(k);
    }
    if x == 1 || x == 2 || x == 4 || x == 8 || x == 16 || x == 32 || x == 64 || x == 128 {
        lemma_pow2_byte(0);
        lemma_pow2_byte(1);
        lemma_pow2_byte(2);
        lemma_pow2_byte(3);
        lemma_pow2_byte(4);
        lemma_pow2_byte(5);
        lemma_pow2_byte(6);
        lemma_pow2_byte(7);
    }
}

/// Check if `x` is a power of two.
pub fn is_power_of_two(x: u8) -> (r: bool)
    ensures
        r == is_pow2(x as nat),
{
    proof {
        lemma_is_pow2_byte(x);
        assert((x > 0 && x & ((x - 1) as u8) == 0) <==> (x == 1 || x == 2 || x == 4 || x == 8 || x
            == 16 || x == 32 || x == 64 || x == 128)) by (bit_vector);
    }
    x > 0 && x & (x - 1) == 0
}

/// `x` with every bit below its highest set bit set too, after `s` (1, 2, 4
/// or 8) rounds of the doubling shift-or.
spec fn smeared(x: u8, s: u8) -> u8 {
    if s == 1 {
        x
    } else if s == 2 {
        x | (x >> 1u8)
    } else if s == 4 {
        x | (x >> 1u8) | (x >> 2u8) | (x >> 3u8)
    } else {
        x | (x >> 1u8) | (x >> 2u8) | (x >> 3u8) | (x >> 4u8) | (x >> 5u8) | (x >> 6u8) | (x
            >> 7u8)
    }
}

/// Compute the next power of two that is greater than `x`.
pub fn next_power_of_two(x: u8) -> (r: u8)
    requires
        x < 128,
    ensures
        is_pow2(r as nat),
        x < r,
        r / 2 <= x,
{
    let mut s: u8 = 1;
    let mut res: u8 = x;
    proof {
        assert(x < 128 ==> smeared(x, 1) < 128) by (bit_vector);
    }
    while res & (res + 1) != 0
        invariant
            x < 128,
            s == 1 || s == 2 || s == 4 || s == 8,
            res == smeared(x, s),
            res < 128,
        decreases 16 - s,
    {
        proof {
            assert((x < 128 && (s == 1 || s == 2 || s == 4 || s == 8) && res == smeared(x, s)
                && res & ((res + 1) as u8) != 0) ==> (s != 8 && (res | (res >> s)) == smeared(
                x,
                ((s * 2) as u8),
            ) && smeared(x, ((s * 2) as u8)) < 128)) by (bit_vector);
        }
        res = res | (res >> s);
        s = s * 2;
    }
    proof {
        assert((x < 128 && (s == 1 || s == 2 || s == 4 || s == 8) && res == smeared(x, s) && res
            & ((res + 1) as u8) == 0) ==> ({
            let r = ((res + 1) as u8);
            &&& (r == 1 || r == 2 || r == 4 || r == 8 || r == 16 || r == 32 || r == 64 || r
                == 128)
            &&& x < r
            &&& r / 2 <= x
        })) by (bit_vector);
        lemma_is_pow2_byte((res + 1) as u8);
    }
    res + 1
}

} // verus!
