//! Cyclic rotation of 32-bit words.

use vstd::prelude::*;

verus! {

/// Bit `i` (counting from the least significant bit) of `x`.
pub open spec fn bit(x: u32, i: u32) -> bool {
    (x >> i) & 1u32 == 1u32
}

/// Cyclic left shift of a 32-bit word by `n` positions, `0 < n < 32`.
pub open spec fn rotl(x: u32, n: u32) -> u32 {
    (x << n) | (x >> ((32 - n) as u32))
}

/// The number of set bits of `x` at positions `lo <= i < hi`.
pub open spec fn ones_between(x: u32, lo: int, hi: int) -> nat
    decreases hi - lo,
{
    if hi <= lo {
        0
    } else {
        ones_between(x, lo, hi - 1) + if bit(x, (hi - 1) as u32) {
            1nat
        } else {
            0nat
        }
    }
}

/// The number of set bits of `x`.
pub open spec fn count_ones(x: u32) -> nat {
    ones_between(x, 0, 32)
}

/// Rotating left by `n` moves bit `i - n` (modulo 32) to position `i`.
pub proof fn lemma_rotl_bits(x: u32, n: u32)
    requires
        1 <= n <= 31,
    ensures
        forall|i: u32| i < 32 ==> bit(rotl(x, n), i) == bit(x, ((i + 32 - n) % 32) as u32),
{
    assert forall|i: u32| i < 32 implies bit(rotl(x, n), i) == bit(x, ((i + 32 - n) % 32) as u32) by {
        assert(((((x << n) | (x >> ((32 - n) as u32))) >> i) & 1u32 == 1u32) == (((x >> (((i
            + 32 - n) % 32) as u32)) & 1u32) == 1u32)) by (bit_vector)
            requires
                1 <= n <= 31,
                i < 32,
        ;
    }
}

/// Rotates `word` left by `bits` positions.
pub fn circular_shift(bits: u32, word: u32) -> (r: u32)
    requires
        1 <= bits <= 31,
    ensures
        r == rotl(word, bits),
        forall|i: u32| i < 32 ==> bit(r, i) == bit(word, ((i + 32 - bits) % 32) as u32),
{
    proof {
        lemma_rotl_bits(word, bits);
    }
    word << bits as usize | word >> (32u32 - bits) as usize
}

/// Counting set bits over `[lo, hi)` is counting over `[lo, mid)` and `[mid, hi)`.
proof fn lemma_ones_split(x: u32, lo: int, mid: int, hi: int)
    requires
        lo <= mid <= hi,
    ensures
        ones_between(x, lo, hi) == ones_between(x, lo, mid) + ones_between(x, mid, hi),
    decreases hi - mid,
{
    if hi > mid {
        lemma_ones_split(x, lo, mid, hi - 1);
    }
}

/// Where the bits of `r` on `[lo, hi)` are those of `x` on `[lo + d, hi + d)`,
/// both ranges hold as many set bits.
proof fn lemma_ones_shifted(r: u32, x: u32, lo: int, hi: int, d: int)
    requires
        lo <= hi,
        0 <= lo,
        0 <= lo + d,
        hi + d <= 32,
        hi <= 32,
        forall|i: int| lo <= i < hi ==> #[trigger] bit(r, i as u32) == bit(x, (i + d) as u32),
    ensures
        ones_between(r, lo, hi) == ones_between(x, lo + d, hi + d),
    decreases hi - lo,
{
    if hi > lo {
        lemma_ones_shifted(r, x, lo, hi - 1, d);
        assert(bit(r, (hi - 1) as u32) == bit(x, (hi - 1 + d) as u32));
    }
}

/// Rotation commutes with exclusive or and with complement, and keeps the
/// number of set bits.
pub proof fn law_rotation(x: u32, y: u32, n: u32)
    requires
        1 <= n <= 31,
    ensures
        rotl(x ^ y, n) == rotl(x, n) ^ rotl(y, n),
        rotl(!x, n) == !rotl(x, n),
        count_ones(rotl(x, n)) == count_ones(x),
{
    assert(rotl(x ^ y, n) == rotl(x, n) ^ rotl(y, n)) by (bit_vector)
        requires
            1 <= n <= 31,
    ;
    assert(rotl(!x, n) == !rotl(x, n)) by (bit_vector)
        requires
            1 <= n <= 31,
    ;
    let r = rotl(x, n);
    lemma_rotl_bits(x, n);
    assert forall|i: int| 0 <= i < n implies #[trigger] bit(r, i as u32) == bit(
        x,
        (i + (32 - n)) as u32,
    ) by {
        assert(((i as u32 + 32 - n) % 32) as u32 == (i + (32 - n)) as u32);
    }
    assert forall|i: int| n <= i < 32 implies #[trigger] bit(r, i as u32) == bit(
        x,
        (i + (0 - n)) as u32,
    ) by {
        assert(((i as u32 + 32 - n) % 32) as u32 == (i - n) as u32);
    }
    lemma_ones_shifted(r, x, 0, n as int, 32 - n);
    lemma_ones_shifted(r, x, n as int, 32, 0 - n);
    lemma_ones_split(r, 0, n as int, 32);
    lemma_ones_split(x, 0, 32 - n, 32);
}

} // verus!
