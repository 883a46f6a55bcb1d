//! Laws of the compression function, each stated in terms of what one step or
//! one part of it does to its inputs.

use vstd::prelude::*;
use crate::compress::{
    compress, f, left_constant, left_line, left_rotation, left_word_index, mod_add, right_constant,
    right_line, right_rotation, right_word_index,
};
use crate::rotation::{bit, rotl};

verus! {

/// Adding three words modulo 2^32, two at a time, is adding them at once.
proof fn lemma_mod_add3(a: u32, b: u32, c: u32)
    ensures
        mod_add(mod_add(a, b), c) as int == (a + b + c) % 0x1_0000_0000,
        mod_add(a, b) as int == (a + b) % 0x1_0000_0000,
{
    vstd::arithmetic::div_mod::lemma_add_mod_noop((a + b) as int, c as int, 0x1_0000_0000);
    vstd::arithmetic::div_mod::lemma_small_mod(c as nat, 0x1_0000_0000);
    vstd::arithmetic::div_mod::lemma_mod_bound((a + b) as int, 0x1_0000_0000);
    vstd::arithmetic::div_mod::lemma_mod_bound((a + b + c) as int, 0x1_0000_0000);
}

/// The chaining value after a block, for every chaining value and every
/// block: each of the five output words is, modulo 2^32, the sum of one input
/// word, one register of the left line and one register of the right line,
/// both lines having run all eighty steps from the input words. No output word
/// is taken over unchanged, whatever the message words are.
pub proof fn law_compress_feed_forward(h: Seq<u32>, x: Seq<u32>)
    requires
        h.len() == 5,
        x.len() == 16,
    ensures
        ({
            let start = (h[0], h[1], h[2], h[3], h[4]);
            let l = left_line(x, start, 80);
            let r = right_line(x, start, 80);
            let out = compress(h, x);
            &&& out.len() == 5
            &&& out[0] as int == (h[1] + l.2 + r.3) % 0x1_0000_0000
            &&& out[1] as int == (h[2] + l.3 + r.4) % 0x1_0000_0000
            &&& out[2] as int == (h[3] + l.4 + r.0) % 0x1_0000_0000
            &&& out[3] as int == (h[4] + l.0 + r.1) % 0x1_0000_0000
            &&& out[4] as int == (h[0] + l.1 + r.2) % 0x1_0000_0000
        }),
{
    reveal(compress);
    let start = (h[0], h[1], h[2], h[3], h[4]);
    let l = left_line(x, start, 80);
    let r = right_line(x, start, 80);
    lemma_mod_add3(r.3, h[1], l.2);
    lemma_mod_add3(h[2], l.3, r.4);
    lemma_mod_add3(h[3], l.4, r.0);
    lemma_mod_add3(h[4], l.0, r.1);
    lemma_mod_add3(h[0], l.1, r.2);
}

/// Each line starts from the chaining value, and step `j` (0 <= j < 80) of
/// the left line takes registers `(A, B, C, D, E)` to
/// `(E, T, B, rol_10(C), D)`, where
/// `T = rol_s(A + f_j(B, C, D) + X[r(j)] + K(j)) + E` modulo 2^32, for every
/// message and every register value.
pub proof fn law_left_line_step(x: Seq<u32>, start: (u32, u32, u32, u32, u32), j: nat)
    requires
        j < 80,
    ensures
        left_line(x, start, 0) == start,
        ({
            let u = left_line(x, start, j);
            let w = left_line(x, start, j + 1);
            let sum = (u.0 + f(j as int, u.1, u.2, u.3) + x[left_word_index()[j as int] as int]
                + left_constant(j as int)) % 0x1_0000_0000;
            &&& w.0 == u.4
            &&& w.1 as int == (rotl(sum as u32, left_rotation()[j as int]) + u.4) % 0x1_0000_0000
            &&& w.2 == u.1
            &&& w.3 == rotl(u.2, 10)
            &&& w.4 == u.3
        }),
{
    let u = left_line(x, start, j);
    assert(left_line(x, start, j + 1) == crate::compress::left_step(x, u, j as int));
    let a1 = mod_add(u.0, f(j as int, u.1, u.2, u.3));
    let a2 = mod_add(a1, x[left_word_index()[j as int] as int]);
    lemma_mod_add3(u.0, f(j as int, u.1, u.2, u.3), x[left_word_index()[j as int] as int]);
    lemma_mod_add3(a1, x[left_word_index()[j as int] as int], left_constant(j as int));
    vstd::arithmetic::div_mod::lemma_add_mod_noop(
        (u.0 + f(j as int, u.1, u.2, u.3) + x[left_word_index()[j as int] as int]) as int,
        left_constant(j as int) as int,
        0x1_0000_0000,
    );
    vstd::arithmetic::div_mod::lemma_small_mod(left_constant(j as int) as nat, 0x1_0000_0000);
    let s = mod_add(a2, left_constant(j as int));
    lemma_mod_add3(rotl(s, left_rotation()[j as int]), u.4, 0);
}

/// The right line, step by step, as the left one: step `j` uses the boolean
/// function of step `79 - j` and the right line's word, rotation and constant.
pub proof fn law_right_line_step(x: Seq<u32>, start: (u32, u32, u32, u32, u32), j: nat)
    requires
        j < 80,
    ensures
        right_line(x, start, 0) == start,
        ({
            let u = right_line(x, start, j);
            let w = right_line(x, start, j + 1);
            let sum = (u.0 + f(79 - j, u.1, u.2, u.3) + x[right_word_index()[j as int] as int]
                + right_constant(j as int)) % 0x1_0000_0000;
            &&& w.0 == u.4
            &&& w.1 as int == (rotl(sum as u32, right_rotation()[j as int]) + u.4) % 0x1_0000_0000
            &&& w.2 == u.1
            &&& w.3 == rotl(u.2, 10)
            &&& w.4 == u.3
        }),
{
    let u = right_line(x, start, j);
    assert(right_line(x, start, j + 1) == crate::compress::right_step(x, u, j as int));
    let a1 = mod_add(u.0, f(79 - j, u.1, u.2, u.3));
    let a2 = mod_add(a1, x[right_word_index()[j as int] as int]);
    lemma_mod_add3(u.0, f(79 - j, u.1, u.2, u.3), x[right_word_index()[j as int] as int]);
    lemma_mod_add3(a1, x[right_word_index()[j as int] as int], right_constant(j as int));
    vstd::arithmetic::div_mod::lemma_add_mod_noop(
        (u.0 + f(79 - j, u.1, u.2, u.3) + x[right_word_index()[j as int] as int]) as int,
        right_constant(j as int) as int,
        0x1_0000_0000,
    );
    vstd::arithmetic::div_mod::lemma_small_mod(right_constant(j as int) as nat, 0x1_0000_0000);
    let s = mod_add(a2, right_constant(j as int));
    lemma_mod_add3(rotl(s, right_rotation()[j as int]), u.4, 0);
}

/// The boolean functions act on each bit position separately: in steps 0..16
/// a bit of the result is the parity of the three input bits; in 16..32 it is
/// the `y` bit where the `x` bit is set and the `z` bit elsewhere; in 32..48 it
/// is `(x or not y) xor z`; in 48..64 it is the `x` bit where the `z` bit is
/// set and the `y` bit elsewhere; in 64..80 it is `x xor (y or not z)`.
pub proof fn law_boolean_functions(j: int, x: u32, y: u32, z: u32, i: u32)
    requires
        0 <= j < 80,
        i < 32,
    ensures
        ({
            let (bx, by, bz, b) = (bit(x, i), bit(y, i), bit(z, i), bit(f(j, x, y, z), i));
            &&& j < 16 ==> b == (bx != (by != bz))
            &&& 16 <= j < 32 ==> b == if bx { by } else { bz }
            &&& 32 <= j < 48 ==> b == ((bx || !by) != bz)
            &&& 48 <= j < 64 ==> b == if bz { bx } else { by }
            &&& 64 <= j ==> b == (bx != (by || !bz))
        }),
{
    if j < 16 {
        assert((((x ^ y ^ z) >> i) & 1u32 == 1u32) == (((x >> i) & 1u32 == 1u32) != (((y >> i)
            & 1u32 == 1u32) != ((z >> i) & 1u32 == 1u32)))) by (bit_vector)
            requires
                i < 32,
        ;
    } else if j < 32 {
        assert((((x & y) | (!x & z)) >> i) & 1u32 == 1u32 <==> (if (x >> i) & 1u32 == 1u32 {
            (y >> i) & 1u32 == 1u32
        } else {
            (z >> i) & 1u32 == 1u32
        })) by (bit_vector)
            requires
                i < 32,
        ;
    } else if j < 48 {
        assert((((x | !y) ^ z) >> i) & 1u32 == 1u32 <==> ((((x >> i) & 1u32 == 1u32) || !((y
            >> i) & 1u32 == 1u32)) != ((z >> i) & 1u32 == 1u32))) by (bit_vector)
            requires
                i < 32,
        ;
    } else if j < 64 {
        assert((((x & z) | (y & !z)) >> i) & 1u32 == 1u32 <==> (if (z >> i) & 1u32 == 1u32 {
            (x >> i) & 1u32 == 1u32
        } else {
            (y >> i) & 1u32 == 1u32
        })) by (bit_vector)
            requires
                i < 32,
        ;
    } else {
        assert(((x ^ (y | !z)) >> i) & 1u32 == 1u32 <==> (((x >> i) & 1u32 == 1u32) != (((y
            >> i) & 1u32 == 1u32) || !((z >> i) & 1u32 == 1u32)))) by (bit_vector)
            requires
                i < 32,
        ;
    }
}

/// `a` is the integer part of the `e`-th root (square or cube) of `n`.
pub open spec fn is_root_part(a: int, e: int, n: int) -> bool {
    if e == 2 {
        a * a <= n < (a + 1) * (a + 1)
    } else {
        a * a * a <= n < (a + 1) * (a + 1) * (a + 1)
    }
}

/// The additive constants are the same through each group of sixteen steps.
/// The left line's are 0 and then the integer parts of 2^30 times the square
/// roots of 2, 3, 5 and 7; the right line's are the integer parts of 2^30
/// times the cube roots of 2, 3, 5 and 7, and then 0.
pub proof fn law_constants(j: int)
    requires
        0 <= j < 80,
    ensures
        left_constant(j) == left_constant(16 * (j / 16)),
        right_constant(j) == right_constant(16 * (j / 16)),
        left_constant(0) == 0,
        right_constant(64) == 0,
        is_root_part(left_constant(16) as int, 2, 2 * 0x1000_0000_0000_0000int),
        is_root_part(left_constant(32) as int, 2, 3 * 0x1000_0000_0000_0000int),
        is_root_part(left_constant(48) as int, 2, 5 * 0x1000_0000_0000_0000int),
        is_root_part(left_constant(64) as int, 2, 7 * 0x1000_0000_0000_0000int),
        is_root_part(right_constant(0) as int, 3, 2 * 0x400_0000_0000_0000_0000_0000int),
        is_root_part(right_constant(16) as int, 3, 3 * 0x400_0000_0000_0000_0000_0000int),
        is_root_part(right_constant(32) as int, 3, 5 * 0x400_0000_0000_0000_0000_0000int),
        is_root_part(right_constant(48) as int, 3, 7 * 0x400_0000_0000_0000_0000_0000int),
{
    assert(0x50a28be6int * 0x50a28be6int * 0x50a28be6int == 2475880077417129248490834776int);
    assert(0x50a28be7int * 0x50a28be7int * 0x50a28be7int == 2475880082907575678592820983int);
    assert(0x5c4dd124int * 0x5c4dd124int * 0x5c4dd124int == 3713820115805034098603517504int);
    assert(0x5c4dd125int * 0x5c4dd125int * 0x5c4dd125int == 3713820122999554213544444125int);
    assert(0x6d703ef3int * 0x6d703ef3int * 0x6d703ef3int == 6189700186507962095245835371int);
    assert(0x6d703ef4int * 0x6d703ef4int * 0x6d703ef4int == 6189700196621450880661997888int);
    assert(0x7a6d76e9int * 0x7a6d76e9int * 0x7a6d76e9int == 8665580270232392121016616313int);
    assert(0x7a6d76eaint * 0x7a6d76eaint * 0x7a6d76eaint == 8665580282889068857586928232int);
}

/// The permutation rho of the sixteen message-word positions.
pub open spec fn rho(i: int) -> int {
    seq![7int, 4, 13, 1, 10, 6, 15, 3, 12, 0, 9, 5, 2, 14, 11, 8][i]
}

/// `rho` and `pi` rearrange the sixteen positions: each takes them to
/// positions below 16, no two to the same.
pub proof fn law_rho_pi_permute(i: int, i2: int)
    requires
        0 <= i < 16,
        0 <= i2 < 16,
    ensures
        0 <= rho(i) < 16,
        0 <= pi(i) < 16,
        rho(i) == rho(i2) ==> i == i2,
        pi(i) == pi(i2) ==> i == i2,
{
}

/// `rho` applied `k` times to `i`.
pub open spec fn rho_pow(k: nat, i: int) -> int
    decreases k,
{
    if k == 0 {
        i
    } else {
        rho(rho_pow((k - 1) as nat, i))
    }
}

/// The permutation pi of the message-word positions: `i` goes to `9 i + 5`
/// modulo 16.
pub open spec fn pi(i: int) -> int {
    (9 * i + 5) % 16
}

/// Step `i` of group `k` (0 <= k < 5) of the left line reads word
/// `rho^k(i)`, and the same step of the right line reads word `rho^k(pi(i))`;
/// as `rho` and `pi` rearrange the positions (`law_rho_pi_permute`), each
/// group of each line reads every one of the sixteen words once.
pub proof fn law_word_order(k: nat, i: int)
    requires
        k < 5,
        0 <= i < 16,
    ensures
        left_word_index()[16 * k + i] as int == rho_pow(k, i),
        right_word_index()[16 * k + i] as int == rho_pow(k, pi(i)),
{
    reveal(left_word_index);
    reveal(right_word_index);
    reveal_with_fuel(rho_pow, 5);
}

/// How far a step in group `k` rotates when it reads word `w`; both lines
/// share this table.
pub open spec fn rotation_for_word(k: int, w: int) -> u32 {
    seq![
        11, 14, 15, 12, 5, 8, 7, 9, 11, 13, 14, 15, 6, 7, 9, 8,
        12, 13, 11, 15, 6, 9, 9, 7, 12, 15, 11, 13, 7, 8, 7, 7,
        13, 15, 14, 11, 7, 7, 6, 8, 13, 14, 13, 12, 5, 5, 6, 9,
        14, 11, 12, 14, 8, 6, 5, 5, 15, 12, 15, 14, 9, 9, 8, 6,
        15, 12, 13, 13, 9, 5, 8, 6, 14, 11, 12, 11, 8, 6, 5, 5,
    ][16 * k + w]
}

/// In each group of sixteen steps, the rotation depends only on the word that
/// the step reads, and is the same for the left and the right line.
pub proof fn law_rotation_by_word(k: nat, i: int)
    requires
        k < 5,
        0 <= i < 16,
    ensures
        left_rotation()[16 * k + i] == rotation_for_word(k as int, left_word_index()[16 * k + i] as int),
        right_rotation()[16 * k + i] == rotation_for_word(k as int, right_word_index()[16 * k + i] as int),
{
    reveal(left_word_index);
    reveal(right_word_index);
    reveal(left_rotation);
    reveal(right_rotation);
}

} // verus!
