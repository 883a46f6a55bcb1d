//! The RIPEMD-160 compression function on one 64-byte block.

use vstd::prelude::*;
use crate::words::le_words;
use crate::rotation::{circular_shift, rotl};

verus! {

/// Number of 32-bit words in a message block.
const WORK_BUF_LEN: usize = 16;

/// Which message word step `j` of the left line reads.
#[verifier::opaque]
pub open spec fn left_word_index() -> Seq<usize> {
    seq![
        0, 1, 2, 3, 4, 5, 6, 7, 8, 9, 10, 11, 12, 13, 14, 15,
        7, 4, 13, 1, 10, 6, 15, 3, 12, 0, 9, 5, 2, 14, 11, 8,
        3, 10, 14, 4, 9, 15, 8, 1, 2, 7, 0, 6, 13, 11, 5, 12,
        1, 9, 11, 10, 0, 8, 12, 4, 13, 3, 7, 15, 14, 5, 6, 2,
        4, 0, 5, 9, 7, 12, 2, 10, 14, 1, 3, 8, 11, 6, 15, 13,
    ]
}

/// Which message word step `j` of the right line reads.
#[verifier::opaque]
pub open spec fn right_word_index() -> Seq<usize> {
    seq![
        5, 14, 7, 0, 9, 2, 11, 4, 13, 6, 15, 8, 1, 10, 3, 12,
        6, 11, 3, 7, 0, 13, 5, 10, 14, 15, 8, 12, 4, 9, 1, 2,
        15, 5, 1, 3, 7, 14, 6, 9, 11, 8, 12, 2, 10, 0, 4, 13,
        8, 6, 4, 1, 3, 11, 15, 0, 5, 12, 2, 13, 9, 7, 10, 14,
        12, 15, 10, 4, 1, 5, 8, 7, 6, 2, 13, 14, 0, 3, 9, 11,
    ]
}

/// How far step `j` of the left line rotates.
#[verifier::opaque]
pub open spec fn left_rotation() -> Seq<u32> {
    seq![
        11, 14, 15, 12, 5, 8, 7, 9, 11, 13, 14, 15, 6, 7, 9, 8,
        7, 6, 8, 13, 11, 9, 7, 15, 7, 12, 15, 9, 11, 7, 13, 12,
        11, 13, 6, 7, 14, 9, 13, 15, 14, 8, 13, 6, 5, 12, 7, 5,
        11, 12, 14, 15, 14, 15, 9, 8, 9, 14, 5, 6, 8, 6, 5, 12,
        9, 15, 5, 11, 6, 8, 13, 12, 5, 12, 13, 14, 11, 8, 5, 6,
    ]
}

/// How far step `j` of the right line rotates.
#[verifier::opaque]
pub open spec fn right_rotation() -> Seq<u32> {
    seq![
        8, 9, 9, 11, 13, 15, 15, 5, 7, 7, 8, 11, 14, 14, 12, 6,
        9, 13, 15, 7, 12, 8, 9, 11, 7, 7, 12, 7, 6, 15, 13, 11,
        9, 7, 15, 11, 8, 6, 6, 14, 12, 13, 5, 14, 13, 13, 7, 5,
        15, 5, 8, 11, 14, 14, 6, 14, 6, 9, 12, 9, 12, 5, 15, 8,
        8, 5, 12, 9, 12, 5, 14, 6, 8, 13, 6, 5, 15, 13, 11, 11,
    ]
}

/// The left line's word selection, as an array.
fn left_word_index_table() -> (t: [usize; 80])
    ensures
        t@ == left_word_index(),
        forall|j: int| 0 <= j < 80 ==> #[trigger] t@[j] < 16,
{
    reveal(left_word_index);
    [
        0, 1, 2, 3, 4, 5, 6, 7, 8, 9, 10, 11, 12, 13, 14, 15,
        7, 4, 13, 1, 10, 6, 15, 3, 12, 0, 9, 5, 2, 14, 11, 8,
        3, 10, 14, 4, 9, 15, 8, 1, 2, 7, 0, 6, 13, 11, 5, 12,
        1, 9, 11, 10, 0, 8, 12, 4, 13, 3, 7, 15, 14, 5, 6, 2,
        4, 0, 5, 9, 7, 12, 2, 10, 14, 1, 3, 8, 11, 6, 15, 13,
    ]
}

/// The right line's word selection, as an array.
fn right_word_index_table() -> (t: [usize; 80])
    ensures
        t@ == right_word_index(),
        forall|j: int| 0 <= j < 80 ==> #[trigger] t@[j] < 16,
{
    reveal(right_word_index);
    [
        5, 14, 7, 0, 9, 2, 11, 4, 13, 6, 15, 8, 1, 10, 3, 12,
        6, 11, 3, 7, 0, 13, 5, 10, 14, 15, 8, 12, 4, 9, 1, 2,
        15, 5, 1, 3, 7, 14, 6, 9, 11, 8, 12, 2, 10, 0, 4, 13,
        8, 6, 4, 1, 3, 11, 15, 0, 5, 12, 2, 13, 9, 7, 10, 14,
        12, 15, 10, 4, 1, 5, 8, 7, 6, 2, 13, 14, 0, 3, 9, 11,
    ]
}

/// The left line's rotation amounts, as an array.
fn left_rotation_table() -> (t: [u32; 80])
    ensures
        t@ == left_rotation(),
        forall|j: int| 0 <= j < 80 ==> 5 <= #[trigger] t@[j] <= 15,
{
    reveal(left_rotation);
    [
        11, 14, 15, 12, 5, 8, 7, 9, 11, 13, 14, 15, 6, 7, 9, 8,
        7, 6, 8, 13, 11, 9, 7, 15, 7, 12, 15, 9, 11, 7, 13, 12,
        11, 13, 6, 7, 14, 9, 13, 15, 14, 8, 13, 6, 5, 12, 7, 5,
        11, 12, 14, 15, 14, 15, 9, 8, 9, 14, 5, 6, 8, 6, 5, 12,
        9, 15, 5, 11, 6, 8, 13, 12, 5, 12, 13, 14, 11, 8, 5, 6,
    ]
}

/// The right line's rotation amounts, as an array.
fn right_rotation_table() -> (t: [u32; 80])
    ensures
        t@ == right_rotation(),
        forall|j: int| 0 <= j < 80 ==> 5 <= #[trigger] t@[j] <= 15,
{
    reveal(right_rotation);
    [
        8, 9, 9, 11, 13, 15, 15, 5, 7, 7, 8, 11, 14, 14, 12, 6,
        9, 13, 15, 7, 12, 8, 9, 11, 7, 7, 12, 7, 6, 15, 13, 11,
        9, 7, 15, 11, 8, 6, 6, 14, 12, 13, 5, 14, 13, 13, 7, 5,
        15, 5, 8, 11, 14, 14, 6, 14, 6, 9, 12, 9, 12, 5, 15, 8,
        8, 5, 12, 9, 12, 5, 14, 6, 8, 13, 6, 5, 15, 13, 11, 11,
    ]
}

/// Addition modulo 2^32.
pub open spec fn mod_add(x: u32, y: u32) -> u32 {
    ((x + y) % 0x1_0000_0000) as u32
}

/// The boolean function of step `j` (0 <= j < 80), one per group of sixteen.
pub open spec fn f(j: int, x: u32, y: u32, z: u32) -> u32 {
    if j < 16 {
        x ^ y ^ z
    } else if j < 32 {
        (x & y) | (!x & z)
    } else if j < 48 {
        (x | !y) ^ z
    } else if j < 64 {
        (x & z) | (y & !z)
    } else {
        x ^ (y | !z)
    }
}

/// The additive constant of step `j` of the left line.
pub open spec fn left_constant(j: int) -> u32 {
    if j < 16 {
        0x00000000
    } else if j < 32 {
        0x5a827999
    } else if j < 48 {
        0x6ed9eba1
    } else if j < 64 {
        0x8f1bbcdc
    } else {
        0xa953fd4e
    }
}

/// The additive constant of step `j` of the right line.
pub open spec fn right_constant(j: int) -> u32 {
    if j < 16 {
        0x50a28be6
    } else if j < 32 {
        0x5c4dd124
    } else if j < 48 {
        0x6d703ef3
    } else if j < 64 {
        0x7a6d76e9
    } else {
        0x00000000
    }
}

/// The five working registers `(A, B, C, D, E)` of one line.
pub type Lanes = (u32, u32, u32, u32, u32);

/// Step `j` of the left line on message words `x`:
/// `T = rol_s(A + f(j, B, C, D) + X[r(j)] + K(j)) + E`, then
/// `(A, B, C, D, E) := (E, T, B, rol_10(C), D)`.
pub open spec fn left_step(x: Seq<u32>, v: Lanes, j: int) -> Lanes {
    let sum = mod_add(
        mod_add(mod_add(v.0, f(j, v.1, v.2, v.3)), x[left_word_index()[j] as int]),
        left_constant(j),
    );
    let t = mod_add(rotl(sum, left_rotation()[j]), v.4);
    (v.4, t, v.1, rotl(v.2, 10), v.3)
}

/// Step `j` of the right line: as the left one, with the boolean functions
/// taken in reverse order and the right tables and constants.
pub open spec fn right_step(x: Seq<u32>, v: Lanes, j: int) -> Lanes {
    let sum = mod_add(
        mod_add(mod_add(v.0, f(79 - j, v.1, v.2, v.3)), x[right_word_index()[j] as int]),
        right_constant(j),
    );
    let t = mod_add(rotl(sum, right_rotation()[j]), v.4);
    (v.4, t, v.1, rotl(v.2, 10), v.3)
}

/// The registers of the left line after its first `n` steps.
pub open spec fn left_line(x: Seq<u32>, start: Lanes, n: nat) -> Lanes
    decreases n,
{
    if n == 0 {
        start
    } else {
        left_step(x, left_line(x, start, (n - 1) as nat), n - 1)
    }
}

/// The registers of the right line after its first `n` steps.
pub open spec fn right_line(x: Seq<u32>, start: Lanes, n: nat) -> Lanes
    decreases n,
{
    if n == 0 {
        start
    } else {
        right_step(x, right_line(x, start, (n - 1) as nat), n - 1)
    }
}

/// The RIPEMD-160 compression function: the chaining value `h` (five words)
/// updated with the sixteen message words `x`.
#[verifier::opaque]
pub open spec fn compress(h: Seq<u32>, x: Seq<u32>) -> Seq<u32> {
    let start = (h[0], h[1], h[2], h[3], h[4]);
    let l = left_line(x, start, 80);
    let r = right_line(x, start, 80);
    seq![
        mod_add(mod_add(r.3, h[1]), l.2),
        mod_add(mod_add(h[2], l.3), r.4),
        mod_add(mod_add(h[3], l.4), r.0),
        mod_add(mod_add(h[4], l.0), r.1),
        mod_add(mod_add(h[0], l.1), r.2),
    ]
}

/// `wrapping_add` on `u32` is addition modulo 2^32.
proof fn lemma_wrapping_add(x: u32, y: u32)
    ensures
        x.wrapping_add(y) == mod_add(x, y),
{
}

/// Addition modulo 2^32.
fn wadd(x: u32, y: u32) -> (r: u32)
    ensures
        r == mod_add(x, y),
{
    proof {
        lemma_wrapping_add(x, y);
    }
    x.wrapping_add(y)
}

/// The boolean function of step `j`.
fn boolean_function(j: usize, x: u32, y: u32, z: u32) -> (r: u32)
    requires
        j < 80,
    ensures
        r == f(j as int, x, y, z),
{
    if j < 16 {
        x ^ y ^ z
    } else if j < 32 {
        (x & y) | (!x & z)
    } else if j < 48 {
        (x | !y) ^ z
    } else if j < 64 {
        (x & z) | (y & !z)
    } else {
        x ^ (y | !z)
    }
}

/// The left line's additive constant of step `j`.
fn left_constant_of(j: usize) -> (k: u32)
    ensures
        k == left_constant(j as int),
{
    if j < 16 {
        0x00000000
    } else if j < 32 {
        0x5a827999
    } else if j < 48 {
        0x6ed9eba1
    } else if j < 64 {
        0x8f1bbcdc
    } else {
        0xa953fd4e
    }
}

/// The right line's additive constant of step `j`.
fn right_constant_of(j: usize) -> (k: u32)
    ensures
        k == right_constant(j as int),
{
    if j < 16 {
        0x50a28be6
    } else if j < 32 {
        0x5c4dd124
    } else if j < 48 {
        0x6d703ef3
    } else if j < 64 {
        0x7a6d76e9
    } else {
        0x00000000
    }
}

/// One step of the left line: `v` updated with step `j`, which reads
/// word `r` of `x` and rotates by `s`.
fn left_round(x: &[u32; 16], v: Lanes, j: usize, r: usize, s: u32) -> (out: Lanes)
    requires
        j < 80,
        r == left_word_index()[j as int],
        r < 16,
        s == left_rotation()[j as int],
        5 <= s <= 15,
    ensures
        out == left_step(x@, v, j as int),
{
    let (a, b, c, d, e) = v;
    let sum = wadd(wadd(wadd(a, boolean_function(j, b, c, d)), x[r]), left_constant_of(j));
    let t = wadd(circular_shift(s, sum), e);
    (e, t, b, circular_shift(10, c), d)
}

/// One step of the right line, as `left_round`.
fn right_round(x: &[u32; 16], v: Lanes, j: usize, r: usize, s: u32) -> (out: Lanes)
    requires
        j < 80,
        r == right_word_index()[j as int],
        r < 16,
        s == right_rotation()[j as int],
        5 <= s <= 15,
    ensures
        out == right_step(x@, v, j as int),
{
    let (a, b, c, d, e) = v;
    let sum = wadd(wadd(wadd(a, boolean_function(79 - j, b, c, d)), x[r]), right_constant_of(j));
    let t = wadd(circular_shift(s, sum), e);
    (e, t, b, circular_shift(10, c), d)
}

/// Updates the chaining value `h` with one 64-byte message block.
pub fn process_msg_block(data: &[u8], h: &mut [u32; 5])
    requires
        data@.len() == 64,
    ensures
        final(h)@ == compress(old(h)@, le_words(data@)),
{
    let mut w = [0u32; WORK_BUF_LEN];
    byte_tools::read_u32v_le(&mut w, data);
    let ghost x = w@;
    let ghost start: Lanes = (h[0], h[1], h[2], h[3], h[4]);

    let r_left = left_word_index_table();
    let r_right = right_word_index_table();
    let s_left = left_rotation_table();
    let s_right = right_rotation_table();

    let mut left: Lanes = (h[0], h[1], h[2], h[3], h[4]);
    let mut right: Lanes = (h[0], h[1], h[2], h[3], h[4]);
    let mut j: usize = 0;
    while j < 80
        invariant
            j <= 80,
            x == w@,
            r_left@ == left_word_index(),
            r_right@ == right_word_index(),
            s_left@ == left_rotation(),
            s_right@ == right_rotation(),
            forall|i: int| 0 <= i < 80 ==> #[trigger] r_left@[i] < 16,
            forall|i: int| 0 <= i < 80 ==> #[trigger] r_right@[i] < 16,
            forall|i: int| 0 <= i < 80 ==> 5 <= #[trigger] s_left@[i] <= 15,
            forall|i: int| 0 <= i < 80 ==> 5 <= #[trigger] s_right@[i] <= 15,
            left == left_line(x, start, j as nat),
            right == right_line(x, start, j as nat),
        decreases 80 - j,
    {
        left = left_round(&w, left, j, r_left[j], s_left[j]);
        right = right_round(&w, right, j, r_right[j], s_right[j]);
        j = j + 1;
    }
    let (a, b, c, d, e) = left;
    let (aa, bb, cc, dd, ee) = right;

    let t = wadd(wadd(dd, h[1]), c);
    h[1] = wadd(wadd(h[2], d), ee);
    h[2] = wadd(wadd(h[3], e), aa);
    h[3] = wadd(wadd(h[4], a), bb);
    h[4] = wadd(wadd(h[0], b), cc);
    h[0] = t;
    reveal(compress);
    assert(h@ =~= compress(old(h)@, le_words(data@)));
}

} // verus!
