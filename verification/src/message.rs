//! RIPEMD-160 on whole messages: the block iteration, the padding and the
//! digest, as mathematical functions.

use vstd::prelude::*;
use crate::compress::compress;
use crate::words::{hex_digit, le_words, u64_le_bytes, words_le_bytes};

verus! {

/// The initial chaining value.
pub open spec fn initial_chaining() -> Seq<u32> {
    seq![0x67452301u32, 0xefcdab89u32, 0x98badcfeu32, 0x10325476u32, 0xc3d2e1f0u32]
}

/// The number of bytes of a message of `len` bytes that fill whole 64-byte blocks.
pub open spec fn whole_blocks_len(len: nat) -> nat {
    (64 * (len / 64)) as nat
}

/// The chaining value `h` updated with each whole 64-byte block of `m`, in
/// order; a final piece shorter than a block is left out.
pub open spec fn compress_blocks(h: Seq<u32>, m: Seq<u8>) -> Seq<u32>
    decreases m.len(),
{
    if m.len() < 64 {
        h
    } else {
        compress_blocks(compress(h, le_words(m.subrange(0, 64))), m.subrange(64, m.len() as int))
    }
}

/// The padding appended to a message of `len` bytes: the byte 0x80, then as
/// many zero bytes as bring the length to 56 modulo 64, then the length in
/// bits modulo 2^64 as eight little-endian bytes.
pub open spec fn padding(len: nat) -> Seq<u8> {
    seq![0x80u8] + Seq::new(((119 - len % 64) % 64) as nat, |i: int| 0u8) + u64_le_bytes(
        ((8 * len) % 0x1_0000_0000_0000_0000) as u64,
    )
}

/// The RIPEMD-160 digest of `m`: the twenty little-endian bytes of the
/// chaining value after every block of the padded message.
pub open spec fn ripemd160(m: Seq<u8>) -> Seq<u8> {
    words_le_bytes(compress_blocks(initial_chaining(), m + padding(m.len())))
}

/// The padded message is a whole number of blocks, and begins with the message.
pub proof fn lemma_padded_length(m: Seq<u8>)
    ensures
        (m + padding(m.len())).len() % 64 == 0,
        (m + padding(m.len())).subrange(0, m.len() as int) == m,
{
    let p = m + padding(m.len());
    let len = m.len();
    let r = len % 64;
    assert(len == 64 * (len / 64) + r) by {
        vstd::arithmetic::div_mod::lemma_fundamental_div_mod(len as int, 64);
    }
    let z = (119 - r) % 64;
    assert(r <= 55 ==> z == 55 - r);
    assert(r > 55 ==> z == 119 - r);
    assert(u64_le_bytes(((8 * len) % 0x1_0000_0000_0000_0000) as u64).len() == 8);
    assert(p.len() == len + 9 + z);
    assert(r <= 55 ==> p.len() == 64 * (len / 64 + 1));
    assert(r > 55 ==> p.len() == 64 * (len / 64 + 2));
    vstd::arithmetic::div_mod::lemma_mod_multiples_basic(len as int / 64 + 1, 64);
    vstd::arithmetic::div_mod::lemma_mod_multiples_basic(len as int / 64 + 2, 64);
    assert(p.subrange(0, m.len() as int) =~= m);
}

/// Processing a whole number of blocks and then more bytes is processing the
/// two one after the other.
pub proof fn lemma_compress_blocks_append(h: Seq<u32>, a: Seq<u8>, b: Seq<u8>)
    requires
        a.len() % 64 == 0,
    ensures
        compress_blocks(h, a + b) == compress_blocks(compress_blocks(h, a), b),
    decreases a.len(),
{
    if a.len() == 0 {
        assert(a + b =~= b);
    } else {
        let ab = a + b;
        let h1 = compress(h, le_words(a.subrange(0, 64)));
        assert(ab.subrange(0, 64) =~= a.subrange(0, 64));
        assert(ab.subrange(64, ab.len() as int) =~= a.subrange(64, a.len() as int) + b);
        lemma_compress_blocks_append(h1, a.subrange(64, a.len() as int), b);
    }
}

/// Each byte of `bytes` as two lowercase hexadecimal digits, high nibble first.
pub open spec fn hex_lower(bytes: Seq<u8>) -> Seq<char>
    decreases bytes.len(),
{
    if bytes.len() == 0 {
        Seq::empty()
    } else {
        hex_lower(bytes.drop_last()) + seq![
            hex_digit(bytes.last() / 16),
            hex_digit(bytes.last() % 16),
        ]
    }
}

/// One more byte adds its two digits at the end.
pub proof fn lemma_hex_lower_push(bytes: Seq<u8>, b: u8)
    ensures
        hex_lower(bytes.push(b)) == hex_lower(bytes) + seq![hex_digit(b / 16), hex_digit(b % 16)],
{
    assert(bytes.push(b).drop_last() =~= bytes);
}

} // verus!
