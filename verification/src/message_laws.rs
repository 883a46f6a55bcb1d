//! Laws of block iteration, padding and the byte/word conversions.

use vstd::prelude::*;
use crate::compress::compress;
use crate::compress_laws::law_compress_feed_forward;
use crate::message::{compress_blocks, initial_chaining, padding, ripemd160};
use crate::words::{le_word, le_words, u64_le_bytes, word_le_bytes, words_le_bytes};

verus! {

/// Processing a message takes its first 64-byte block into the chaining value
/// and then processes the rest; a message shorter than a block leaves the
/// chaining value as it is. No block is skipped, whatever its bytes.
pub proof fn law_compress_blocks_first_block(h: Seq<u32>, block: Seq<u8>, rest: Seq<u8>)
    requires
        block.len() == 64,
    ensures
        compress_blocks(h, block + rest) == compress_blocks(compress(h, le_words(block)), rest),
        rest.len() < 64 ==> compress_blocks(h, rest) == h,
{
    let m = block + rest;
    assert(m.subrange(0, 64) =~= block);
    assert(m.subrange(64, m.len() as int) =~= rest);
}

/// Reading a word back from the four bytes written for it gives the word.
pub proof fn law_word_bytes_round_trip(x: u32)
    ensures
        word_le_bytes(x).len() == 4,
        le_word(word_le_bytes(x)[0], word_le_bytes(x)[1], word_le_bytes(x)[2], word_le_bytes(x)[3])
            == x,
{
    assert(x == (x % 0x100) + 0x100 * ((x / 0x100) % 0x100) + 0x1_0000 * ((x / 0x1_0000) % 0x100)
        + 0x100_0000 * (x / 0x100_0000)) by (bit_vector);
    assert(x / 0x100_0000 < 0x100) by (bit_vector);
    assert(x % 0x100 < 0x100) by (bit_vector);
    assert((x / 0x100) % 0x100 < 0x100) by (bit_vector);
    assert((x / 0x1_0000) % 0x100 < 0x100) by (bit_vector);
}

/// Reading words back from the bytes written for them gives the words.
pub proof fn law_words_bytes_round_trip(ws: Seq<u32>)
    ensures
        words_le_bytes(ws).len() == 4 * ws.len(),
        le_words(words_le_bytes(ws)) == ws,
    decreases ws.len(),
{
    if ws.len() > 0 {
        law_words_bytes_round_trip(ws.drop_first());
        law_word_bytes_round_trip(ws[0]);
        let b = words_le_bytes(ws);
        let t = words_le_bytes(ws.drop_first());
        assert(b == word_le_bytes(ws[0]) + t);
        assert forall|i: int| 0 <= i < ws.len() implies #[trigger] le_words(b)[i] == ws[i] by {
            if i > 0 {
                assert(le_words(t)[i - 1] == ws.drop_first()[i - 1]);
                assert(b[4 * i] == t[4 * (i - 1)]);
                assert(b[4 * i + 1] == t[4 * (i - 1) + 1]);
                assert(b[4 * i + 2] == t[4 * (i - 1) + 2]);
                assert(b[4 * i + 3] == t[4 * (i - 1) + 3]);
            }
        }
        assert(le_words(b) =~= ws);
    } else {
        assert(le_words(words_le_bytes(ws)) =~= ws);
    }
}

/// The padding of a message of `len` bytes: the byte 0x80, zero bytes, and as
/// its last eight bytes the two little-endian words of the length in bits
/// modulo 2^64, low word first; between 9 and 72 bytes, as few as make the
/// padded length a multiple of 64.
pub proof fn law_padding(len: nat)
    ensures
        ({
            let p = padding(len);
            let bits = (8 * len) % 0x1_0000_0000_0000_0000;
            let tail = p.subrange(p.len() - 8, p.len() as int);
            &&& 9 <= p.len() <= 72
            &&& (len + p.len()) % 64 == 0
            &&& p[0] == 0x80u8
            &&& forall|i: int| 1 <= i < p.len() - 8 ==> #[trigger] p[i] == 0u8
            &&& le_words(tail).len() == 2
            &&& le_words(tail)[0] + 0x1_0000_0000 * le_words(tail)[1] == bits
        }),
{
    let p = padding(len);
    let bits = ((8 * len) % 0x1_0000_0000_0000_0000) as u64;
    let z = ((119 - len % 64) % 64) as nat;
    let r = len % 64;
    vstd::arithmetic::div_mod::lemma_fundamental_div_mod(len as int, 64);
    assert(p.len() == 9 + z);
    assert(r <= 55 ==> z == 55 - r);
    assert(r > 55 ==> z == 119 - r);
    assert(r <= 55 ==> len + p.len() == 64 * (len / 64 + 1));
    assert(r > 55 ==> len + p.len() == 64 * (len / 64 + 2));
    vstd::arithmetic::div_mod::lemma_mod_multiples_basic(len as int / 64 + 1, 64);
    vstd::arithmetic::div_mod::lemma_mod_multiples_basic(len as int / 64 + 2, 64);
    vstd::arithmetic::div_mod::lemma_mod_multiples_basic(len as int / 64, 64);
    vstd::arithmetic::div_mod::lemma_mod_multiples_basic(len as int / 64 + 1, 64);
    let tail = p.subrange(p.len() - 8, p.len() as int);
    let lo = (bits % 0x1_0000_0000) as u32;
    let hi = (bits / 0x1_0000_0000) as u32;
    assert(tail =~= u64_le_bytes(bits));
    assert(u64_le_bytes(bits) =~= words_le_bytes(seq![lo, hi])) by {
        reveal_with_fuel(words_le_bytes, 3);
        assert(seq![lo, hi].drop_first() =~= seq![hi]);
        assert(seq![hi].drop_first() =~= Seq::<u32>::empty());
    }
    law_words_bytes_round_trip(seq![lo, hi]);
    assert(bits == bits % 0x1_0000_0000 + 0x1_0000_0000 * (bits / 0x1_0000_0000)) by (bit_vector);
    assert(bits % 0x1_0000_0000 < 0x1_0000_0000) by (bit_vector);
    assert(bits / 0x1_0000_0000 < 0x1_0000_0000) by (bit_vector);
}

/// The digest is twenty bytes, and reads back as the five words of the chaining
/// value after the padded message.
pub proof fn law_digest_words(m: Seq<u8>)
    ensures
        ripemd160(m).len() == 20,
        le_words(ripemd160(m)) == compress_blocks(initial_chaining(), m + padding(m.len())),
{
    lemma_compress_blocks_len(initial_chaining(), m + padding(m.len()));
    law_words_bytes_round_trip(compress_blocks(initial_chaining(), m + padding(m.len())));
}

/// Processing blocks keeps a chaining value of five words.
proof fn lemma_compress_blocks_len(h: Seq<u32>, m: Seq<u8>)
    requires
        h.len() == 5,
    ensures
        compress_blocks(h, m).len() == 5,
    decreases m.len(),
{
    if m.len() >= 64 {
        let x = le_words(m.subrange(0, 64));
        law_compress_feed_forward(h, x);
        lemma_compress_blocks_len(compress(h, x), m.subrange(64, m.len() as int));
    }
}

/// The initial chaining value, written out as little-endian bytes, counts up
/// 01 23 45 67 89 ab cd ef and down fe dc ba 98 76 54 32 10, then f0 e1 d2 c3.
pub proof fn law_initial_value()
    ensures
        words_le_bytes(initial_chaining()) == seq![
            0x01u8, 0x23, 0x45, 0x67, 0x89, 0xab, 0xcd, 0xef,
            0xfe, 0xdc, 0xba, 0x98, 0x76, 0x54, 0x32, 0x10,
            0xf0, 0xe1, 0xd2, 0xc3,
        ],
{
    let h = initial_chaining();
    reveal_with_fuel(words_le_bytes, 6);
    assert(h.drop_first() =~= seq![0xefcdab89u32, 0x98badcfe, 0x10325476, 0xc3d2e1f0]);
    assert(h.drop_first().drop_first() =~= seq![0x98badcfeu32, 0x10325476, 0xc3d2e1f0]);
    assert(h.drop_first().drop_first().drop_first() =~= seq![0x10325476u32, 0xc3d2e1f0]);
    assert(h.drop_first().drop_first().drop_first().drop_first() =~= seq![0xc3d2e1f0u32]);
    assert(h.drop_first().drop_first().drop_first().drop_first().drop_first()
        =~= Seq::<u32>::empty());
    assert(words_le_bytes(h) =~= seq![
        0x01u8, 0x23, 0x45, 0x67, 0x89, 0xab, 0xcd, 0xef,
        0xfe, 0xdc, 0xba, 0x98, 0x76, 0x54, 0x32, 0x10,
        0xf0, 0xe1, 0xd2, 0xc3,
    ]);
}

} // verus!
