//! The incremental RIPEMD-160 hasher.

use vstd::prelude::*;
use vstd::string::StringSliceAdditionalSpecFns;
use crate::compress::{compress, process_msg_block};
use crate::message::{
    compress_blocks, hex_lower, initial_chaining, lemma_compress_blocks_append, padding, ripemd160,
    whole_blocks_len,
};
use crate::outside::{
    buffer_full, buffer_input, buffer_next, buffer_reset, buffer_size, buffer_standard_padding,
    buffered,
    clone_buffer, empty_buffer, BlockBuffer,
};
use crate::words::{hex_digit, le_words, u64_le_bytes, words_le_bytes};

verus! {

/// Number of 32-bit words in the chaining value.
const DIGEST_BUF_LEN: usize = 5;

/// Structure representing the state of a Ripemd160 computation
pub struct Ripemd160 {
    h: [u32; DIGEST_BUF_LEN],
    length_bits: u64,
    buffer: BlockBuffer,
    message: Ghost<Seq<u8>>,
}

impl View for Ripemd160 {
    type V = Seq<u8>;

    /// Every byte that the hasher has been fed, in order.
    closed spec fn view(&self) -> Seq<u8> {
        self.message@
    }
}

/// Whole blocks of a piece that follows whole blocks.
proof fn lemma_whole_blocks_after(q: nat, x: nat)
    requires
        q % 64 == 0,
    ensures
        whole_blocks_len(q + x) == q + whole_blocks_len(x),
{
    vstd::arithmetic::div_mod::lemma_fundamental_div_mod(q as int, 64);
    vstd::arithmetic::div_mod::lemma_fundamental_div_mod(x as int, 64);
    let k = q as int / 64 + x as int / 64;
    assert(q + x == 64 * k + x as int % 64);
    vstd::arithmetic::div_mod::lemma_div_multiples_vanish_fancy(k, x as int % 64, 64);
}

/// What `finalize` computes is the digest's chaining value: the one or two
/// blocks that padding and length make of the buffered rest.
proof fn lemma_last_blocks(m: Seq<u8>, h1: Seq<u32>, b1: Seq<u8>, last: Seq<u8>, hf: Seq<u32>)
    requires
        8 * m.len() <= u64::MAX,
        ({
            let q = whole_blocks_len(m.len()) as int;
            let h0 = compress_blocks(initial_chaining(), m.subrange(0, q));
            let p = m.subrange(q, m.len() as int).push(0x80u8);
            if 64 - p.len() < 8 {
                &&& h1 == compress(h0, le_words(p + Seq::new((64 - p.len()) as nat, |i: int| 0u8)))
                &&& b1 == Seq::new(56, |i: int| 0u8)
            } else {
                &&& h1 == h0
                &&& b1 == p + Seq::new((56 - p.len()) as nat, |i: int| 0u8)
            }
        }),
        last == b1 + u64_le_bytes((8 * m.len()) as u64),
        hf == compress(h1, le_words(last)),
    ensures
        hf == compress_blocks(initial_chaining(), m + padding(m.len())),
{
    let len = m.len();
    let q = whole_blocks_len(len) as int;
    let c = m.subrange(q, len as int);
    let h0 = compress_blocks(initial_chaining(), m.subrange(0, q));
    let r = len % 64;
    vstd::arithmetic::div_mod::lemma_fundamental_div_mod(len as int, 64);
    assert(c.len() == r);
    assert(((8 * len) % 0x1_0000_0000_0000_0000) as u64 == (8 * len) as u64);
    let p = c.push(0x80u8);
    let rest = c + padding(len);
    assert(m + padding(len) =~= m.subrange(0, q) + rest);
    vstd::arithmetic::div_mod::lemma_mod_multiples_basic(len as int / 64, 64);
    lemma_compress_blocks_append(initial_chaining(), m.subrange(0, q), rest);
    assert(last.len() == 64);
    assert(last.subrange(0, 64) =~= last);
    assert(last.subrange(64, 64) =~= Seq::<u8>::empty());
    assert(compress_blocks(h1, last) == hf) by {
        reveal_with_fuel(compress_blocks, 2);
    }
    if r >= 56 {
        let block = p + Seq::new((64 - p.len()) as nat, |i: int| 0u8);
        assert(rest =~= block + last);
        assert((block + last).subrange(0, 64) =~= block);
        assert((block + last).subrange(64, 128) =~= last);
    } else {
        assert(rest =~= last);
    }
}

/// The low 32 bits of `x`.
fn low_half(x: u64) -> (r: u32)
    ensures
        r == (x % 0x1_0000_0000) as u32,
{
    let r = x as u32;
    assert(r == (x % 0x1_0000_0000) as u32) by (bit_vector)
        requires
            r == x as u32,
    ;
    r
}

/// The high 32 bits of `x`.
fn high_half(x: u64) -> (r: u32)
    ensures
        r == (x / 0x1_0000_0000) as u32,
{
    let r = (x >> 32) as u32;
    assert(r == (x / 0x1_0000_0000) as u32) by (bit_vector)
        requires
            r == (x >> 32) as u32,
    ;
    r
}

/// The lowercase hexadecimal digit for `n` as a one-character string.
fn hex_digit_str(n: u8) -> (s: &'static str)
    requires
        n < 16,
    ensures
        s@ == seq![hex_digit(n)],
{
    if n == 0 {
        proof {
            reveal_strlit("0");
        }
        "0"
    } else if n == 1 {
        proof {
            reveal_strlit("1");
        }
        "1"
    } else if n == 2 {
        proof {
            reveal_strlit("2");
        }
        "2"
    } else if n == 3 {
        proof {
            reveal_strlit("3");
        }
        "3"
    } else if n == 4 {
        proof {
            reveal_strlit("4");
        }
        "4"
    } else if n == 5 {
        proof {
            reveal_strlit("5");
        }
        "5"
    } else if n == 6 {
        proof {
            reveal_strlit("6");
        }
        "6"
    } else if n == 7 {
        proof {
            reveal_strlit("7");
        }
        "7"
    } else if n == 8 {
        proof {
            reveal_strlit("8");
        }
        "8"
    } else if n == 9 {
        proof {
            reveal_strlit("9");
        }
        "9"
    } else if n == 10 {
        proof {
            reveal_strlit("a");
        }
        "a"
    } else if n == 11 {
        proof {
            reveal_strlit("b");
        }
        "b"
    } else if n == 12 {
        proof {
            reveal_strlit("c");
        }
        "c"
    } else if n == 13 {
        proof {
            reveal_strlit("d");
        }
        "d"
    } else if n == 14 {
        proof {
            reveal_strlit("e");
        }
        "e"
    } else {
        proof {
            reveal_strlit("f");
        }
        "f"
    }
}

/// Two well-formed hashers fed the same bytes are in the same state: the
/// same chaining value, the same bit count and the same buffered bytes, of
/// which there are as many as the fed length modulo 64. (`default` and `new`,
/// for one, give the same state.)
pub proof fn law_state_determined_by_bytes(a: &Ripemd160, b: &Ripemd160)
    requires
        a.wf(),
        b.wf(),
        a@ == b@,
    ensures
        a.chaining_value() == b.chaining_value(),
        a.bit_count() == b.bit_count(),
        a.pending() == b.pending(),
        a.pending().len() == a@.len() % 64,
{
    vstd::arithmetic::div_mod::lemma_fundamental_div_mod(a@.len() as int, 64);
}

impl Ripemd160 {
    /// The chaining value: five words.
    pub closed spec fn chaining_value(&self) -> Seq<u32> {
        self.h@
    }

    /// The bit count kept for the length block.
    pub closed spec fn bit_count(&self) -> u64 {
        self.length_bits
    }

    /// The bytes waiting in the buffer for their block to fill.
    pub closed spec fn pending(&self) -> Seq<u8> {
        buffered(self.buffer)
    }

    /// The state that feeding the bytes `self@` leaves: the chaining value has
    /// taken in every whole 64-byte block of them, in order, starting from the
    /// initial value; the buffer holds the rest (fewer than 64 bytes); and the
    /// bit count is their length in bits.
    pub open spec fn wf(&self) -> bool {
        let m = self@;
        let n = whole_blocks_len(m.len()) as int;
        &&& self.bit_count() as int == 8 * m.len()
        &&& self.pending() == m.subrange(n, m.len() as int)
        &&& self.chaining_value() == compress_blocks(initial_chaining(), m.subrange(0, n))
    }

    /// Construct a `Ripemd` object
    pub fn new() -> (hasher: Ripemd160)
        ensures
            hasher.wf(),
            hasher@ == Seq::<u8>::empty(),
    {
        let hasher = Ripemd160 {
            h: [0x67452301, 0xefcdab89, 0x98badcfe, 0x10325476, 0xc3d2e1f0],
            length_bits: 0,
            buffer: empty_buffer(),
            message: Ghost(Seq::empty()),
        };
        assert(hasher.h@ =~= initial_chaining());
        assert(hasher.message@.subrange(0, 0) =~= Seq::<u8>::empty());
        hasher
    }

    /// Brings the hasher back to the state of `new`, so that it can hash
    /// another message.
    pub fn reset(&mut self)
        ensures
            final(self).wf(),
            final(self)@ == Seq::<u8>::empty(),
    {
        self.h = [0x67452301, 0xefcdab89, 0x98badcfe, 0x10325476, 0xc3d2e1f0];
        self.length_bits = 0;
        buffer_reset(&mut self.buffer);
        self.message = Ghost(Seq::empty());
        assert(self.h@ =~= initial_chaining());
        assert(self.message@.subrange(0, 0) =~= Seq::<u8>::empty());
    }

    /// Feeds the UTF-8 bytes of `input` to the hasher.
    pub fn input_str(&mut self, input: &str)
        requires
            old(self).wf(),
            8 * (old(self)@.len() + input.spec_bytes().len()) <= u64::MAX,
        ensures
            final(self).wf(),
            final(self)@ == old(self)@ + input.spec_bytes(),
    {
        self.input(input.as_bytes());
    }

    /// Feeds `input` to the hasher.
    pub fn input(&mut self, input: &[u8])
        requires
            old(self).wf(),
            8 * (old(self)@.len() + input@.len()) <= u64::MAX,
        ensures
            final(self).wf(),
            final(self)@ == old(self)@ + input@,
    {
        let ghost m = self.message@;
        let ghost q = whole_blocks_len(m.len()) as int;
        let ghost all = buffered(self.buffer) + input@;
        self.length_bits = byte_tools::add_bytes_to_bits(self.length_bits, input.len() as u64);
        buffer_input(&mut self.buffer, &mut self.h, input);
        proof {
            let m2 = m + input@;
            self.message = Ghost(m2);
            let n = whole_blocks_len(all.len()) as int;
            vstd::arithmetic::div_mod::lemma_mod_multiples_basic(m.len() as int / 64, 64);
            assert(m.subrange(0, q) + all =~= m2);
            lemma_whole_blocks_after(q as nat, all.len());
            assert(whole_blocks_len(m2.len()) == q + n);
            assert(m2.subrange(q + n, m2.len() as int) =~= all.subrange(n, all.len() as int));
            assert(m2.subrange(0, q + n) =~= m.subrange(0, q) + all.subrange(0, n));
            lemma_compress_blocks_append(
                initial_chaining(),
                m.subrange(0, q),
                all.subrange(0, n),
            );
        }
    }

    /// Pads the message and takes the last one or two blocks into the
    /// chaining value.
    fn finalize(&mut self)
        requires
            old(self).wf(),
        ensures
            final(self).h@ == compress_blocks(
                initial_chaining(),
                old(self)@ + padding(old(self)@.len()),
            ),
    {
        let ghost m = self.message@;
        let ghost q = whole_blocks_len(m.len()) as int;
        let ghost h0 = self.h@;
        let ghost c = buffered(self.buffer);
        let length_bits = self.length_bits;
        buffer_standard_padding(&mut self.buffer, &mut self.h, 8);
        let ghost h1 = self.h@;
        let ghost b1 = buffered(self.buffer);
        let low = low_half(length_bits);
        let high = high_half(length_bits);
        byte_tools::write_u32_le(buffer_next(&mut self.buffer, 4), low);
        byte_tools::write_u32_le(buffer_next(&mut self.buffer, 4), high);
        let ghost last = buffered(self.buffer);
        process_msg_block(buffer_full(&mut self.buffer), &mut self.h);
        proof {
            let len = m.len();
            let tail = u64_le_bytes(((8 * len) % 0x1_0000_0000_0000_0000) as u64);
            assert(tail == u64_le_bytes(length_bits));
            assert(last =~= b1 + tail);
            lemma_last_blocks(m, h1, b1, last, self.h@);
        }
    }

    /// The RIPEMD-160 digest of everything the hasher has been fed.
    pub fn result(self) -> (out: [u8; 20])
        requires
            self.wf(),
        ensures
            out@ == ripemd160(self@),
    {
        let mut hasher = self;
        hasher.finalize();
        let mut w0 = [0u8; 4];
        let mut w1 = [0u8; 4];
        let mut w2 = [0u8; 4];
        let mut w3 = [0u8; 4];
        let mut w4 = [0u8; 4];
        byte_tools::write_u32_le(&mut w0, hasher.h[0]);
        byte_tools::write_u32_le(&mut w1, hasher.h[1]);
        byte_tools::write_u32_le(&mut w2, hasher.h[2]);
        byte_tools::write_u32_le(&mut w3, hasher.h[3]);
        byte_tools::write_u32_le(&mut w4, hasher.h[4]);
        let out = [
            w0[0], w0[1], w0[2], w0[3],
            w1[0], w1[1], w1[2], w1[3],
            w2[0], w2[1], w2[2], w2[3],
            w3[0], w3[1], w3[2], w3[3],
            w4[0], w4[1], w4[2], w4[3],
        ];
        proof {
            let h = hasher.h@;
            reveal_with_fuel(words_le_bytes, 6);
            assert(h.drop_first().drop_first().drop_first().drop_first().drop_first()
                =~= Seq::<u32>::empty());
            assert(out@ =~= w0@ + w1@ + w2@ + w3@ + w4@);
            assert(out@ =~= words_le_bytes(h));
        }
        out
    }

    /// The digest of everything the hasher has been fed, as forty lowercase
    /// hexadecimal digits.
    pub fn result_str(self) -> (out: String)
        requires
            self.wf(),
        ensures
            out@ == hex_lower(ripemd160(self@)),
    {
        let bytes = self.result();
        let mut out = String::new();
        let mut i: usize = 0;
        while i < 20
            invariant
                i <= 20,
                out@ == hex_lower(bytes@.subrange(0, i as int)),
            decreases 20 - i,
        {
            let b = bytes[i];
            out.append(hex_digit_str(b / 16));
            out.append(hex_digit_str(b % 16));
            proof {
                crate::message::lemma_hex_lower_push(bytes@.subrange(0, i as int), b);
                assert(bytes@.subrange(0, i as int).push(b) =~= bytes@.subrange(0, i + 1));
            }
            i = i + 1;
        }
        assert(bytes@.subrange(0, 20) =~= bytes@);
        out
    }

    /// The number of bits fed so far; `input` needs the total to stay within a `u64`.
    pub fn length_bits(&self) -> (bits: u64)
        requires
            self.wf(),
        ensures
            bits == 8 * self@.len(),
    {
        self.length_bits
    }

    /// Block size in bytes.
    pub fn block_size(&self) -> (n: usize)
        ensures
            n == 64,
    {
        buffer_size(&self.buffer)
    }
}

impl Clone for Ripemd160 {
    /// A hasher in the same state, fed the same bytes.
    fn clone(&self) -> (copy: Self)
        ensures
            copy@ == self@,
            self.wf() ==> copy.wf(),
    {
        Ripemd160 {
            h: self.h,
            length_bits: self.length_bits,
            buffer: clone_buffer(&self.buffer),
            message: Ghost(self.message@),
        }
    }
}

impl Default for Ripemd160 {
    /// The same as `Ripemd160::new`.
    fn default() -> (hasher: Self)
        ensures
            hasher.wf(),
            hasher@ == Seq::<u8>::empty(),
    {
        Self::new()
    }
}

} // verus!
