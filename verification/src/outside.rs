//! What this crate takes from `byte_tools` and `digest_buffer`, with the
//! contracts that the rest of the crate relies on.

use vstd::prelude::*;
use crate::words::{le_words, word_le_bytes};
use digest_buffer::DigestBuffer;
use crate::compress::{compress, process_msg_block};
use crate::message::{compress_blocks, whole_blocks_len};
use generic_array::typenum::U64;

verus! {

/// `byte_tools::read_u32v_le` fills `dst` with the little-endian words of
/// `input`; it asserts (and panics otherwise) that `input` holds exactly four
/// bytes per word of `dst`, and it takes the address of `dst[0]`, so `dst`
/// must not be empty.
pub assume_specification[byte_tools::read_u32v_le](dst: &mut [u32], input: &[u8])
    requires
        old(dst)@.len() > 0,
        old(dst)@.len() * 4 == input@.len(),
    ensures
        final(dst)@ == le_words(input@),
;

/// `byte_tools::write_u32_le` writes `input` into the four bytes of `dst`,
/// least significant byte first; it asserts that `dst` is four bytes long.
pub assume_specification[byte_tools::write_u32_le](dst: &mut [u8], input: u32)
    requires
        old(dst)@.len() == 4,
    ensures
        final(dst)@ == word_le_bytes(input),
;

/// `byte_tools::add_bytes_to_bits` returns `bits + 8 * bytes`; it panics when
/// `8 * bytes` or that sum does not fit in a `u64`.
pub assume_specification[byte_tools::add_bytes_to_bits](bits: u64, bytes: u64) -> (r: u64)
    requires
        bits + 8 * bytes <= u64::MAX,
    ensures
        r == bits + 8 * bytes,
;

/// A `digest_buffer::DigestBuffer` of 64 bytes: a block in the making and the
/// position up to which it is filled. Its contents are read only through
/// `buffered`.
#[verifier::external_body]
pub struct BlockBuffer {
    inner: DigestBuffer<U64>,
}

/// The bytes that a 64-byte `DigestBuffer` holds and has not yet handed on:
/// those below its position.
pub uninterp spec fn buffered(buffer: BlockBuffer) -> Seq<u8>;

/// `DigestBuffer::default` (that is, `DigestBuffer::new`): a buffer at
/// position 0, holding nothing.
#[verifier::external_body]
pub(crate) fn empty_buffer() -> (buffer: BlockBuffer)
    ensures
        buffered(buffer) == Seq::<u8>::empty(),
{
    BlockBuffer { inner: Default::default() }
}

/// `DigestBuffer::size`: the block size, `U64`, that is 64.
#[verifier::external_body]
pub(crate) fn buffer_size(buffer: &BlockBuffer) -> (n: usize)
    ensures
        n == 64,
{
    buffer.inner.size()
}

/// `DigestBuffer::clone` (derived): a buffer with the same bytes and position.
#[verifier::external_body]
pub(crate) fn clone_buffer(buffer: &BlockBuffer) -> (copy: BlockBuffer)
    ensures
        buffered(copy) == buffered(*buffer),
{
    BlockBuffer { inner: buffer.inner.clone() }
}

/// `DigestBuffer::input`, with `process_msg_block` on `h` as the function that
/// each full block is handed to. The buffer hands on, in order, every whole
/// 64-byte block of what it held followed by `input`, and keeps the rest.
#[verifier::external_body]
pub(crate) fn buffer_input(buffer: &mut BlockBuffer, h: &mut [u32; 5], input: &[u8])
    requires
        buffered(*old(buffer)).len() < 64,
    ensures
        ({
            let all = buffered(*old(buffer)) + input@;
            let n = whole_blocks_len(all.len()) as int;
            &&& buffered(*final(buffer)) == all.subrange(n, all.len() as int)
            &&& final(h)@ == compress_blocks(old(h)@, all.subrange(0, n))
        }),
{
    buffer.inner.input(input, |d: &[u8]| process_msg_block(d, &mut *h));
}

/// `DigestBuffer::standard_padding` with `rem` bytes kept free at the end and
/// `process_msg_block` on `h` as the function that a full block is handed to.
/// It appends the byte 0x80; if fewer than `rem` bytes are then free, it fills
/// the block with zeros, hands it on and starts an empty one; it then appends
/// zeros until `rem` bytes are free.
#[verifier::external_body]
pub(crate) fn buffer_standard_padding(buffer: &mut BlockBuffer, h: &mut [u32; 5], rem: usize)
    requires
        buffered(*old(buffer)).len() < 64,
        rem <= 64,
    ensures
        ({
            let p = buffered(*old(buffer)).push(0x80u8);
            if 64 - p.len() < rem {
                &&& final(h)@ == compress(
                    old(h)@,
                    le_words(p + Seq::new((64 - p.len()) as nat, |i: int| 0u8)),
                )
                &&& buffered(*final(buffer)) == Seq::new((64 - rem) as nat, |i: int| 0u8)
            } else {
                &&& final(h)@ == old(h)@
                &&& buffered(*final(buffer)) == p + Seq::new(
                    (64 - rem - p.len()) as nat,
                    |i: int| 0u8,
                )
            }
        }),
{
    buffer.inner.standard_padding(rem, |d: &[u8]| process_msg_block(d, &mut *h));
}

/// `DigestBuffer::next`: the next `len` bytes of the block, which the buffer
/// then holds, whatever the caller writes into them.
#[verifier::external_body]
pub(crate) fn buffer_next<'a>(buffer: &'a mut BlockBuffer, len: usize) -> (bytes: &'a mut [u8])
    requires
        buffered(*old(buffer)).len() + len <= 64,
    ensures
        bytes@.len() == len,
        buffered(*final(buffer)) == buffered(*old(buffer)) + final(bytes)@,
{
    buffer.inner.next(len)
}

/// `DigestBuffer::full_buffer`: the whole block, which must be full; the
/// buffer is then empty.
#[verifier::external_body]
pub(crate) fn buffer_full<'a>(buffer: &'a mut BlockBuffer) -> (block: &'a [u8])
    requires
        buffered(*old(buffer)).len() == 64,
    ensures
        block@ == buffered(*old(buffer)),
        buffered(*final(buffer)) == Seq::<u8>::empty(),
{
    buffer.inner.full_buffer()
}

/// `DigestBuffer::reset`: the position goes back to 0, so the buffer holds
/// nothing.
#[verifier::external_body]
pub(crate) fn buffer_reset(buffer: &mut BlockBuffer)
    ensures
        buffered(*final(buffer)) == Seq::<u8>::empty(),
{
    buffer.inner.reset()
}

} // verus!
