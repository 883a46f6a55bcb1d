# ripemd160

The RIPEMD-160 message digest as a Verus-verified library.

- `src/words.rs`: little-endian bytes and words, as mathematical functions.
- `src/rotation.rs`: `circular_shift`, the 32-bit rotation, and its laws.
- `src/compress.rs`: the compression function, specified step by step
  (two lines of eighty steps) and implemented by `process_msg_block`.
- `src/message.rs`: block iteration, padding and the digest of a whole
  message (`ripemd160`), with lemmas on them.
- `src/hasher.rs`: the incremental `Ripemd160` hasher. Its view is the byte
  sequence fed so far; `result` returns `ripemd160` of that sequence.
- `src/outside.rs`: the contracts taken on trust from `byte_tools` and
  `digest_buffer`.
- `app/lib.rs`: the `digest` crate's traits for the hasher.
