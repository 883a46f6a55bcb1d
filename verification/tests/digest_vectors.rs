use ripemd160::{circular_shift, process_msg_block, Ripemd160};

fn hex(s: &str) -> Vec<u8> {
    (0..s.len())
        .step_by(2)
        .map(|i| u8::from_str_radix(&s[i..i + 2], 16).unwrap())
        .collect()
}

fn digest_of(data: &[u8]) -> Vec<u8> {
    let mut hasher = Ripemd160::new();
    hasher.input(data);
    hasher.result().to_vec()
}

fn counting_bytes(n: usize) -> Vec<u8> {
    (0..n).map(|i| i as u8).collect()
}

#[test]
fn empty_message() {
    assert_eq!(digest_of(b""), hex("9c1185a5c5e9fc54612808977ee8f548b2258d31"));
}

#[test]
fn single_letter() {
    assert_eq!(digest_of(b"a"), hex("0bdc9d2d256b3ee9daae347be6f4dc835a467ffe"));
}

#[test]
fn abc() {
    assert_eq!(digest_of(b"abc"), hex("8eb208f7e05d987a9b044a8e98c6b087f15a0bfc"));
}

#[test]
fn message_digest() {
    assert_eq!(digest_of(b"message digest"), hex("5d0689ef49d2fae572b881b123a85ffa21595f36"));
}

#[test]
fn alphabet() {
    assert_eq!(
        digest_of(b"abcdefghijklmnopqrstuvwxyz"),
        hex("f71c27109c692c1b56bbdceb5b9d2865b3708dbc")
    );
}

#[test]
fn overlapping_quads() {
    assert_eq!(
        digest_of(b"abcdbcdecdefdefgefghfghighijhijkijkljklmklmnlmnomnopnopq"),
        hex("12a053384a9c0c88e405a06c27dcf49ada62eb2b")
    );
}

#[test]
fn alphanumeric() {
    assert_eq!(
        digest_of(b"ABCDEFGHIJKLMNOPQRSTUVWXYZabcdefghijklmnopqrstuvwxyz0123456789"),
        hex("b0e20b6e3116640286ed3a87a5713079b21f5189")
    );
}

#[test]
fn eight_times_digits() {
    let data = b"1234567890".repeat(8);
    assert_eq!(digest_of(&data), hex("9b752e45573d4b39f4dbd3323cab82bf63326bfb"));
}

#[test]
fn million_a_in_pieces() {
    let mut hasher = Ripemd160::new();
    let piece = [b'a'; 1000];
    for _ in 0..1000 {
        hasher.input(&piece);
    }
    assert_eq!(hasher.result().to_vec(), hex("52783243c1697bdbe16d37f97f68f08325dc1528"));
}

#[test]
fn lengths_around_the_padding_boundary() {
    let expected = [
        (55, "3c86963b3ff646a65ae42996e9664c747cc7e5e6"),
        (56, "ebdd79cfd4fd9949ef8089673d2620427f487cfb"),
        (57, "635b0d05be254d82503a9e1db7647dd1b5d5d6bf"),
        (63, "6d31d3d634b4a7aa15914c239576eb1956f2d9a4"),
        (64, "2581f5e9f957b44b0fa24d31996de47409dd1e0f"),
        (65, "109949b95341eeea7365e8ac4d0d3883d98f709a"),
        (119, "ad430b4283203a7b7f338b9d252dfdbf807402bf"),
        (120, "b89cdc109009f1982c8b34fca446953584d3f6c4"),
        (127, "2be8e565e24a87171f0700ecafa3c2942c97023e"),
        (128, "7c4d36070c1e1176b2960a1b0dd2319d547cf8eb"),
    ];
    for (n, h) in expected.iter() {
        assert_eq!(digest_of(&counting_bytes(*n)), hex(h), "length {}", n);
    }
}

#[test]
fn pieces_give_the_digest_of_their_concatenation() {
    let data = counting_bytes(200);
    let whole = digest_of(&data);
    for split in [0usize, 1, 7, 55, 56, 63, 64, 65, 100, 128, 199, 200].iter() {
        let mut hasher = Ripemd160::new();
        hasher.input(&data[..*split]);
        hasher.input(&data[*split..]);
        assert_eq!(hasher.result().to_vec(), whole, "split at {}", split);
    }
    let mut bytewise = Ripemd160::new();
    for b in data.iter() {
        bytewise.input(&[*b]);
    }
    assert_eq!(bytewise.result().to_vec(), whole);
}

#[test]
fn empty_input_changes_nothing() {
    let mut hasher = Ripemd160::new();
    hasher.input(b"ab");
    hasher.input(b"");
    hasher.input(b"c");
    hasher.input(b"");
    assert_eq!(hasher.result().to_vec(), hex("8eb208f7e05d987a9b044a8e98c6b087f15a0bfc"));
}

#[test]
fn block_size_is_sixty_four() {
    let mut hasher = Ripemd160::new();
    assert_eq!(hasher.block_size(), 64);
    hasher.input(&counting_bytes(70));
    assert_eq!(hasher.block_size(), 64);
}

#[test]
fn clone_continues_independently() {
    let mut hasher = Ripemd160::new();
    hasher.input(b"message ");
    let mut copy = hasher.clone();
    hasher.input(b"digest");
    copy.input(b"xyz");
    assert_eq!(hasher.result().to_vec(), hex("5d0689ef49d2fae572b881b123a85ffa21595f36"));
    assert_eq!(copy.result().to_vec(), digest_of(b"message xyz"));
}

#[test]
fn default_is_new() {
    let mut hasher: Ripemd160 = Default::default();
    hasher.input(b"a");
    assert_eq!(hasher.result().to_vec(), hex("0bdc9d2d256b3ee9daae347be6f4dc835a467ffe"));
}

#[test]
fn circular_shift_rotates() {
    assert_eq!(circular_shift(1, 0x8000_0000), 1);
    assert_eq!(circular_shift(4, 0x1234_5678), 0x2345_6781);
    assert_eq!(circular_shift(31, 1), 0x8000_0000);
    for bits in 1u32..32 {
        for word in [0u32, 1, 0xdead_beef, 0xffff_ffff, 0x8000_0001].iter() {
            assert_eq!(circular_shift(bits, *word), word.rotate_left(bits));
        }
    }
}

#[test]
fn one_block_of_the_empty_message() {
    let mut block = [0u8; 64];
    block[0] = 0x80;
    let mut h = [0x67452301u32, 0xefcdab89, 0x98badcfe, 0x10325476, 0xc3d2e1f0];
    process_msg_block(&block, &mut h);
    let mut out = Vec::new();
    for w in h.iter() {
        out.extend_from_slice(&w.to_le_bytes());
    }
    assert_eq!(out, hex("9c1185a5c5e9fc54612808977ee8f548b2258d31"));
}

#[test]
fn reset_starts_a_new_message() {
    let mut hasher = Ripemd160::new();
    hasher.input(&counting_bytes(100));
    hasher.reset();
    hasher.input(b"abc");
    assert_eq!(hasher.result().to_vec(), hex("8eb208f7e05d987a9b044a8e98c6b087f15a0bfc"));
    let mut fresh = Ripemd160::new();
    fresh.reset();
    assert_eq!(fresh.result().to_vec(), hex("9c1185a5c5e9fc54612808977ee8f548b2258d31"));
}

#[test]
fn input_str_feeds_the_utf8_bytes() {
    let mut hasher = Ripemd160::new();
    hasher.input_str("message ");
    hasher.input_str("digest");
    assert_eq!(hasher.result().to_vec(), hex("5d0689ef49d2fae572b881b123a85ffa21595f36"));
    let mut text = Ripemd160::new();
    text.input_str("héllo");
    assert_eq!(text.result().to_vec(), digest_of("héllo".as_bytes()));
}

#[test]
fn result_str_is_lowercase_hex() {
    let mut hasher = Ripemd160::new();
    hasher.input(b"abc");
    assert_eq!(hasher.result_str(), "8eb208f7e05d987a9b044a8e98c6b087f15a0bfc");
    assert_eq!(Ripemd160::new().result_str(), "9c1185a5c5e9fc54612808977ee8f548b2258d31");
}

#[test]
fn default_and_new_agree_on_every_input() {
    for n in [0usize, 1, 63, 64, 65, 130].iter() {
        let data = counting_bytes(*n);
        let mut a = Ripemd160::default();
        let mut b = Ripemd160::new();
        a.input(&data);
        b.input(&data);
        assert_eq!(a.length_bits(), b.length_bits());
        assert_eq!(a.length_bits(), 8 * *n as u64);
        assert_eq!(a.result(), b.result());
    }
}

#[test]
fn rotation_laws() {
    let words = [0u32, 1, 0x1234_5678, 0xdead_beef, 0xffff_ffff, 0x8000_0001];
    for bits in 1u32..32 {
        for x in words.iter() {
            for y in words.iter() {
                assert_eq!(
                    circular_shift(bits, x ^ y),
                    circular_shift(bits, *x) ^ circular_shift(bits, *y)
                );
            }
            assert_eq!(circular_shift(bits, !x), !circular_shift(bits, *x));
            assert_eq!(circular_shift(bits, *x).count_ones(), x.count_ones());
        }
    }
}
