use fract::hexfmt::{hash512_to_hex, hash_to_hex, hex_digest};
use fract::lattice::phi_round;
use fract::words::{load_word, store_word};
use fract::{hltm, Fract, FractError};

fn bytes_up_to(n: u8) -> Vec<u8> {
    (0..n).collect()
}

#[test]
fn empty_input_has_its_fixed_digest() {
    assert_eq!(
        hex::encode(Fract::hash(b"")),
        "89725f1118452e010a45e713ca6402a460627476dfdb937f7d17eb87890ac73b"
    );
    assert_eq!(Fract::hash(b""), Fract::hash(b""));
}

#[test]
fn empty_input_has_its_fixed_512_bit_digest() {
    assert_eq!(
        hex::encode(Fract::hash512(b"")),
        "89725f1118452e010a45e713ca6402a460627476dfdb937f7d17eb87890ac73b\
         eca01b6badcab80f0e0a54a9bae488447ba617dde272d596edaa8cdd4d01b240"
    );
}

#[test]
fn short_texts_have_their_digests() {
    assert_eq!(
        hex::encode(Fract::hash(b"hello cat")),
        "7064371307216bbf3b7d91349eabd8c3ec2aa6e6d878f5c3052014389d2d3992"
    );
    assert_eq!(
        hex::encode(Fract::hash(b"hello world")),
        "6e43711622a571831c32b52868efe8750b6acf9a049d0c49d0a4e954223dbe7a"
    );
    assert_eq!(
        hex::encode(Fract::hash(b"test")),
        "3ad0ea8498e0d6314892ea00b78f561d9d18c96dc9379c71f34dba1662264815"
    );
}

#[test]
fn hello_world_has_its_512_bit_digest() {
    assert_eq!(
        hex::encode(Fract::hash512(b"hello world")),
        "6e43711622a571831c32b52868efe8750b6acf9a049d0c49d0a4e954223dbe7a\
         bd8e8c524e9b91e94fe30cb06767f7a8f8b8f530c41eafa3f5cdfe54f5aae4e6"
    );
}

#[test]
fn padding_is_right_around_the_block_boundary() {
    // Fifteen waiting bytes leave room for the last byte alone, which is 0x80.
    assert_eq!(
        hex::encode(Fract::hash(&bytes_up_to(15))),
        "2c1a0f8472333068330b0f3732b36cc821cb0ca6d7a56db43ef4eeae0fa5206d"
    );
    // Sixteen bytes fill a block; the padding makes a block of its own.
    assert_eq!(
        hex::encode(Fract::hash(&bytes_up_to(16))),
        "acbf70ed911e47a79731ee27556024678502195c7ec07bf8023ec9cfaea0df0f"
    );
    assert_eq!(
        hex::encode(Fract::hash(&bytes_up_to(17))),
        "9022e03004efcf08c43fc1b5ca810c0f2903c1c37c0d926d87933fd0c431db0e"
    );
    assert_eq!(
        hex::encode(Fract::hash(&bytes_up_to(31))),
        "9d997ee99e2775607a2239de639b8cac9473c9bf4b846b19422f15b8f3d3e54d"
    );
    assert_eq!(
        hex::encode(Fract::hash(&bytes_up_to(32))),
        "cc4fe5565ce74050cb46cf36483eae6cbac5c6f574735479a09546e71cb9e0ce"
    );
}

#[test]
fn ten_thousand_bytes_have_their_digest() {
    let data = vec![0x61u8; 10000];
    assert_eq!(
        hex::encode(Fract::hash(&data)),
        "930dac3659965573950ec9666edf63659bc90e0ee441bc67e0e4336c58cef51b"
    );
}

#[test]
fn a_mebibyte_of_one_byte_hashes_the_same_each_time() {
    let data = vec![0x41u8; 1_048_576];
    let first = Fract::hash(&data);
    let second = Fract::hash(&data);
    assert_eq!(first.len(), 32);
    assert_eq!(first, second);
    assert_eq!(
        hex::encode(first),
        "d1f7ef56d0fdafb1edba2d11dba3f223362d4c45a1e33dddff97e712738e7c20"
    );
}

#[test]
fn the_map_has_its_values() {
    // Logistic branch: 4x - 4 * floor(x^2 / 2^64).
    assert_eq!(hltm(0), 0);
    assert_eq!(hltm(1), 4);
    assert_eq!(hltm(2), 8);
    assert_eq!(hltm(1u64 << 32), 0x3_ffff_fffc);
    assert_eq!(hltm(0x0123456789abcdef), 0x0487e802b5df5d0c);
    assert_eq!(hltm(0x7fff_ffff_ffff_ffff), 0);
    // Tent branch: 4 * (x - 2^63) * (2^64 - x).
    assert_eq!(hltm(0x8000_0000_0000_0000), 0);
    assert_eq!(hltm(0x8000_0000_0000_0001), 0xffff_ffff_ffff_fffc);
    assert_eq!(hltm(0xfedcba9876543210), 0x844e4ca16ed6fc00);
    assert_eq!(hltm(u64::MAX), 0xffff_ffff_ffff_fffc);
}

#[test]
fn one_round_mixes_the_four_words() {
    let mut engine = Fract::from_state([1, 2, 3, 4]);
    engine.apply_phi();
    assert_eq!(engine.state_snapshot(), [0x80004, 0x808, 0x4000000c, 0x70]);
}

#[test]
fn one_round_on_the_initial_state() {
    let mut engine = Fract::new();
    engine.apply_phi();
    assert_eq!(
        engine.state_snapshot(),
        [
            0xe2eb8b1a8806c973,
            0x562cef2882468799,
            0x694459e343a4ae0f,
            0xa3f1b8cf700e5d02
        ]
    );
}

#[test]
fn a_new_engine_holds_the_initial_state() {
    let engine = Fract::new();
    assert_eq!(
        engine.state_snapshot(),
        [
            0x6a09e667f3bcc908,
            0xbb67ae8584caa73b,
            0x3c6ef372fe94f82b,
            0xa54ff53a5f1d36f1
        ]
    );
    assert_eq!(engine.total_len(), 0);
    assert_eq!(Fract::default().state_snapshot(), engine.state_snapshot());
    assert_eq!(Fract::default().finalize(), Fract::new().finalize());
}

#[test]
fn a_seeded_engine_starts_from_its_seed() {
    let engine = Fract::from_state([1, 2, 3, 4]);
    assert_eq!(engine.state_snapshot(), [1, 2, 3, 4]);
    assert_eq!(engine.total_len(), 0);

    let mut engine = Fract::from_state([1, 2, 3, 4]);
    engine.update(b"abc").unwrap();
    assert_eq!(
        hex::encode(engine.finalize()),
        "5f99bc2a15e1942c48b23854bc189ddf65b7f6f830fdfd8bc69c2cd6165201a7"
    );

    let mut engine = Fract::from_state([1, 2, 3, 4]);
    engine.update(b"abc").unwrap();
    assert_eq!(
        hex::encode(engine.finalize512()),
        "5f99bc2a15e1942c48b23854bc189ddf65b7f6f830fdfd8bc69c2cd6165201a7\
         d2fd138cf1af9fe69ef46952efc748658e136e04e71b46c03b46e940624148b7"
    );
}

#[test]
fn whole_blocks_reach_the_state_and_the_rest_waits() {
    let mut engine = Fract::new();
    let before = engine.state_snapshot();
    assert_eq!(engine.update(&bytes_up_to(15)), Ok(()));
    assert_eq!(engine.state_snapshot(), before);
    assert_eq!(engine.total_len(), 15);
    assert_eq!(engine.update(&[15u8]), Ok(()));
    assert_ne!(engine.state_snapshot(), before);
    assert_eq!(engine.total_len(), 16);
    assert_eq!(engine.finalize(), Fract::hash(&bytes_up_to(16)));
}

#[test]
fn absorbing_nothing_changes_nothing() {
    let mut engine = Fract::new();
    engine.update(b"abc").unwrap();
    let state = engine.state_snapshot();
    engine.update(b"").unwrap();
    assert_eq!(engine.state_snapshot(), state);
    assert_eq!(engine.total_len(), 3);
    assert_eq!(engine.finalize(), Fract::hash(b"abc"));
}

#[test]
fn a_clone_goes_on_as_its_source_does() {
    let mut engine = Fract::new();
    engine.update(b"hello ").unwrap();
    let mut copy = engine.clone();
    assert_eq!(copy.state_snapshot(), engine.state_snapshot());
    assert_eq!(copy.total_len(), engine.total_len());
    engine.update(b"cat").unwrap();
    copy.update(b"cat").unwrap();
    assert_eq!(engine.finalize(), Fract::hash(b"hello cat"));
    assert_eq!(copy.finalize(), Fract::hash(b"hello cat"));
}

#[test]
fn the_error_says_what_went_wrong() {
    assert_eq!(
        FractError::AlreadyFinalized.message(),
        "Cannot update after finalization"
    );
}

#[test]
fn hex_text_is_two_lowercase_digits_per_byte() {
    let text = hash_to_hex(b"");
    assert_eq!(
        text,
        "89725f1118452e010a45e713ca6402a460627476dfdb937f7d17eb87890ac73b"
    );
    assert_eq!(text.len(), 64);
    let text = hash512_to_hex(b"test");
    assert_eq!(
        text,
        "3ad0ea8498e0d6314892ea00b78f561d9d18c96dc9379c71f34dba1662264815\
         d324fbc385676f42ce099b0d2da227b3f64e826f405afb43a44ec2e577e93549"
    );
    assert_eq!(text.len(), 128);
}

#[test]
fn hex_digest_picks_the_width() {
    assert_eq!(hex_digest(b"test", false), hash_to_hex(b"test"));
    assert_eq!(hex_digest(b"test", true), hash512_to_hex(b"test"));
    assert_eq!(
        hex_digest(b"hello cat", false),
        "7064371307216bbf3b7d91349eabd8c3ec2aa6e6d878f5c3052014389d2d3992"
    );
}

#[test]
fn words_are_read_least_significant_byte_first() {
    let buffer: [u8; 16] = [
        0x01, 0x02, 0x03, 0x04, 0x05, 0x06, 0x07, 0x08, 0xf1, 0xf2, 0xf3, 0xf4, 0xf5, 0xf6, 0xf7,
        0xf8,
    ];
    assert_eq!(load_word(&buffer, 0), 0x0807060504030201);
    assert_eq!(load_word(&buffer, 8), 0xf8f7f6f5f4f3f2f1);
    assert_eq!(load_word(&buffer, 3), 0xf3f2f10807060504);
}

#[test]
fn words_are_written_least_significant_byte_first() {
    let mut output = [0xeeu8; 12];
    store_word(&mut output, 2, 0x0807060504030201);
    assert_eq!(
        output,
        [0xee, 0xee, 0x01, 0x02, 0x03, 0x04, 0x05, 0x06, 0x07, 0x08, 0xee, 0xee]
    );
    let mut output = [0u8; 8];
    store_word(&mut output, 0, 0xf8f7f6f5f4f3f2f1);
    assert_eq!(output, [0xf1, 0xf2, 0xf3, 0xf4, 0xf5, 0xf6, 0xf7, 0xf8]);
    assert_eq!(
        load_word(&[1, 2, 3, 4, 5, 6, 7, 8, 0, 0, 0, 0, 0, 0, 0, 0], 0).to_le_bytes(),
        [1, 2, 3, 4, 5, 6, 7, 8]
    );
}

#[test]
fn a_round_on_plain_words() {
    assert_eq!(phi_round(&[1, 2, 3, 4]), [0x80004, 0x808, 0x4000000c, 0x70]);
    assert_eq!(phi_round(&[0, 0, 0, 0]), [0, 0, 0, 0]);
    // Shifts drop the bits that leave the word, and the sum wraps.
    assert_eq!(
        phi_round(&[u64::MAX, u64::MAX, u64::MAX, u64::MAX]),
        [
            0xfffffffe0001fffb,
            0xfffffe00000007fb,
            0xffffffffe001fffb,
            0xfff800000000001b
        ]
    );
}
