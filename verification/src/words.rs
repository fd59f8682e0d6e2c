//! Little-endian conversion between 64-bit words and bytes.

use vstd::prelude::*;

verus! {

/// The word that eight bytes spell in little-endian order: byte `i` counts
/// `256^i` times.
pub open spec fn le_word(b: Seq<u8>) -> u64
    recommends
        b.len() == 8,
{
    (b[0] + 0x100 * b[1] + 0x1_0000 * b[2] + 0x100_0000 * b[3] + 0x1_0000_0000 * b[4]
        + 0x100_0000_0000 * b[5] + 0x1_0000_0000_0000 * b[6] + 0x100_0000_0000_0000 * b[7]) as u64
}

/// Byte `i` of a word in little-endian order, the `i`-th digit in base 256.
pub open spec fn le_byte(w: u64, i: int) -> u8
    recommends
        0 <= i < 8,
{
    if i == 0 {
        (w % 0x100) as u8
    } else if i == 1 {
        ((w / 0x100) % 0x100) as u8
    } else if i == 2 {
        ((w / 0x1_0000) % 0x100) as u8
    } else if i == 3 {
        ((w / 0x100_0000) % 0x100) as u8
    } else if i == 4 {
        ((w / 0x1_0000_0000) % 0x100) as u8
    } else if i == 5 {
        ((w / 0x100_0000_0000) % 0x100) as u8
    } else if i == 6 {
        ((w / 0x1_0000_0000_0000) % 0x100) as u8
    } else {
        (w / 0x100_0000_0000_0000) as u8
    }
}

/// The eight bytes of a word, least significant first.
pub open spec fn le_bytes(w: u64) -> Seq<u8> {
    Seq::new(8, |i: int| le_byte(w, i))
}

/// Reads the little-endian word that starts at `at` in a rate-sized buffer.
pub fn load_word(buf: &[u8; 16], at: usize) -> (w: u64)
    requires
        at + 8 <= 16,
    ensures
        w == le_word(buf@.subrange(at as int, at + 8)),
{
    let b0: u64 = buf[at] as u64;
    let b1: u64 = buf[at + 1] as u64;
    let b2: u64 = buf[at + 2] as u64;
    let b3: u64 = buf[at + 3] as u64;
    let b4: u64 = buf[at + 4] as u64;
    let b5: u64 = buf[at + 5] as u64;
    let b6: u64 = buf[at + 6] as u64;
    let b7: u64 = buf[at + 7] as u64;
    assert(b0 | b1 << 8 | b2 << 16 | b3 << 24 | b4 << 32 | b5 << 40 | b6 << 48 | b7 << 56 == b0
        + 0x100 * b1 + 0x1_0000 * b2 + 0x100_0000 * b3 + 0x1_0000_0000 * b4 + 0x100_0000_0000 * b5
        + 0x1_0000_0000_0000 * b6 + 0x100_0000_0000_0000 * b7) by (bit_vector)
        requires
            b0 < 0x100,
            b1 < 0x100,
            b2 < 0x100,
            b3 < 0x100,
            b4 < 0x100,
            b5 < 0x100,
            b6 < 0x100,
            b7 < 0x100,
    ;
    b0 | b1 << 8 | b2 << 16 | b3 << 24 | b4 << 32 | b5 << 40 | b6 << 48 | b7 << 56
}

/// Writes the eight little-endian bytes of `w` into `out` from `at` on and
/// leaves every other byte as it was.
pub fn store_word<const N: usize>(out: &mut [u8; N], at: usize, w: u64)
    requires
        at + 8 <= N,
    ensures
        final(out)@ == old(out)@.subrange(0, at as int) + le_bytes(w) + old(out)@.subrange(
            at + 8,
            N as int,
        ),
{
    assert(w as u8 == w % 0x100 && (w >> 8) as u8 == (w / 0x100) % 0x100 && (w >> 16) as u8 == (w
        / 0x1_0000) % 0x100 && (w >> 24) as u8 == (w / 0x100_0000) % 0x100 && (w >> 32) as u8 == (w
        / 0x1_0000_0000) % 0x100 && (w >> 40) as u8 == (w / 0x100_0000_0000) % 0x100 && (w
        >> 48) as u8 == (w / 0x1_0000_0000_0000) % 0x100 && (w >> 56) as u8 == w
        / 0x100_0000_0000_0000) by (bit_vector);
    out[at] = #[verifier::truncate] (w as u8);
    out[at + 1] = #[verifier::truncate] ((w >> 8) as u8);
    out[at + 2] = #[verifier::truncate] ((w >> 16) as u8);
    out[at + 3] = #[verifier::truncate] ((w >> 24) as u8);
    out[at + 4] = #[verifier::truncate] ((w >> 32) as u8);
    out[at + 5] = #[verifier::truncate] ((w >> 40) as u8);
    out[at + 6] = #[verifier::truncate] ((w >> 48) as u8);
    out[at + 7] = #[verifier::truncate] ((w >> 56) as u8);
    assert(out@ =~= old(out)@.subrange(0, at as int) + le_bytes(w) + old(out)@.subrange(
        at + 8,
        N as int,
    ));
}

} // verus!
