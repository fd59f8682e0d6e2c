//! The permutation: rounds of the coupled lattice map on four words.

use vstd::prelude::*;
use crate::chaos::{hltm, hltm_spec, WORD_MODULUS};

verus! {

/// Rounds of the lattice map in one permutation.
pub const ROUNDS: usize = 8;

/// Addition of two words modulo 2^64.
pub open spec fn wrap_add(a: u64, b: u64) -> u64 {
    ((a + b) % (WORD_MODULUS as int)) as u64
}

/// One round of the lattice map on a state of four words.
///
/// Each word goes through the logistic-tent map and then takes in, by
/// addition modulo 2^64, a mix of two other words: one shifted right, one
/// shifted left.
pub open spec fn phi(s: Seq<u64>) -> Seq<u64>
    recommends
        s.len() == 4,
{
    seq![
        wrap_add(hltm_spec(s[0]), (s[1] >> 31) ^ (s[3] << 17)),
        wrap_add(hltm_spec(s[1]), (s[2] >> 23) ^ (s[0] << 11)),
        wrap_add(hltm_spec(s[2]), (s[3] >> 47) ^ (s[1] << 29)),
        wrap_add(hltm_spec(s[3]), (s[0] >> 13) ^ (s[2] << 5)),
    ]
}

/// `n` rounds of the lattice map, one after the other.
pub open spec fn phi_rounds(s: Seq<u64>, n: nat) -> Seq<u64>
    decreases n,
{
    if n == 0 {
        s
    } else {
        phi(phi_rounds(s, (n - 1) as nat))
    }
}

/// The permutation of the sponge: `ROUNDS` rounds of the lattice map.
pub open spec fn permutation(s: Seq<u64>) -> Seq<u64> {
    phi_rounds(s, ROUNDS as nat)
}

/// Rounds of the lattice map keep the state at four words.
pub proof fn lemma_phi_rounds_len(s: Seq<u64>, n: nat)
    requires
        s.len() == 4,
    ensures
        phi_rounds(s, n).len() == 4,
    decreases n,
{
    if n > 0 {
        lemma_phi_rounds_len(s, (n - 1) as nat);
    }
}

/// Computes one round of the lattice map.
pub fn phi_round(s: &[u64; 4]) -> (t: [u64; 4])
    ensures
        t@ == phi(s@),
{
    let s0: u64 = s[0];
    let s1: u64 = s[1];
    let s2: u64 = s[2];
    let s3: u64 = s[3];
    let f0: u64 = hltm(s0);
    let f1: u64 = hltm(s1);
    let f2: u64 = hltm(s2);
    let f3: u64 = hltm(s3);
    let t: [u64; 4] = [
        f0.wrapping_add((s1 >> 31) ^ (s3 << 17)),
        f1.wrapping_add((s2 >> 23) ^ (s0 << 11)),
        f2.wrapping_add((s3 >> 47) ^ (s1 << 29)),
        f3.wrapping_add((s0 >> 13) ^ (s2 << 5)),
    ];
    assert(t@ =~= phi(s@));
    t
}

} // verus!
