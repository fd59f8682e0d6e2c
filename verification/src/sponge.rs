//! The sponge as mathematics: what absorbing, padding and squeezing mean,
//! and the laws that hold of them.

use vstd::prelude::*;
use crate::lattice::{permutation, lemma_phi_rounds_len, ROUNDS};
use crate::words::{le_bytes, le_word};

verus! {

/// Bytes taken in, and given out, per permutation.
pub const RATE: usize = 16;

/// First word of the initial state.
pub const IV0: u64 = 0x6a09e667f3bcc908;

/// Second word of the initial state.
pub const IV1: u64 = 0xbb67ae8584caa73b;

/// Third word of the initial state.
pub const IV2: u64 = 0x3c6ef372fe94f82b;

/// Fourth word of the initial state.
pub const IV3: u64 = 0xa54ff53a5f1d36f1;

/// The initial state: the first 256 bits of the square root of two.
pub open spec fn initial_state() -> Seq<u64> {
    seq![IV0, IV1, IV2, IV3]
}

/// The state after one block of `RATE` bytes went in: the block's two
/// little-endian words are xored into the first two state words, the other
/// two are left alone, and the permutation runs.
pub open spec fn absorb_block(s: Seq<u64>, block: Seq<u8>) -> Seq<u64>
    recommends
        s.len() == 4,
        block.len() == RATE,
{
    permutation(
        seq![
            s[0] ^ le_word(block.subrange(0, 8)),
            s[1] ^ le_word(block.subrange(8, 16)),
            s[2],
            s[3],
        ],
    )
}

/// The state after every whole block of `stream` went in, front to back.
/// Bytes after the last whole block have no part in it.
pub open spec fn absorb_blocks(s: Seq<u64>, stream: Seq<u8>) -> Seq<u64>
    decreases stream.len(),
{
    if stream.len() < RATE {
        s
    } else {
        absorb_blocks(absorb_block(s, stream.subrange(0, RATE as int)), stream.skip(RATE as int))
    }
}

/// The bytes of `stream` after its last whole block.
pub open spec fn tail(stream: Seq<u8>) -> Seq<u8> {
    stream.skip(stream.len() - stream.len() % (RATE as nat))
}

/// The final block: the pending bytes, then `0x01`, then zeros, with the
/// last byte of the block set to `0x80` whatever stood there.
pub open spec fn pad(pending: Seq<u8>) -> Seq<u8>
    recommends
        pending.len() < RATE,
{
    Seq::new(
        RATE as nat,
        |i: int|
            if i == RATE - 1 {
                0x80u8
            } else if i < pending.len() {
                pending[i]
            } else if i == pending.len() {
                0x01u8
            } else {
                0x00u8
            },
    )
}

/// The `RATE` bytes that a state gives out: its first two words, little-endian.
pub open spec fn rate_bytes(s: Seq<u64>) -> Seq<u8>
    recommends
        s.len() == 4,
{
    le_bytes(s[0]) + le_bytes(s[1])
}

/// `n` outputs of `RATE` bytes each, with one permutation between an output
/// and the next.
pub open spec fn squeeze(s: Seq<u64>, n: nat) -> Seq<u8>
    decreases n,
{
    if n == 0 {
        Seq::empty()
    } else {
        rate_bytes(s) + squeeze(permutation(s), (n - 1) as nat)
    }
}

/// The hashing engine as a mathematical value.
pub struct Sponge {
    /// The four state words.
    pub state: Seq<u64>,
    /// Input bytes that wait for a block to fill, fewer than `RATE`.
    pub pending: Seq<u8>,
    /// How many bytes went in so far.
    pub total: nat,
    /// Whether the final block was absorbed.
    pub finalized: bool,
}

impl Sponge {
    /// Four state words, and fewer pending bytes than a block holds.
    pub open spec fn wf(self) -> bool {
        &&& self.state.len() == 4
        &&& self.pending.len() < RATE
    }

    /// An engine that starts from `state` with nothing absorbed.
    pub open spec fn seeded(state: Seq<u64>) -> Sponge {
        Sponge { state, pending: Seq::empty(), total: 0, finalized: false }
    }

    /// A new engine: the initial state, nothing absorbed.
    pub open spec fn fresh() -> Sponge {
        Sponge::seeded(initial_state())
    }

    /// The engine after `data` went in: the pending bytes and `data` form
    /// one stream, whose whole blocks are absorbed and whose tail waits.
    ///
    /// Proofs do not unfold this by themselves: they go by the lemmas below,
    /// or reveal the definition.
    #[verifier::opaque]
    pub open spec fn absorb(self, data: Seq<u8>) -> Sponge {
        Sponge {
            state: absorb_blocks(self.state, self.pending + data),
            pending: tail(self.pending + data),
            total: self.total + data.len(),
            finalized: self.finalized,
        }
    }

    /// The engine after one chunk after the other went in.
    pub open spec fn absorb_each(self, chunks: Seq<Seq<u8>>) -> Sponge
        decreases chunks.len(),
    {
        if chunks.len() == 0 {
            self
        } else {
            self.absorb_each(chunks.drop_last()).absorb(chunks.last())
        }
    }

    /// The state that output is taken from: the state after the padded final
    /// block, or the state as it is where that block went in before.
    pub open spec fn sealed_state(self) -> Seq<u64> {
        if self.finalized {
            self.state
        } else {
            absorb_block(self.state, pad(self.pending))
        }
    }

    /// The 256-bit digest of what the engine took in.
    pub open spec fn digest256(self) -> Seq<u8> {
        squeeze(self.sealed_state(), 2)
    }

    /// The 512-bit digest of what the engine took in.
    pub open spec fn digest512(self) -> Seq<u8> {
        squeeze(self.sealed_state(), 4)
    }
}

/// All chunks joined in order.
pub open spec fn concat(chunks: Seq<Seq<u8>>) -> Seq<u8>
    decreases chunks.len(),
{
    if chunks.len() == 0 {
        Seq::empty()
    } else {
        concat(chunks.drop_last()) + chunks.last()
    }
}

/// The 256-bit digest of a byte sequence.
pub open spec fn hash256(data: Seq<u8>) -> Seq<u8> {
    Sponge::fresh().absorb(data).digest256()
}

/// The 512-bit digest of a byte sequence.
pub open spec fn hash512(data: Seq<u8>) -> Seq<u8> {
    Sponge::fresh().absorb(data).digest512()
}

/// Absorbing a block keeps the state at four words.
pub proof fn lemma_absorb_block_len(s: Seq<u64>, block: Seq<u8>)
    ensures
        absorb_block(s, block).len() == 4,
{
    let mixed = seq![
        s[0] ^ le_word(block.subrange(0, 8)),
        s[1] ^ le_word(block.subrange(8, 16)),
        s[2],
        s[3],
    ];
    lemma_phi_rounds_len(mixed, ROUNDS as nat);
}

/// Absorbing whole blocks keeps the state at four words.
pub proof fn lemma_absorb_blocks_len(s: Seq<u64>, stream: Seq<u8>)
    requires
        s.len() == 4,
    ensures
        absorb_blocks(s, stream).len() == 4,
    decreases stream.len(),
{
    if stream.len() >= RATE {
        lemma_absorb_block_len(s, stream.subrange(0, RATE as int));
        lemma_absorb_blocks_len(
            absorb_block(s, stream.subrange(0, RATE as int)),
            stream.skip(RATE as int),
        );
    }
}

/// Absorbing keeps an engine well formed.
pub proof fn lemma_absorb_wf(m: Sponge, data: Seq<u8>)
    requires
        m.wf(),
    ensures
        m.absorb(data).wf(),
{
    reveal(Sponge::absorb);
    lemma_absorb_blocks_len(m.state, m.pending + data);
}

/// Whole blocks of a stream can be absorbed in two goes: first those of a
/// front part `x`, then those of what `x` left over followed by the rest.
pub proof fn lemma_absorb_blocks_split(s: Seq<u64>, x: Seq<u8>, y: Seq<u8>)
    ensures
        absorb_blocks(s, x + y) == absorb_blocks(absorb_blocks(s, x), tail(x) + y),
        tail(x + y) == tail(tail(x) + y),
    decreases x.len(),
{
    if x.len() < RATE {
        assert(tail(x) =~= x);
    } else {
        let head = x.subrange(0, RATE as int);
        let rest = x.skip(RATE as int);
        assert((x + y).subrange(0, RATE as int) =~= head);
        assert((x + y).skip(RATE as int) =~= rest + y);
        assert(tail(x) =~= tail(rest));
        assert(tail(x + y) =~= tail(rest + y));
        lemma_absorb_blocks_split(absorb_block(s, head), rest, y);
    }
}

/// Chunk invariance, for two chunks: absorbing `a` and then `b` leaves the
/// engine exactly as absorbing `a` followed by `b` in one go.
pub proof fn lemma_absorb_concat(m: Sponge, a: Seq<u8>, b: Seq<u8>)
    ensures
        m.absorb(a).absorb(b) == m.absorb(a + b),
{
    reveal(Sponge::absorb);
    lemma_absorb_blocks_split(m.state, m.pending + a, b);
    assert(m.pending + (a + b) =~= (m.pending + a) + b);
}

/// Absorbing counts the bytes and leaves the finalized flag as it was.
pub proof fn lemma_absorb_counts(m: Sponge, data: Seq<u8>)
    ensures
        m.absorb(data).total == m.total + data.len(),
        m.absorb(data).finalized == m.finalized,
{
    reveal(Sponge::absorb);
}

/// Bytes that do not fill the block only join the pending bytes.
pub proof fn lemma_absorb_short(m: Sponge, data: Seq<u8>)
    requires
        m.pending.len() + data.len() < RATE,
    ensures
        m.absorb(data) == (Sponge {
            pending: m.pending + data,
            total: m.total + data.len(),
            ..m
        }),
{
    reveal(Sponge::absorb);
    assert(tail(m.pending + data) =~= m.pending + data);
}

/// Bytes that fill the block exactly send it into the state and leave
/// nothing pending.
pub proof fn lemma_absorb_filling(m: Sponge, data: Seq<u8>)
    requires
        m.pending.len() + data.len() == RATE,
    ensures
        m.absorb(data) == (Sponge {
            state: absorb_block(m.state, m.pending + data),
            pending: Seq::empty(),
            total: m.total + data.len(),
            ..m
        }),
{
    reveal(Sponge::absorb);
    let stream = m.pending + data;
    assert(stream.subrange(0, RATE as int) =~= stream);
    assert(tail(stream) =~= Seq::<u8>::empty());
    assert(absorb_blocks(absorb_block(m.state, stream), stream.skip(RATE as int)) == absorb_block(
        m.state,
        stream,
    ));
}

/// Absorbing nothing changes nothing.
pub proof fn lemma_absorb_empty(m: Sponge)
    requires
        m.wf(),
    ensures
        m.absorb(Seq::empty()) == m,
{
    reveal(Sponge::absorb);
    assert(m.pending + Seq::<u8>::empty() =~= m.pending);
    assert(tail(m.pending) =~= m.pending);
}

/// Chunk invariance: however a byte sequence is cut into consecutive
/// chunks, absorbing the chunks one by one leaves the engine exactly as
/// absorbing the whole sequence in one go, and so gives the same digests.
pub proof fn lemma_chunk_invariance(m: Sponge, chunks: Seq<Seq<u8>>)
    requires
        m.wf(),
    ensures
        m.absorb_each(chunks) == m.absorb(concat(chunks)),
        m.absorb_each(chunks).digest256() == m.absorb(concat(chunks)).digest256(),
        m.absorb_each(chunks).digest512() == m.absorb(concat(chunks)).digest512(),
    decreases chunks.len(),
{
    if chunks.len() == 0 {
        lemma_absorb_empty(m);
    } else {
        lemma_chunk_invariance(m, chunks.drop_last());
        lemma_absorb_concat(m, concat(chunks.drop_last()), chunks.last());
    }
}

/// Squeezing `n` outputs gives `n * RATE` bytes.
pub proof fn lemma_squeeze_len(s: Seq<u64>, n: nat)
    ensures
        squeeze(s, n).len() == n * RATE,
    decreases n,
{
    if n > 0 {
        lemma_squeeze_len(permutation(s), (n - 1) as nat);
    }
}

/// A shorter squeeze is the front of a longer one from the same state.
pub proof fn lemma_squeeze_prefix(s: Seq<u64>, n: nat, m: nat)
    requires
        n <= m,
    ensures
        squeeze(s, m).subrange(0, n * RATE) == squeeze(s, n),
    decreases n,
{
    lemma_squeeze_len(s, n);
    lemma_squeeze_len(s, m);
    if n == 0 {
        assert(squeeze(s, m).subrange(0, 0) =~= squeeze(s, 0));
    } else {
        lemma_squeeze_prefix(permutation(s), (n - 1) as nat, (m - 1) as nat);
        lemma_squeeze_len(permutation(s), (n - 1) as nat);
        lemma_squeeze_len(permutation(s), (m - 1) as nat);
        assert(squeeze(s, m).subrange(0, n * RATE) =~= rate_bytes(s) + squeeze(
            permutation(s),
            (m - 1) as nat,
        ).subrange(0, (n - 1) * RATE));
    }
}

/// Fixed output length: a 256-bit digest is 32 bytes and a 512-bit digest
/// is 64 bytes, whatever went in.
pub proof fn lemma_digest_len(m: Sponge)
    ensures
        m.digest256().len() == 32,
        m.digest512().len() == 64,
{
    lemma_squeeze_len(m.sealed_state(), 2);
    lemma_squeeze_len(m.sealed_state(), 4);
}

/// Mode consistency: the first 32 bytes of the 512-bit digest are the
/// 256-bit digest.
pub proof fn lemma_mode_consistency(m: Sponge)
    ensures
        m.digest512().subrange(0, 32) == m.digest256(),
{
    lemma_squeeze_prefix(m.sealed_state(), 2, 4);
}

/// Mode consistency for one-shot hashing: the first 32 bytes of the 512-bit
/// hash of any input are its 256-bit hash.
pub proof fn lemma_hash_mode_consistency(data: Seq<u8>)
    ensures
        hash512(data).subrange(0, 32) == hash256(data),
        hash256(data).len() == 32,
        hash512(data).len() == 64,
{
    lemma_mode_consistency(Sponge::fresh().absorb(data));
    lemma_digest_len(Sponge::fresh().absorb(data));
}

/// One-shot hashing written out: every whole block of the input goes into
/// the initial state, then the padded tail, and the digest is squeezed from
/// what results.
pub proof fn lemma_hash_unfolded(data: Seq<u8>)
    ensures
        hash256(data) == squeeze(
            absorb_block(absorb_blocks(initial_state(), data), pad(tail(data))),
            2,
        ),
        hash512(data) == squeeze(
            absorb_block(absorb_blocks(initial_state(), data), pad(tail(data))),
            4,
        ),
{
    reveal(Sponge::absorb);
    assert(Seq::<u8>::empty() + data =~= data);
}

/// Determinism: a digest depends on the bytes alone, so hashing the same
/// bytes twice gives the same digest, in either mode.
pub proof fn lemma_hash_deterministic(x: Seq<u8>, y: Seq<u8>)
    requires
        x =~= y,
    ensures
        hash256(x) == hash256(y),
        hash512(x) == hash512(y),
{
}

/// Chunk invariance for one-shot hashing: a new engine that takes in the
/// chunks of any cut of `data`, one by one, ends with the digests of `data`.
pub proof fn lemma_hash_chunked(chunks: Seq<Seq<u8>>)
    ensures
        Sponge::fresh().absorb_each(chunks).digest256() == hash256(concat(chunks)),
        Sponge::fresh().absorb_each(chunks).digest512() == hash512(concat(chunks)),
{
    lemma_chunk_invariance(Sponge::fresh(), chunks);
}

} // verus!
