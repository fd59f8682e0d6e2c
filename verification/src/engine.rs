//! The hashing engine: state, buffer and counters, with incremental
//! absorption and the two output modes.

use vstd::prelude::*;
use crate::lattice::{permutation, phi, phi_round, phi_rounds, ROUNDS};
use crate::sponge::{
    initial_state, lemma_absorb_concat, lemma_absorb_counts, lemma_absorb_empty,
    lemma_absorb_filling, lemma_absorb_short, lemma_absorb_wf, lemma_mode_consistency, pad,
    squeeze, Sponge, IV0, IV1, IV2, IV3, RATE,
};
use crate::words::{load_word, store_word};

verus! {

/// Why the engine refused an operation.
///
/// Finalizing consumes the engine, so code that owns one cannot offer bytes
/// to it afterwards. [`Fract::update`] checks the flag all the same, and
/// answers with this error in place of absorbing.
#[derive(Clone, Copy, Debug, PartialEq, Eq, Structural)]
pub enum FractError {
    /// Bytes were offered to an engine whose final block went in before.
    AlreadyFinalized,
}

impl FractError {
    /// Says in words what went wrong.
    pub fn message(&self) -> (text: String)
        ensures
            text@ == "Cannot update after finalization"@,
    {
        match self {
            FractError::AlreadyFinalized => "Cannot update after finalization".to_owned(),
        }
    }
}

/// The hashing engine.
///
/// Its view is the mathematical [`Sponge`]: the four state words, the bytes
/// that wait in the buffer, the count of bytes taken in, and the finalized
/// flag. Fewer than `RATE` bytes ever wait between calls.
#[derive(Debug)]
pub struct Fract {
    state: [u64; 4],
    buffer: [u8; 16],
    buffer_len: usize,
    total_len: usize,
    finalized: bool,
}

impl View for Fract {
    type V = Sponge;

    closed spec fn view(&self) -> Sponge {
        Sponge {
            state: self.state@,
            pending: self.buffer@.subrange(0, self.buffer_len as int),
            total: self.total_len as nat,
            finalized: self.finalized,
        }
    }
}

impl Clone for Fract {
    fn clone(&self) -> (copy: Self)
        ensures
            copy == *self,
    {
        proof {
            use_type_invariant(self);
        }
        Fract {
            state: self.state,
            buffer: self.buffer,
            buffer_len: self.buffer_len,
            total_len: self.total_len,
            finalized: self.finalized,
        }
    }
}

impl Default for Fract {
    fn default() -> (engine: Self)
        ensures
            engine@ == Sponge::fresh(),
    {
        Fract::new()
    }
}

impl Fract {
    #[verifier::type_invariant]
    spec fn buffer_has_room(&self) -> bool {
        self.buffer_len < RATE
    }

    /// Creates an engine in the initial state with nothing absorbed.
    pub fn new() -> (engine: Self)
        ensures
            engine@ == Sponge::fresh(),
    {
        let engine = Fract {
            state: [IV0, IV1, IV2, IV3],
            buffer: [0u8; 16],
            buffer_len: 0,
            total_len: 0,
            finalized: false,
        };
        assert(engine.state@ =~= initial_state());
        assert(engine@.pending =~= Seq::<u8>::empty());
        engine
    }

    /// Creates an engine that starts from the given four words in place of
    /// the initial state, with nothing absorbed. This is for analysis of the
    /// permutation: digests of such an engine are not FRACT hashes.
    pub fn from_state(state: [u64; 4]) -> (engine: Self)
        ensures
            engine@ == Sponge::seeded(state@),
    {
        let engine = Fract {
            state,
            buffer: [0u8; 16],
            buffer_len: 0,
            total_len: 0,
            finalized: false,
        };
        assert(engine@.pending =~= Seq::<u8>::empty());
        engine
    }

    /// Returns the four state words as they stand. This is for analysis of
    /// the permutation, like [`Fract::from_state`].
    pub fn state_snapshot(&self) -> (state: [u64; 4])
        ensures
            state@ == self@.state,
    {
        self.state
    }

    /// Returns how many bytes the engine took in so far.
    pub fn total_len(&self) -> (total: usize)
        ensures
            total == self@.total,
    {
        self.total_len
    }

    /// Absorbs `data`, as if it followed directly on all bytes absorbed
    /// before: whole blocks go into the state, the rest waits in the buffer.
    ///
    /// A finalized engine refuses and stays as it was. On a live engine the
    /// count of bytes taken in must stay within `usize`.
    pub fn update(&mut self, data: &[u8]) -> (outcome: Result<(), FractError>)
        requires
            !old(self)@.finalized ==> old(self)@.total + data.len() <= usize::MAX,
        ensures
            old(self)@.finalized ==> outcome == Err::<(), FractError>(FractError::AlreadyFinalized)
                && *final(self) == *old(self),
            !old(self)@.finalized ==> outcome == Ok::<(), FractError>(()) && final(self)@ == old(
                self,
            )@.absorb(data@),
            final(self)@.wf(),
    {
        proof {
            use_type_invariant(&*self);
        }
        if self.finalized {
            return Err(FractError::AlreadyFinalized);
        }
        let ghost before = self@;
        let len: usize = data.len();
        self.total_len = self.total_len + len;
        let ghost total = self@.total;
        let mut pos: usize = 0;

        // Fill the buffer if bytes wait in it.
        if self.buffer_len > 0 {
            let capacity: usize = RATE - self.buffer_len;
            let take: usize = if len < capacity {
                len
            } else {
                capacity
            };
            let filled: usize = self.buffer_len + take;
            let ghost head = data@.subrange(0, take as int);
            self.fill(self.buffer_len, data, 0, take);
            pos = take;
            assert(self.buffer@.subrange(0, filled as int) == before.pending + head) by {
                assert(self.buffer@.subrange(0, filled as int) =~= before.pending + head);
            }
            if filled == RATE {
                assert(self.buffer@ == before.pending + head) by {
                    assert(self.buffer@ =~= self.buffer@.subrange(0, filled as int));
                }
                self.absorb_block();
                self.buffer_len = 0;
                assert(self@ == (Sponge { total, ..before.absorb(head) })) by {
                    lemma_absorb_filling(before, head);
                    assert(self@.pending =~= Seq::<u8>::empty());
                }
            } else {
                self.buffer_len = filled;
                assert(self@ == (Sponge { total, ..before.absorb(head) })) by {
                    lemma_absorb_short(before, head);
                }
            }
        } else {
            assert(self@ == (Sponge { total, ..before.absorb(data@.subrange(0, 0)) })) by {
                let head = data@.subrange(0, 0);
                assert(before.pending + head =~= before.pending);
                lemma_absorb_short(before, head);
            }
        }

        // Absorb whole blocks straight from the input.
        while len - pos >= RATE
            invariant
                pos <= len,
                len == data.len(),
                self.buffer_len < RATE,
                pos < len ==> self.buffer_len == 0,
                self@ == (Sponge { total, ..before.absorb(data@.subrange(0, pos as int)) }),
            decreases len - pos,
        {
            let ghost prefix = data@.subrange(0, pos as int);
            let ghost block = data@.subrange(pos as int, pos + RATE);
            let ghost reached = before.absorb(prefix);
            self.fill(0, data, pos, RATE);
            assert(self.buffer@ =~= block);
            self.absorb_block();
            pos = pos + RATE;
            proof {
                assert(reached.pending =~= Seq::<u8>::empty());
                assert(reached.pending + block =~= block);
                lemma_absorb_filling(reached, block);
                lemma_absorb_concat(before, prefix, block);
                assert(prefix + block =~= data@.subrange(0, pos as int));
                assert(self@.pending =~= Seq::<u8>::empty());
            }
        }

        // Keep what is left for the next call.
        if pos < len {
            let ghost prefix = data@.subrange(0, pos as int);
            let ghost rest = data@.subrange(pos as int, len as int);
            let ghost reached = before.absorb(prefix);
            self.fill(0, data, pos, len - pos);
            self.buffer_len = len - pos;
            assert(self@.pending == rest) by {
                assert(self@.pending =~= rest);
            }
            assert(self@ == (Sponge { total, ..before.absorb(data@) })) by {
                assert(reached.pending + rest =~= rest);
                lemma_absorb_short(reached, rest);
                lemma_absorb_concat(before, prefix, rest);
                assert(prefix + rest =~= data@);
            }
        } else {
            assert(data@.subrange(0, pos as int) =~= data@);
        }
        proof {
            lemma_absorb_wf(before, data@);
            lemma_absorb_counts(before, data@);
        }
        Ok(())
    }

    /// Pads, absorbs the final block and returns the 256-bit digest of all
    /// bytes the engine took in.
    pub fn finalize(self) -> (digest: [u8; 32])
        ensures
            digest@ == self@.digest256(),
    {
        let mut engine = self;
        proof {
            use_type_invariant(&engine);
        }
        if !engine.finalized {
            engine.pad_and_absorb();
            engine.finalized = true;
        }
        engine.squeeze_256()
    }

    /// Pads, absorbs the final block and returns the 512-bit digest of all
    /// bytes the engine took in. Its first 32 bytes are the 256-bit digest.
    pub fn finalize512(self) -> (digest: [u8; 64])
        ensures
            digest@ == self@.digest512(),
            digest@.subrange(0, 32) == self@.digest256(),
    {
        let mut engine = self;
        proof {
            use_type_invariant(&engine);
            lemma_mode_consistency(self@);
        }
        if !engine.finalized {
            engine.pad_and_absorb();
            engine.finalized = true;
        }
        engine.squeeze_512()
    }

    /// Hashes `data` in one go to 256 bits.
    pub fn hash(data: &[u8]) -> (digest: [u8; 32])
        ensures
            digest@ == crate::sponge::hash256(data@),
    {
        let mut hasher = Fract::new();
        let _ = hasher.update(data);
        hasher.finalize()
    }

    /// Hashes `data` in one go to 512 bits. The first 32 bytes are the
    /// 256-bit hash of `data`.
    pub fn hash512(data: &[u8]) -> (digest: [u8; 64])
        ensures
            digest@ == crate::sponge::hash512(data@),
            digest@.subrange(0, 32) == crate::sponge::hash256(data@),
    {
        let mut hasher = Fract::new();
        let _ = hasher.update(data);
        hasher.finalize512()
    }

    /// Hashes `data` to 256 bits, feeding it to the engine in chunks of
    /// `chunk_size` bytes, the last one shorter where the length asks for it.
    /// The digest is that of hashing `data` in one go.
    pub fn hash_chunked(data: &[u8], chunk_size: usize) -> (digest: [u8; 32])
        requires
            chunk_size > 0,
        ensures
            digest@ == crate::sponge::hash256(data@),
    {
        let len: usize = data.len();
        let mut hasher = Fract::new();
        let mut pos: usize = 0;
        proof {
            lemma_absorb_empty(Sponge::fresh());
            assert(data@.subrange(0, 0) =~= Seq::<u8>::empty());
        }
        while pos < len
            invariant
                pos <= len == data.len(),
                chunk_size > 0,
                hasher@ == Sponge::fresh().absorb(data@.subrange(0, pos as int)),
            decreases len - pos,
        {
            let end: usize = if len - pos < chunk_size {
                len
            } else {
                pos + chunk_size
            };
            proof {
                lemma_absorb_counts(Sponge::fresh(), data@.subrange(0, pos as int));
                lemma_absorb_concat(
                    Sponge::fresh(),
                    data@.subrange(0, pos as int),
                    data@.subrange(pos as int, end as int),
                );
                assert(data@.subrange(0, pos as int) + data@.subrange(pos as int, end as int)
                    =~= data@.subrange(0, end as int));
            }
            let _ = hasher.update(&data[pos..end]);
            pos = end;
        }
        assert(data@.subrange(0, len as int) =~= data@);
        hasher.finalize()
    }

    /// Copies `count` bytes of `src`, from `from` on, into the buffer at `at`.
    fn fill(&mut self, at: usize, src: &[u8], from: usize, count: usize)
        requires
            at + count <= RATE,
            from + count <= src.len(),
        ensures
            final(self).buffer@ == old(self).buffer@.subrange(0, at as int) + src@.subrange(
                from as int,
                from + count,
            ) + old(self).buffer@.subrange(at + count, RATE as int),
            final(self).state == old(self).state,
            final(self).buffer_len == old(self).buffer_len,
            final(self).total_len == old(self).total_len,
            final(self).finalized == old(self).finalized,
    {
        proof {
            use_type_invariant(&*self);
        }
        let mut i: usize = 0;
        while i < count
            invariant
                i <= count,
                self.buffer_len < RATE,
                at + count <= RATE,
                from + count <= src.len(),
                self.buffer@ == old(self).buffer@.subrange(0, at as int) + src@.subrange(
                    from as int,
                    from + i,
                ) + old(self).buffer@.subrange(at + i, RATE as int),
                self.state == old(self).state,
                self.buffer_len == old(self).buffer_len,
                self.total_len == old(self).total_len,
                self.finalized == old(self).finalized,
            decreases count - i,
        {
            self.buffer[at + i] = src[from + i];
            i = i + 1;
        }
    }

    /// Absorbs the sixteen bytes of the buffer as one block.
    fn absorb_block(&mut self)
        ensures
            final(self)@ == (Sponge {
                state: crate::sponge::absorb_block(old(self)@.state, old(self).buffer@),
                ..old(self)@
            }),
            final(self).buffer_len == old(self).buffer_len,
    {
        proof {
            use_type_invariant(&*self);
        }
        let lo: u64 = load_word(&self.buffer, 0);
        let hi: u64 = load_word(&self.buffer, 8);
        self.state[0] = self.state[0] ^ lo;
        self.state[1] = self.state[1] ^ hi;
        assert(self.state@ =~= seq![
            old(self).state@[0] ^ lo,
            old(self).state@[1] ^ hi,
            old(self).state@[2],
            old(self).state@[3],
        ]);
        self.permute();
    }

    /// Writes the padding behind the waiting bytes and absorbs the block.
    fn pad_and_absorb(&mut self)
        ensures
            final(self)@.state == crate::sponge::absorb_block(
                old(self)@.state,
                pad(old(self)@.pending),
            ),
            final(self)@.total == old(self)@.total,
            final(self)@.finalized == old(self)@.finalized,
            final(self).buffer_len == old(self).buffer_len,
    {
        proof {
            use_type_invariant(&*self);
        }
        let used: usize = self.buffer_len;
        self.buffer[used] = 0x01;
        let mut i: usize = used + 1;
        while i < RATE
            invariant
                used < i <= RATE,
                used == self.buffer_len,
                self.buffer@.subrange(0, used as int) == old(self).buffer@.subrange(0, used as int),
                self.buffer@[used as int] == 0x01,
                forall|j: int| used < j < i ==> self.buffer@[j] == 0x00,
                self.state == old(self).state,
                self.buffer_len == old(self).buffer_len,
                self.total_len == old(self).total_len,
                self.finalized == old(self).finalized,
            decreases RATE - i,
        {
            self.buffer[i] = 0x00;
            i = i + 1;
        }
        self.buffer[RATE - 1] = 0x80;
        assert(self.buffer@ =~= pad(old(self)@.pending));
        self.absorb_block();
    }

    /// Runs the permutation on the state.
    fn permute(&mut self)
        ensures
            final(self)@ == (Sponge { state: permutation(old(self)@.state), ..old(self)@ }),
            final(self).buffer_len == old(self).buffer_len,
    {
        proof {
            use_type_invariant(&*self);
        }
        let mut round: usize = 0;
        while round < ROUNDS
            invariant
                round <= ROUNDS,
                self.buffer_len == old(self).buffer_len < RATE,
                self@ == (Sponge {
                    state: phi_rounds(old(self)@.state, round as nat),
                    ..old(self)@
                }),
            decreases ROUNDS - round,
        {
            self.apply_phi();
            proof {
                use_type_invariant(&*self);
                assert(self@.pending.len() == old(self)@.pending.len());
            }
            round = round + 1;
        }
    }

    /// Applies one round of the lattice map to the state and leaves the
    /// rest of the engine alone.
    pub fn apply_phi(&mut self)
        ensures
            final(self)@ == (Sponge { state: phi(old(self)@.state), ..old(self)@ }),
    {
        proof {
            use_type_invariant(&*self);
        }
        self.state = phi_round(&self.state);
    }

    /// Gives out 256 bits: the rate words, a permutation, the rate words again.
    fn squeeze_256(&mut self) -> (output: [u8; 32])
        ensures
            output@ == squeeze(old(self)@.state, 2),
            final(self)@ == (Sponge { state: permutation(old(self)@.state), ..old(self)@ }),
    {
        let mut output: [u8; 32] = [0u8; 32];
        store_word(&mut output, 0, self.state[0]);
        store_word(&mut output, 8, self.state[1]);
        self.permute();
        store_word(&mut output, 16, self.state[0]);
        store_word(&mut output, 24, self.state[1]);
        proof {
            reveal_with_fuel(squeeze, 3);
            assert(output@ =~= squeeze(old(self).state@, 2));
        }
        output
    }

    /// Gives out 512 bits: four times the rate words, a permutation between
    /// each two.
    fn squeeze_512(&mut self) -> (output: [u8; 64])
        ensures
            output@ == squeeze(old(self)@.state, 4),
            final(self)@ == (Sponge {
                state: permutation(permutation(permutation(old(self)@.state))),
                ..old(self)@
            }),
    {
        let mut output: [u8; 64] = [0u8; 64];
        store_word(&mut output, 0, self.state[0]);
        store_word(&mut output, 8, self.state[1]);
        self.permute();
        store_word(&mut output, 16, self.state[0]);
        store_word(&mut output, 24, self.state[1]);
        self.permute();
        store_word(&mut output, 32, self.state[0]);
        store_word(&mut output, 40, self.state[1]);
        self.permute();
        store_word(&mut output, 48, self.state[0]);
        store_word(&mut output, 56, self.state[1]);
        proof {
            reveal_with_fuel(squeeze, 5);
            assert(output@ =~= squeeze(old(self).state@, 4));
        }
        output
    }
}

} // verus!
