//! Reproducible pseudorandom bytes from a 32-byte seed.
//!
//! This crate implements the ChaCha8Rand construction: a 256-bit seed is
//! expanded into an unbounded, bit-exact stream of output bytes. Each
//! iteration produces 992 output bytes plus 32 bytes that become the key of
//! the next iteration. The block transform, the batched kernels, the stream
//! engine, and the snapshot mechanism are all verified against the model in
//! [`guts`]; the portable four- and eight-lane kernels additionally go
//! through a small set of trusted wrappers around the `wide` crate.
//!
//! The generator is deterministic and of high statistical quality, but it is
//! not a substitute for operating-system entropy: do not use it to generate
//! secrets.
pub mod backend;
mod chacha8;
pub mod guts;
pub mod laws;
mod safe_arch;
mod scalar;
mod widex4;
mod widex8;

pub use backend::{Backend, Buffer};
pub use chacha8::{ChaCha8, Seed};

use crate::guts::{
    spec_adv_key, spec_adv_pos, spec_key_iter, spec_le32_at, spec_le64_at, spec_next_key,
    spec_refill_words, spec_seed_bytes, spec_seed_words, spec_stream_byte,
};
use vstd::prelude::*;

verus! {

/// A deterministic stream of pseudorandom bytes from a 32-byte seed.
///
/// The generator is exactly the spec-mandated byte stream: repeated
/// [`ChaCha8Rand::read_bytes`] calls hand the stream out in order, however
/// the total length is split. The word reads [`ChaCha8Rand::read_u32`] and
/// [`ChaCha8Rand::read_u64`] decode the same stream little-endian, with one
/// deliberate quirk at iteration boundaries: a word read never straddles a
/// refill, so when fewer bytes than a full word remain in the current
/// iteration, those trailing bytes are skipped, not returned.
#[derive(Clone)]
pub struct ChaCha8Rand {
    backend: Backend,
    seed: [u32; 8],
    /// Position in the output region of the next unread byte; at most 992.
    bytes_consumed: usize,
    buf: Buffer,
}

/// Snapshot of the state of a [`ChaCha8Rand`] instance.
///
/// Records the seed of the current iteration and how many of that iteration's
/// output bytes were already consumed; that pair pins down all future output.
/// The fields are public so callers can serialize them in any format they
/// like; restoring validates `bytes_consumed`.
#[derive(Clone, Copy, Debug)]
pub struct ChaCha8State {
    /// The seed of the current iteration.
    pub seed: [u8; 32],
    /// How much output of the current iteration was already consumed; valid
    /// snapshots keep this at most 992.
    pub bytes_consumed: u16,
}

/// Error returned from [`ChaCha8Rand::try_restore_state`] for corrupted
/// snapshots: the consumed-byte count exceeds one iteration's output.
#[derive(Debug)]
pub struct RestoreStateError {
    _private: (),
}

impl RestoreStateError {
    /// A short description of the error, for callers that report it.
    pub fn message(&self) -> (r: &'static str)
        ensures
            r@ =~= "could not restore ChaCha8State"@,
    {
        "could not restore ChaCha8State"
    }
}

/// The eight key words decoded little-endian from a 32-byte seed.
pub(crate) fn seed_from_bytes(bytes: &[u8; 32]) -> (r: [u32; 8])
    ensures
        r@ == spec_seed_words(bytes@),
{
    let mut out = [0u32, 0, 0, 0, 0, 0, 0, 0];
    for i in 0..8usize
        invariant
            out@.len() == 8,
            forall|j: int| 0 <= j < i ==> out@[j] == #[trigger] spec_seed_words(bytes@)[j],
    {
        let b0 = bytes[4 * i];
        let b1 = bytes[4 * i + 1];
        let b2 = bytes[4 * i + 2];
        let b3 = bytes[4 * i + 3];
        out[i] = (b0 as u32) | ((b1 as u32) << 8u32) | ((b2 as u32) << 16u32) | ((b3 as u32)
            << 24u32);
    }
    assert(out@ =~= spec_seed_words(bytes@));
    out
}

/// The 32-byte little-endian encoding of the eight key words.
pub(crate) fn seed_to_bytes(seed: &[u32; 8]) -> (r: [u8; 32])
    ensures
        r@ == spec_seed_bytes(seed@),
{
    let mut out: [u8; 32] = vstd::array::array_fill_for_copy_types(0u8);
    for k in 0..32usize
        invariant
            out@.len() == 32,
            forall|j: int| 0 <= j < k ==> out@[j] == #[trigger] spec_seed_bytes(seed@)[j],
    {
        let w = seed[k / 4];
        let sh = ((k % 4) * 8) as u32;
        assert((w >> sh) & 0xff < 256) by (bit_vector);
        out[k] = ((w >> sh) & 0xff) as u8;
    }
    assert(out@ =~= spec_seed_bytes(seed@));
    out
}

impl ChaCha8Rand {
    /// The current key: the eight words the next refill would expand.
    pub closed spec fn key(self) -> Seq<u32> {
        self.seed@
    }

    /// The cursor: how many bytes of the current iteration's output were
    /// already consumed.
    pub closed spec fn pos(self) -> nat {
        self.bytes_consumed as nat
    }

    /// The backend this engine was fixed to at construction.
    pub closed spec fn chosen_backend(self) -> Backend {
        self.backend
    }

    /// Well-formedness: a genuine backend, a cursor within the output region,
    /// and a buffer that is exactly the refill of the current key.
    pub closed spec fn wf(self) -> bool {
        &&& self.seed@.len() == 8
        &&& self.backend.is_genuine()
        &&& self.bytes_consumed <= 992
        &&& self.buf.words@ == spec_refill_words(self.seed@)
    }

    /// Create a new generator from the given seed, with the best backend
    /// detection finds. The first refill happens eagerly, so the next reads
    /// come straight from the new seed.
    pub fn new(seed: &[u8; 32]) -> (r: ChaCha8Rand)
        ensures
            r.wf(),
            r.key() == spec_seed_words(seed@),
            r.pos() == 0,
            r.chosen_backend() == backend::spec_detected(),
    {
        Self::with_backend_impl(seed, backend::detect_best())
    }

    /// Create a new generator from the given seed with an explicitly chosen
    /// backend. Every genuine backend yields the same output stream.
    pub fn with_backend(seed: &[u8; 32], backend: Backend) -> (r: ChaCha8Rand)
        ensures
            r.chosen_backend() == backend,
            r.key() == spec_seed_words(seed@),
            r.pos() == 0,
            backend.is_genuine() ==> r.wf(),
    {
        Self::with_backend_impl(seed, backend)
    }

    fn with_backend_impl(seed: &[u8; 32], backend: Backend) -> (r: ChaCha8Rand)
        ensures
            r.chosen_backend() == backend,
            r.key() == spec_seed_words(seed@),
            r.pos() == 0,
            backend.is_genuine() ==> r.wf(),
    {
        let words: [u32; 256] = vstd::array::array_fill_for_copy_types(0u32);
        let mut this = ChaCha8Rand {
            backend,
            seed: [0u32, 0, 0, 0, 0, 0, 0, 0],
            bytes_consumed: 0,
            buf: Buffer { words },
        };
        this.set_seed(seed);
        this
    }

    /// Reset this generator, as if overwriting it with `ChaCha8Rand::new`
    /// with the same backend: the buffer is refilled from the new seed at
    /// once and the cursor returns to the start of the output region.
    pub fn set_seed(&mut self, seed: &[u8; 32])
        ensures
            final(self).chosen_backend() == old(self).chosen_backend(),
            final(self).key() == spec_seed_words(seed@),
            final(self).pos() == 0,
            old(self).chosen_backend().is_genuine() ==> final(self).wf(),
    {
        self.seed = seed_from_bytes(seed);
        self.backend.refill(&self.seed, &mut self.buf);
        self.bytes_consumed = 0;
    }

    /// Ratchet the key forward with the last 32 buffer bytes and refill; the
    /// sole mechanism that ever advances the key.
    fn refill(&mut self)
        requires
            old(self).wf(),
        ensures
            final(self).wf(),
            final(self).chosen_backend() == old(self).chosen_backend(),
            final(self).key() == spec_next_key(old(self).key()),
            final(self).pos() == 0,
    {
        let mut next = [0u32, 0, 0, 0, 0, 0, 0, 0];
        for i in 0..8usize
            invariant
                next@.len() == 8,
                self.wf(),
                self == old(self),
                forall|j: int| 0 <= j < i ==> next@[j] == self.buf.words@[248 + j],
        {
            next[i] = self.buf.words[248 + i];
        }
        assert(next@ =~= spec_next_key(self.seed@));
        self.seed = next;
        self.backend.refill(&self.seed, &mut self.buf);
        self.bytes_consumed = 0;
    }

    /// Byte `k` of the current buffer's output region.
    fn buffer_byte(&self, k: usize) -> (b: u8)
        requires
            self.wf(),
            k < 992,
        ensures
            b == spec_stream_byte(self.key(), k as nat),
    {
        let w = self.buf.words[k / 4];
        let sh = ((k % 4) * 8) as u32;
        assert((w >> sh) & 0xff < 256) by (bit_vector);
        ((w >> sh) & 0xff) as u8
    }

    /// Consume the next byte of the canonical stream, refilling when the
    /// output region is exhausted.
    fn read_byte(&mut self) -> (b: u8)
        requires
            old(self).wf(),
        ensures
            final(self).wf(),
            final(self).chosen_backend() == old(self).chosen_backend(),
            b == spec_stream_byte(old(self).key(), old(self).pos()),
            old(self).pos() < 992 ==> final(self).key() == old(self).key() && final(self).pos()
                == old(self).pos() + 1,
            old(self).pos() == 992 ==> final(self).key() == spec_next_key(old(self).key())
                && final(self).pos() == 1,
    {
        if self.bytes_consumed >= 992 {
            self.refill();
        }
        let k = self.bytes_consumed;
        let b = self.buffer_byte(k);
        self.bytes_consumed = k + 1;
        b
    }

    /// Consume four bytes and return them as a little-endian `u32`.
    ///
    /// If fewer than four bytes remain before the 992-byte iteration
    /// boundary, the refill happens first and the unread tail bytes are
    /// skipped: a word read never straddles a refill.
    pub fn read_u32(&mut self) -> (r: u32)
        requires
            old(self).wf(),
        ensures
            final(self).wf(),
            final(self).chosen_backend() == old(self).chosen_backend(),
            old(self).pos() <= 988 ==> r == spec_le32_at(old(self).key(), old(self).pos())
                && final(self).key() == old(self).key() && final(self).pos() == old(self).pos()
                + 4,
            old(self).pos() > 988 ==> r == spec_le32_at(old(self).key(), 992) && final(self).key()
                == spec_next_key(old(self).key()) && final(self).pos() == 4,
    {
        if self.bytes_consumed > 988 {
            self.refill();
        }
        let k = self.bytes_consumed;
        let b0 = self.buffer_byte(k);
        let b1 = self.buffer_byte(k + 1);
        let b2 = self.buffer_byte(k + 2);
        let b3 = self.buffer_byte(k + 3);
        self.bytes_consumed = k + 4;
        (b0 as u32) | ((b1 as u32) << 8u32) | ((b2 as u32) << 16u32) | ((b3 as u32) << 24u32)
    }

    /// Consume eight bytes and return them as a little-endian `u64`, with the
    /// same boundary rule as [`ChaCha8Rand::read_u32`].
    pub fn read_u64(&mut self) -> (r: u64)
        requires
            old(self).wf(),
        ensures
            final(self).wf(),
            final(self).chosen_backend() == old(self).chosen_backend(),
            old(self).pos() <= 984 ==> r == spec_le64_at(old(self).key(), old(self).pos())
                && final(self).key() == old(self).key() && final(self).pos() == old(self).pos()
                + 8,
            old(self).pos() > 984 ==> r == spec_le64_at(old(self).key(), 992) && final(self).key()
                == spec_next_key(old(self).key()) && final(self).pos() == 8,
    {
        if self.bytes_consumed > 984 {
            self.refill();
        }
        let k = self.bytes_consumed;
        let b0 = self.buffer_byte(k);
        let b1 = self.buffer_byte(k + 1);
        let b2 = self.buffer_byte(k + 2);
        let b3 = self.buffer_byte(k + 3);
        let b4 = self.buffer_byte(k + 4);
        let b5 = self.buffer_byte(k + 5);
        let b6 = self.buffer_byte(k + 6);
        let b7 = self.buffer_byte(k + 7);
        self.bytes_consumed = k + 8;
        (b0 as u64) | ((b1 as u64) << 8u32) | ((b2 as u64) << 16u32) | ((b3 as u64) << 24u32) | ((
        b4 as u64) << 32u32) | ((b5 as u64) << 40u32) | ((b6 as u64) << 48u32) | ((b7 as u64)
            << 56u32)
    }

    /// Consume bytes of the canonical stream and write them into `dest`.
    ///
    /// This is the gap-free, non-reordering operation: any sequence of
    /// `read_bytes` calls yields the identical concatenation no matter how
    /// the total length is split, and a zero-length read is a no-op.
    pub fn read_bytes(&mut self, dest: &mut [u8])
        requires
            old(self).wf(),
        ensures
            final(self).wf(),
            final(self).chosen_backend() == old(self).chosen_backend(),
            final(dest)@.len() == old(dest)@.len(),
            forall|j: int|
                0 <= j < old(dest)@.len() ==> final(dest)@[j] == spec_stream_byte(
                    old(self).key(),
                    (old(self).pos() + j) as nat,
                ),
            final(self).key() == spec_adv_key(
                old(self).key(),
                old(self).pos(),
                old(dest)@.len() as nat,
            ),
            final(self).pos() == spec_adv_pos(old(self).pos(), old(dest)@.len() as nat),
    {
        let n = dest.len();
        let ghost mut refills: nat = 0nat;
        for t in 0..n
            invariant
                dest@.len() == n,
                self.wf(),
                self.chosen_backend() == old(self).chosen_backend(),
                self.key() == spec_key_iter(old(self).key(), refills),
                992 * refills + self.pos() == old(self).pos() + t,
                t > 0 ==> self.pos() >= 1,
                t == 0 ==> refills == 0 && self.pos() == old(self).pos(),
                forall|j: int|
                    0 <= j < t ==> dest@[j] == spec_stream_byte(
                        old(self).key(),
                        (old(self).pos() + j) as nat,
                    ),
        {
            let ghost pre_pos = self.pos();
            let b = self.read_byte();
            dest[t] = b;
            proof {
                crate::guts::lemma_stream_byte_iter(old(self).key(), refills, pre_pos);
                if pre_pos == 992 {
                    assert(spec_key_iter(old(self).key(), refills + 1) == spec_next_key(
                        spec_key_iter(old(self).key(), refills),
                    ));
                    refills = refills + 1nat;
                }
            }
        }
        proof {
            crate::guts::lemma_advance_unique(old(self).pos(), n as nat, refills, self.pos());
        }
    }

    /// Consume 32 bytes of the canonical stream, suitable for seeding another
    /// generator instance.
    pub fn read_seed(&mut self) -> (r: [u8; 32])
        requires
            old(self).wf(),
        ensures
            final(self).wf(),
            final(self).chosen_backend() == old(self).chosen_backend(),
            forall|j: int|
                0 <= j < 32 ==> r@[j] == spec_stream_byte(
                    old(self).key(),
                    (old(self).pos() + j) as nat,
                ),
            final(self).key() == spec_adv_key(old(self).key(), old(self).pos(), 32),
            final(self).pos() == spec_adv_pos(old(self).pos(), 32),
    {
        let mut out: [u8; 32] = vstd::array::array_fill_for_copy_types(0u8);
        let s = vstd::array::ref_mut_array_unsizing_coercion(&mut out);
        self.read_bytes(s);
        out
    }

    /// Take a snapshot of the generator's current state: the seed of the
    /// current iteration and the consumed-byte count, clamped to the output
    /// region as a defensive measure.
    pub fn clone_state(&self) -> (st: ChaCha8State)
        requires
            self.wf(),
        ensures
            st.seed@ == spec_seed_bytes(self.key()),
            st.bytes_consumed as nat == self.pos(),
    {
        let clamped = if self.bytes_consumed <= 992 {
            self.bytes_consumed
        } else {
            992
        };
        ChaCha8State { seed: seed_to_bytes(&self.seed), bytes_consumed: clamped as u16 }
    }

    /// Restore the generator's state from a snapshot taken before.
    ///
    /// Fails exactly when `bytes_consumed` exceeds the 992 output bytes of
    /// one iteration, and a failed restore leaves the engine untouched. On
    /// success the engine reseeds from the snapshot and skips the consumed
    /// prefix, so it reproduces exactly the output the snapshotted engine
    /// would have produced.
    pub fn try_restore_state(&mut self, state: &ChaCha8State) -> (r: Result<(), RestoreStateError>)
        requires
            old(self).wf(),
        ensures
            final(self).chosen_backend() == old(self).chosen_backend(),
            r is Err <==> state.bytes_consumed > 992,
            r is Err ==> *final(self) == *old(self),
            r is Ok ==> final(self).wf() && final(self).key() == spec_seed_words(state.seed@)
                && final(self).pos() == state.bytes_consumed as nat,
    {
        let bytes_consumed = state.bytes_consumed as usize;
        if bytes_consumed > 992 {
            return Err(RestoreStateError { _private: () });
        }
        self.set_seed(&state.seed);
        self.bytes_consumed = bytes_consumed;
        Ok(())
    }
}

/// Cross-backend equivalence: two well-formed engines whose abstract states
/// agree — in particular, two engines built from the same seed with any two
/// genuine backends — expose the identical output stream, so which backend
/// runs is behaviorally invisible. (That every genuine backend establishes
/// the same abstract state is the postcondition of [`Backend::refill`] and of
/// the constructors.)
pub proof fn lemma_cross_backend_equivalence(a: ChaCha8Rand, b: ChaCha8Rand)
    requires
        a.wf(),
        b.wf(),
        a.key() == b.key(),
        a.pos() == b.pos(),
    ensures
        forall|i: nat| #[trigger] spec_stream_byte(a.key(), i) == spec_stream_byte(b.key(), i),
{
}

/// Snapshot round trip: restoring the snapshot `clone_state` took of a
/// well-formed engine puts any engine into exactly the snapshotted abstract
/// state, so its subsequent output reproduces the original's. The premises
/// are the postconditions of [`ChaCha8Rand::clone_state`] and a successful
/// [`ChaCha8Rand::try_restore_state`].
pub proof fn lemma_snapshot_roundtrip(rng: ChaCha8Rand, st: ChaCha8State, restored: ChaCha8Rand)
    requires
        rng.wf(),
        st.seed@ == spec_seed_bytes(rng.key()),
        st.bytes_consumed as nat == rng.pos(),
        restored.key() == spec_seed_words(st.seed@),
        restored.pos() == st.bytes_consumed as nat,
    ensures
        restored.key() == rng.key(),
        restored.pos() == rng.pos(),
{
    crate::guts::lemma_seed_roundtrip(rng.key());
}

} // verus!
