//! A leaner reader that serves the output one 32-bit word at a time.
//!
//! Where [`crate::ChaCha8Rand`] tracks a byte cursor, [`ChaCha8`] walks the
//! 248 output words of each iteration directly; its stream is the byte stream
//! read in aligned four-byte steps.
use crate::backend::{detect_best, Backend, Buffer};
use crate::guts::{spec_next_key, spec_refill_words, spec_seed_words, spec_stream_word};
use crate::seed_from_bytes;
use vstd::prelude::*;

verus! {

/// A 256-bit seed in decoded form: the eight key words, little-endian.
pub struct Seed([u32; 8]);

impl Seed {
    /// The eight key words this seed holds.
    pub closed spec fn words(self) -> Seq<u32> {
        self.0@
    }

    /// Decode a 32-byte seed little-endian into its eight key words.
    pub fn from(bytes: &[u8; 32]) -> (r: Seed)
        ensures
            r.words() == spec_seed_words(bytes@),
            r.words().len() == 8,
    {
        Seed(seed_from_bytes(bytes))
    }
}

/// A generator that serves the canonical output one `u32` word at a time.
pub struct ChaCha8 {
    seed: [u32; 8],
    /// Index of the next unread word in the output region; at most 248.
    i: usize,
    buf: Buffer,
    backend: Backend,
}

/// Pick the backend a new [`ChaCha8`] uses: the runtime-probed raw AVX2
/// kernel first, then the widest portable kernel, which is always available.
pub(crate) fn backend_detect() -> (r: Backend)
    ensures
        r.is_genuine(),
        r == crate::backend::spec_detected(),
{
    if let Some(b) = Backend::avx2() {
        return b;
    }
    detect_best()
}

impl ChaCha8 {
    /// The current key.
    pub closed spec fn word_key(self) -> Seq<u32> {
        self.seed@
    }

    /// How many words of the current iteration were already served.
    pub closed spec fn word_pos(self) -> nat {
        self.i as nat
    }

    /// The backend this generator was fixed to at construction.
    pub closed spec fn chosen_backend(self) -> Backend {
        self.backend
    }

    /// Well-formedness: a genuine backend, a word cursor within the output
    /// region, and a buffer that is exactly the refill of the current key.
    pub closed spec fn wf(self) -> bool {
        &&& self.seed@.len() == 8
        &&& self.backend.is_genuine()
        &&& self.i <= 248
        &&& self.buf.words@ == spec_refill_words(self.seed@)
    }

    /// Create a new generator from the given seed, with the best backend
    /// detection finds.
    pub fn new(seed: Seed) -> (r: ChaCha8)
        ensures
            r.wf(),
            r.word_key() == seed.words(),
            r.word_pos() == 0,
    {
        Self::with_backend(seed, backend_detect())
    }

    /// Create a new generator with an explicitly chosen backend; every
    /// genuine backend yields the same word stream.
    pub fn with_backend(seed: Seed, backend: Backend) -> (r: ChaCha8)
        ensures
            r.chosen_backend() == backend,
            r.word_key() == seed.words(),
            r.word_pos() == 0,
            backend.is_genuine() ==> r.wf(),
    {
        let words: [u32; 256] = vstd::array::array_fill_for_copy_types(0u32);
        let mut this = ChaCha8 { seed: seed.0, i: 0, buf: Buffer { words }, backend };
        this.backend.refill(&this.seed, &mut this.buf);
        this
    }

    /// Serve the next word of the output word stream, ratcheting the key and
    /// refilling once the 248 output words of an iteration are exhausted.
    pub fn next_u32(&mut self) -> (r: u32)
        requires
            old(self).wf(),
        ensures
            final(self).wf(),
            final(self).chosen_backend() == old(self).chosen_backend(),
            r == spec_stream_word(old(self).word_key(), old(self).word_pos()),
            old(self).word_pos() < 248 ==> final(self).word_key() == old(self).word_key()
                && final(self).word_pos() == old(self).word_pos() + 1,
            old(self).word_pos() == 248 ==> final(self).word_key() == spec_next_key(
                old(self).word_key(),
            ) && final(self).word_pos() == 1,
    {
        if self.i >= 248 {
            let mut next = [0u32, 0, 0, 0, 0, 0, 0, 0];
            for k in 0..8usize
                invariant
                    next@.len() == 8,
                    self.wf(),
                    self == old(self),
                    forall|j: int| 0 <= j < k ==> next@[j] == self.buf.words@[248 + j],
            {
                next[k] = self.buf.words[248 + k];
            }
            assert(next@ =~= spec_next_key(self.seed@));
            self.seed = next;
            self.backend.refill(&self.seed, &mut self.buf);
            self.i = 0;
        }
        let r = self.buf.words[self.i];
        proof {
            if old(self).word_pos() == 248 {
                assert(spec_stream_word(old(self).word_key(), 248) == spec_stream_word(
                    spec_next_key(old(self).word_key()),
                    0,
                ));
            }
            assert(r == spec_refill_words(self.seed@)[self.i as int]);
        }
        self.i = self.i + 1;
        r
    }
}

} // verus!
