//! Backends: opaque capability values wrapping a verified batch-fill kernel.
//!
//! A `Backend` stands for one implementation of the batched block transform.
//! Every genuine backend fills the buffer with exactly the same words for a
//! given key — `spec_refill_words` — so backend selection is behaviorally
//! invisible to callers. Selection never fails: the scalar kernel is always
//! available as the last resort.
use crate::guts::spec_refill_words;
use crate::scalar;
use crate::widex4;
use crate::widex8;
use vstd::prelude::*;

verus! {

/// The fixed working buffer one refill fills: 256 words, of which the first
/// 248 are output and the last 8 become the next key.
#[derive(Clone)]
pub struct Buffer {
    /// The buffer contents, as 32-bit words in little-endian byte order.
    pub words: [u32; 256],
}

/// Which kernel a backend dispatches to.
#[derive(Clone, Copy, PartialEq, Eq, Structural, Debug)]
pub(crate) enum Kind {
    /// One block at a time, plain arithmetic.
    Scalar,
    /// Four blocks in lock-step over 128-bit lanes.
    WideX4,
    /// Eight blocks in lock-step over 256-bit lanes.
    WideX8,
    /// A deliberately inert kernel that fills nothing; only useful to measure
    /// the baseline overhead of the engine in benchmarks.
    Stub,
}

/// An opaque capability value wrapping a verified batch-fill kernel.
///
/// Every constructor except the loudly named stub yields a genuine backend,
/// and all genuine backends produce bit-identical buffers.
#[derive(Clone, Copy, PartialEq, Eq, Structural, Debug)]
pub struct Backend {
    kind: Kind,
}

impl Backend {
    /// Whether this backend actually computes the block transform; false only
    /// for the deliberately inert stub.
    pub closed spec fn is_genuine(self) -> bool {
        self.kind != Kind::Stub
    }

    /// The always-available scalar kernel.
    pub fn scalar() -> (r: Backend)
        ensures
            r.is_genuine(),
            r == Backend::spec_scalar(),
    {
        Backend { kind: Kind::Scalar }
    }

    /// The scalar backend, as a spec-level value.
    pub closed spec fn spec_scalar() -> Backend {
        Backend { kind: Kind::Scalar }
    }

    /// The portable four-lane kernel (128-bit SIMD wherever the `wide` crate
    /// finds it, a plain four-lane loop elsewhere).
    pub fn widex4() -> (r: Backend)
        ensures
            r.is_genuine(),
            r == Backend::spec_widex4(),
    {
        Backend { kind: Kind::WideX4 }
    }

    /// The four-lane backend, as a spec-level value.
    pub closed spec fn spec_widex4() -> Backend {
        Backend { kind: Kind::WideX4 }
    }

    /// The portable eight-lane kernel (256-bit SIMD wherever the `wide`
    /// crate finds it, two 128-bit halves elsewhere).
    pub fn widex8() -> (r: Backend)
        ensures
            r.is_genuine(),
            r == Backend::spec_widex8(),
    {
        Backend { kind: Kind::WideX8 }
    }

    /// The eight-lane backend, as a spec-level value.
    pub closed spec fn spec_widex8() -> Backend {
        Backend { kind: Kind::WideX8 }
    }

    /// The portable 128-bit kernel; four lanes wide on every target.
    pub fn simd128() -> (r: Backend)
        ensures
            r.is_genuine(),
    {
        Backend::widex4()
    }

    /// The raw AVX2 kernel would need unsafe hardware intrinsics, which this
    /// library keeps outside its verified core, so detection reports it as
    /// unavailable and selection falls through to the portable eight-lane
    /// kernel of the same width.
    pub fn avx2() -> (r: Option<Backend>)
        ensures
            r is None,
    {
        None
    }

    /// See [`Backend::avx2`]: runtime-probed AVX2 stays outside the verified
    /// core.
    pub fn x86_avx2() -> (r: Option<Backend>)
        ensures
            r is None,
    {
        None
    }

    /// The raw SSE2 kernel would need unsafe hardware intrinsics; the
    /// portable four-lane kernel covers that width on every target.
    pub fn x86_sse2() -> (r: Option<Backend>)
        ensures
            r is None,
    {
        None
    }

    /// The raw NEON kernel would need unsafe hardware intrinsics; the
    /// portable four-lane kernel covers that width on every target.
    pub fn aarch64_neon() -> (r: Option<Backend>)
        ensures
            r is None,
    {
        None
    }

    /// The wasm32 simd128 kernel only exists when compiling to Webassembly;
    /// the portable four-lane kernel covers that width on every target.
    pub fn wasm32_simd128() -> (r: Option<Backend>)
        ensures
            r is None,
    {
        None
    }

    /// Does not compute ChaCha8 output; it does not refill the buffer at all.
    /// Only useful for a benchmark that estimates the baseline overhead of
    /// reading from the engine.
    pub fn totally_wrong_stub_for_testing_that_breaks_everything_if_you_actually_use_it() -> (r:
        Backend)
        ensures
            !r.is_genuine(),
    {
        Backend { kind: Kind::Stub }
    }

    /// Run this backend's kernel: overwrite the whole buffer from `key`.
    ///
    /// Every genuine backend produces exactly the model buffer, so which one
    /// runs cannot be observed through the output.
    pub fn refill(self, key: &[u32; 8], buf: &mut Buffer)
        ensures
            self.is_genuine() ==> final(buf).words@ == spec_refill_words(key@),
            !self.is_genuine() ==> final(buf).words@ == old(buf).words@,
    {
        match self.kind {
            Kind::Scalar => scalar::fill_buf(key, buf),
            Kind::WideX4 => widex4::fill_buf(key, buf),
            Kind::WideX8 => widex8::fill_buf(key, buf),
            Kind::Stub => (),
        }
    }
}

/// Pick the fastest backend available, widest first: the runtime-probed raw
/// AVX2 kernel, then the portable eight-lane kernel, which is always
/// available, so the narrower kernels and the scalar last resort are never
/// reached here. Detection never fails, and it is deterministic, so repeated
/// detection always yields the same backend.
pub(crate) fn detect_best() -> (r: Backend)
    ensures
        r.is_genuine(),
        r == spec_detected(),
{
    if let Some(b) = Backend::x86_avx2() {
        return b;
    }
    Backend::widex8()
}

/// The backend that detection on this build always picks.
pub closed spec fn spec_detected() -> Backend {
    Backend { kind: Kind::WideX8 }
}

} // verus!
