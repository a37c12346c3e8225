//! The scalar kernel: one block per counter value, plain 32-bit arithmetic.
//!
//! This kernel is the portable last resort of the backend family and the
//! executable mirror of the model in [`crate::guts`]: its buffer layout (four
//! groups of four blocks, words interleaved with stride four) is exactly
//! `spec_refill_words`.
use crate::backend::Buffer;
use crate::guts::{
    lemma_quad_block_layout, spec_block, spec_column_round, spec_double_round, spec_init_state,
    spec_qr, spec_qr_at, spec_refill_words, spec_rotl, spec_rounds, C0, C1, C2, C3,
};
use vstd::prelude::*;

verus! {

/// Left-rotation of a 32-bit word by `n` bits.
pub(crate) fn rotl(x: u32, n: u32) -> (r: u32)
    requires
        0 < n < 32,
    ensures
        r == spec_rotl(x, n),
{
    (x << n) | (x >> ((32 - n) as u32))
}

/// One quarter-round over four words.
pub(crate) fn quarter_round(v: [u32; 4]) -> (r: [u32; 4])
    ensures
        (r[0], r[1], r[2], r[3]) == spec_qr(v[0], v[1], v[2], v[3]),
{
    let mut a = v[0];
    let mut b = v[1];
    let mut c = v[2];
    let mut d = v[3];
    a = a.wrapping_add(b);
    d = rotl(d ^ a, 16);
    c = c.wrapping_add(d);
    b = rotl(b ^ c, 12);
    a = a.wrapping_add(b);
    d = rotl(d ^ a, 8);
    c = c.wrapping_add(d);
    b = rotl(b ^ c, 7);
    [a, b, c, d]
}

/// Apply one quarter-round to the state words at positions `a, b, c, d`.
fn qr_at(x: &mut [u32; 16], a: usize, b: usize, c: usize, d: usize)
    requires
        a < 16,
        b < 16,
        c < 16,
        d < 16,
    ensures
        final(x)@ == spec_qr_at(old(x)@, a as int, b as int, c as int, d as int),
{
    let r = quarter_round([x[a], x[b], x[c], x[d]]);
    x[a] = r[0];
    x[b] = r[1];
    x[c] = r[2];
    x[d] = r[3];
    assert(x@ =~= spec_qr_at(old(x)@, a as int, b as int, c as int, d as int));
}

/// The 4x4 initial state for one block.
pub(crate) fn init_state(key: &[u32; 8], ctr: u32) -> (x: [u32; 16])
    ensures
        x@ == spec_init_state(key@, ctr),
{
    let x = [
        C0,
        C1,
        C2,
        C3,
        key[0],
        key[1],
        key[2],
        key[3],
        key[4],
        key[5],
        key[6],
        key[7],
        ctr,
        0u32,
        0u32,
        0u32,
    ];
    assert(x@ =~= spec_init_state(key@, ctr));
    x
}

/// Eight rounds, grouped as four double rounds of columns then diagonals.
pub(crate) fn eight_rounds(x: &mut [u32; 16])
    ensures
        final(x)@ == spec_rounds(old(x)@, 4),
{
    for r in 0..4usize
        invariant
            x@ == spec_rounds(old(x)@, r as nat),
    {
        let ghost before = x@;
        qr_at(x, 0, 4, 8, 12);
        qr_at(x, 1, 5, 9, 13);
        qr_at(x, 2, 6, 10, 14);
        qr_at(x, 3, 7, 11, 15);
        assert(x@ == spec_column_round(before));
        qr_at(x, 0, 5, 10, 15);
        qr_at(x, 1, 6, 11, 12);
        qr_at(x, 2, 7, 8, 13);
        qr_at(x, 3, 4, 9, 14);
        assert(x@ == spec_double_round(before));
        assert(spec_rounds(old(x)@, (r + 1) as nat) == spec_double_round(
            spec_rounds(old(x)@, r as nat),
        ));
    }
}

/// Compute the block for `ctr` and store its sixteen words into the buffer
/// with stride four, starting at `base`.
fn block_strided(key: &[u32; 8], ctr: u32, words: &mut [u32; 256], base: usize)
    requires
        base + 61 <= 256,
    ensures
        forall|i: int|
            0 <= i < 16 ==> final(words)@[base + 4 * i] == #[trigger] spec_block(key@, ctr)[i],
        forall|p: int|
            0 <= p < 256 && !(base <= p < base + 64 && (p - base) % 4 == 0)
                ==> final(words)@[p] == old(words)@[p],
{
    let mut x = init_state(key, ctr);
    eight_rounds(&mut x);
    let ghost mixed = x@;
    for i in 4..12usize
        invariant
            x@.len() == 16,
            forall|j: int| 0 <= j < i ==> x@[j] == spec_block(key@, ctr)[j],
            forall|j: int| i <= j < 16 ==> x@[j] == mixed[j],
            mixed == spec_rounds(spec_init_state(key@, ctr), 4),
    {
        x[i] = x[i].wrapping_add(key[i - 4]);
    }
    assert(forall|j: int| 0 <= j < 16 ==> x@[j] == spec_block(key@, ctr)[j]);
    for i in 0..16usize
        invariant
            base + 61 <= 256,
            x@.len() == 16,
            forall|j: int| 0 <= j < 16 ==> x@[j] == spec_block(key@, ctr)[j],
            forall|j: int| 0 <= j < i ==> words@[base + 4 * j] == #[trigger] spec_block(key@, ctr)[j],
            forall|p: int|
                0 <= p < 256 && !(base <= p < base + 4 * i && (p - base) % 4 == 0)
                    ==> words@[p] == old(words)@[p],
    {
        words[base + 4 * i] = x[i];
    }
}

/// Compute the four blocks of group `q` (counters `4q .. 4q+4`) and interleave
/// their words into the 64-word region of the buffer that the group owns.
fn quad_block(key: &[u32; 8], q: usize, words: &mut [u32; 256])
    requires
        q < 4,
    ensures
        forall|p: int|
            64 * q <= p < 64 * q + 64
                ==> final(words)@[p] == #[trigger] spec_refill_words(key@)[p],
        forall|p: int| 0 <= p < 64 * q ==> final(words)@[p] == old(words)@[p],
        forall|p: int| 64 * q + 64 <= p < 256 ==> final(words)@[p] == old(words)@[p],
{
    let ctr = (q * 4) as u32;
    let base = q * 64;
    block_strided(key, ctr, words, base);
    block_strided(key, ctr + 1, words, base + 1);
    block_strided(key, ctr + 2, words, base + 2);
    block_strided(key, ctr + 3, words, base + 3);
    proof {
        lemma_quad_block_layout(key@, q as int, words@);
    }
}

/// Fill the whole buffer from `key`: sixteen blocks in four groups of four.
pub(crate) fn fill_buf(key: &[u32; 8], buf: &mut Buffer)
    ensures
        final(buf).words@ == spec_refill_words(key@),
{
    for q in 0..4usize
        invariant
            forall|p: int|
                0 <= p < 64 * q ==> buf.words@[p] == #[trigger] spec_refill_words(key@)[p],
    {
        quad_block(key, q, &mut buf.words);
    }
    assert(buf.words@ =~= spec_refill_words(key@));
}

} // verus!
