//! The eight-lane kernel: eight blocks computed in lock-step over 256-bit
//! lanes, through the wrappers in [`crate::safe_arch`].
//!
//! Lane `l` of the vector state carries the scalar state of the block with
//! counter `8c + l` for chunk `c`. The stores split each vector in half: the
//! low four lanes fill one 64-word group and the high four lanes fill the
//! next, so the buffer is bit-identical to the scalar and four-lane kernels.
use crate::backend::Buffer;
use crate::guts::{
    lemma_quad_block_layout, spec_block, spec_column_round, spec_double_round, spec_init_state,
    spec_qr, spec_qr_at, spec_refill_words, spec_rotl, spec_rounds, C0, C1, C2, C3,
};
use crate::safe_arch::{
    add8_u32, from_elems8, lanes8, or8, shift_left8_u32, shift_right8_u32, splat8, to_elems8, xor8,
};
use vstd::prelude::*;

verus! {

/// The scalar state that lane `l` of a vector state carries.
pub(crate) open spec fn lane_state(x: Seq<wide::u32x8>, l: int) -> Seq<u32> {
    Seq::new(x.len(), |i: int| lanes8(x[i])[l])
}

/// Lanewise left rotation by `n` bits.
fn rotl(v: wide::u32x8, n: u32) -> (r: wide::u32x8)
    requires
        0 < n < 32,
    ensures
        lanes8(r).len() == 8,
        forall|l: int| 0 <= l < 8 ==> lanes8(r)[l] == spec_rotl(lanes8(v)[l], n),
{
    or8(shift_left8_u32(v, n), shift_right8_u32(v, 32 - n))
}

/// One quarter-round over four vector words; lane `l` undergoes exactly the
/// scalar quarter-round.
fn quarter_round(v: [wide::u32x8; 4]) -> (r: [wide::u32x8; 4])
    ensures
        lanes8(r[0]).len() == 8 && lanes8(r[1]).len() == 8 && lanes8(r[2]).len() == 8 && lanes8(
            r[3],
        ).len() == 8,
        forall|l: int|
            0 <= l < 8 ==> (lanes8(r[0])[l], lanes8(r[1])[l], lanes8(r[2])[l], lanes8(r[3])[l])
                == spec_qr(lanes8(v[0])[l], lanes8(v[1])[l], lanes8(v[2])[l], lanes8(v[3])[l]),
{
    let mut a = v[0];
    let mut b = v[1];
    let mut c = v[2];
    let mut d = v[3];
    a = add8_u32(a, b);
    d = rotl(xor8(d, a), 16);
    c = add8_u32(c, d);
    b = rotl(xor8(b, c), 12);
    a = add8_u32(a, b);
    d = rotl(xor8(d, a), 8);
    c = add8_u32(c, d);
    b = rotl(xor8(b, c), 7);
    [a, b, c, d]
}

/// Apply one vector quarter-round to the state words at `a, b, c, d`.
fn qr_at(x: &mut [wide::u32x8; 16], a: usize, b: usize, c: usize, d: usize)
    requires
        a < 16,
        b < 16,
        c < 16,
        d < 16,
    ensures
        forall|l: int|
            0 <= l < 8 ==> #[trigger] lane_state(final(x)@, l) == spec_qr_at(
                lane_state(old(x)@, l),
                a as int,
                b as int,
                c as int,
                d as int,
            ),
{
    let r = quarter_round([x[a], x[b], x[c], x[d]]);
    x[a] = r[0];
    x[b] = r[1];
    x[c] = r[2];
    x[d] = r[3];
    assert forall|l: int| 0 <= l < 8 implies #[trigger] lane_state(x@, l) =~= spec_qr_at(
        lane_state(old(x)@, l),
        a as int,
        b as int,
        c as int,
        d as int,
    ) by {}
}

/// Eight rounds on the vector state: every lane undergoes the scalar rounds.
fn eight_rounds(x: &mut [wide::u32x8; 16])
    ensures
        forall|l: int|
            0 <= l < 8 ==> #[trigger] lane_state(final(x)@, l) == spec_rounds(
                lane_state(old(x)@, l),
                4,
            ),
{
    for r in 0..4usize
        invariant
            forall|l: int|
                0 <= l < 8 ==> #[trigger] lane_state(x@, l) == spec_rounds(
                    lane_state(old(x)@, l),
                    r as nat,
                ),
    {
        let ghost before = x@;
        qr_at(x, 0, 4, 8, 12);
        qr_at(x, 1, 5, 9, 13);
        qr_at(x, 2, 6, 10, 14);
        qr_at(x, 3, 7, 11, 15);
        assert(forall|l: int|
            0 <= l < 8 ==> #[trigger] lane_state(x@, l) == spec_column_round(
                lane_state(before, l),
            ));
        qr_at(x, 0, 5, 10, 15);
        qr_at(x, 1, 6, 11, 12);
        qr_at(x, 2, 7, 8, 13);
        qr_at(x, 3, 4, 9, 14);
        assert(forall|l: int|
            0 <= l < 8 ==> #[trigger] lane_state(x@, l) == spec_double_round(
                lane_state(before, l),
            ));
        assert(forall|l: int|
            0 <= l < 8 ==> spec_rounds(#[trigger] lane_state(old(x)@, l), (r + 1) as nat)
                == spec_double_round(spec_rounds(lane_state(old(x)@, l), r as nat)));
    }
}

/// Word `j` of the block with counter `8c + l`.
pub(crate) open spec fn block_word(key: Seq<u32>, c: int, l: int, j: int) -> u32 {
    spec_block(key, (8 * c + l) as u32)[j]
}

/// Lane `l` of vector word `j` of a vector state.
pub(crate) open spec fn lane_word(x: Seq<wide::u32x8>, j: int, l: int) -> u32 {
    lanes8(x[j])[l]
}

/// Compute the eight blocks of chunk `c` (counters `8c .. 8c+8`) in lock-step
/// and interleave their words into the chunk's 128-word region: lane `l` of
/// vector word `j` lands at position `128c + 4j + l` for the low four lanes
/// and at `128c + 64 + 4j + (l - 4)` for the high four.
#[verifier::rlimit(100)]
fn oct_block(key: &[u32; 8], c: usize, words: &mut [u32; 256])
    requires
        c < 2,
    ensures
        forall|p: int|
            128 * c <= p < 128 * c + 128
                ==> final(words)@[p] == #[trigger] spec_refill_words(key@)[p],
        forall|p: int| 0 <= p < 128 * c ==> final(words)@[p] == old(words)@[p],
        forall|p: int| 128 * c + 128 <= p < 256 ==> final(words)@[p] == old(words)@[p],
{
    let base = c * 128;
    let c0 = (c * 8) as u32;
    let ctr = from_elems8([c0, c0 + 1, c0 + 2, c0 + 3, c0 + 4, c0 + 5, c0 + 6, c0 + 7]);
    let mut x = [
        splat8(C0),
        splat8(C1),
        splat8(C2),
        splat8(C3),
        splat8(key[0]),
        splat8(key[1]),
        splat8(key[2]),
        splat8(key[3]),
        splat8(key[4]),
        splat8(key[5]),
        splat8(key[6]),
        splat8(key[7]),
        ctr,
        splat8(0),
        splat8(0),
        splat8(0),
    ];
    assert forall|l: int| 0 <= l < 8 implies #[trigger] lane_state(x@, l) =~= spec_init_state(
        key@,
        (8 * c + l) as u32,
    ) by {}
    eight_rounds(&mut x);
    let ghost mixed = x@;
    assert forall|l: int, j: int| 0 <= l < 8 && 0 <= j < 16 implies #[trigger] lane_word(
        mixed,
        j,
        l,
    ) == lane_state(mixed, l)[j] by {}
    assert forall|l: int, j: int| 0 <= l < 8 && 0 <= j < 4 implies #[trigger] lane_word(x@, j, l)
        == block_word(key@, c as int, l, j) by {
        assert(lane_state(x@, l) == spec_rounds(spec_init_state(key@, (8 * c + l) as u32), 4));
        assert(lane_word(x@, j, l) == lane_state(x@, l)[j]);
    }
    for i in 4..12usize
        invariant
            x@.len() == 16,
            mixed.len() == 16,
            forall|l: int, j: int|
                0 <= l < 8 && 0 <= j < i ==> #[trigger] lane_word(x@, j, l) == block_word(
                    key@,
                    c as int,
                    l,
                    j,
                ),
            forall|l: int, j: int|
                0 <= l < 8 && i <= j < 16 ==> #[trigger] lane_word(x@, j, l) == lane_word(
                    mixed,
                    j,
                    l,
                ),
            forall|l: int|
                0 <= l < 8 ==> #[trigger] lane_state(mixed, l) == spec_rounds(
                    spec_init_state(key@, (8 * c + l) as u32),
                    4,
                ),
    {
        let ghost xs0 = x@;
        x[i] = add8_u32(x[i], splat8(key[i - 4]));
        assert forall|l: int| 0 <= l < 8 implies #[trigger] lane_word(x@, i as int, l)
            == block_word(key@, c as int, l, i as int) by {
            assert(lane_word(xs0, i as int, l) == lane_word(mixed, i as int, l));
            assert(lane_state(mixed, l)[i as int] == lane_word(mixed, i as int, l));
            assert(lane_word(x@, i as int, l) == lane_word(xs0, i as int, l).wrapping_add(
                key@[i - 4],
            ));
        }
        assert forall|l: int, j: int| 0 <= l < 8 && 0 <= j < i implies #[trigger] lane_word(
            x@,
            j,
            l,
        ) == block_word(key@, c as int, l, j) by {
            assert(x@[j] == xs0[j]);
            assert(lane_word(xs0, j, l) == block_word(key@, c as int, l, j));
        }
        assert forall|l: int, j: int| 0 <= l < 8 && i + 1 <= j < 16 implies #[trigger] lane_word(
            x@,
            j,
            l,
        ) == lane_word(mixed, j, l) by {
            assert(x@[j] == xs0[j]);
            assert(lane_word(xs0, j, l) == lane_word(mixed, j, l));
        }
    }
    assert forall|l: int, j: int| 0 <= l < 8 && 0 <= j < 16 implies #[trigger] lane_word(x@, j, l)
        == block_word(key@, c as int, l, j) by {
        if 12 <= j {
            assert(lane_word(x@, j, l) == lane_word(mixed, j, l));
            assert(lane_word(mixed, j, l) == lane_state(mixed, l)[j]);
        }
    }
    for i in 0..16usize
        invariant
            base == 128 * c,
            c < 2,
            x@.len() == 16,
            forall|l: int, j: int|
                0 <= l < 8 && 0 <= j < 16 ==> #[trigger] lane_word(x@, j, l) == block_word(
                    key@,
                    c as int,
                    l,
                    j,
                ),
            forall|l: int, j: int|
                0 <= l < 4 && 0 <= j < i ==> words@[base + 4 * j + l] == #[trigger] block_word(
                    key@,
                    c as int,
                    l,
                    j,
                ),
            forall|l: int, j: int|
                4 <= l < 8 && 0 <= j < i ==> words@[base + 64 + 4 * j + (l - 4)]
                    == #[trigger] block_word(key@, c as int, l, j),
            forall|p: int|
                0 <= p < 256 && !(base <= p < base + 4 * i) && !(base + 64 <= p < base + 64 + 4
                    * i) ==> words@[p] == old(words)@[p],
    {
        let e = to_elems8(x[i]);
        words[base + 4 * i] = e[0];
        words[base + 4 * i + 1] = e[1];
        words[base + 4 * i + 2] = e[2];
        words[base + 4 * i + 3] = e[3];
        words[base + 64 + 4 * i] = e[4];
        words[base + 64 + 4 * i + 1] = e[5];
        words[base + 64 + 4 * i + 2] = e[6];
        words[base + 64 + 4 * i + 3] = e[7];
        assert forall|l: int| 0 <= l < 4 implies words@[base + 4 * i + l] == #[trigger] block_word(
            key@,
            c as int,
            l,
            i as int,
        ) by {
            assert(e@[l] == lane_word(x@, i as int, l));
        }
        assert forall|l: int| 4 <= l < 8 implies words@[base + 64 + 4 * i + (l - 4)]
            == #[trigger] block_word(key@, c as int, l, i as int) by {
            assert(e@[l] == lane_word(x@, i as int, l));
        }
    }
    proof {
        let q0 = 2 * c as int;
        let q1 = 2 * c + 1;
        assert forall|b: int, i: int| 0 <= b < 4 && 0 <= i < 16 implies words@[64 * q0 + b + 4 * i]
            == #[trigger] spec_block(key@, ((4 * q0 + b) as u32))[i] by {
            assert(words@[base + 4 * i + b] == block_word(key@, c as int, b, i));
        }
        assert forall|b: int, i: int| 0 <= b < 4 && 0 <= i < 16 implies words@[64 * q1 + b + 4 * i]
            == #[trigger] spec_block(key@, ((4 * q1 + b) as u32))[i] by {
            assert(words@[base + 64 + 4 * i + b] == block_word(key@, c as int, b + 4, i));
        }
        lemma_quad_block_layout(key@, q0, words@);
        lemma_quad_block_layout(key@, q1, words@);
    }
}

/// Fill the whole buffer from `key`: sixteen blocks in two lock-step chunks
/// of eight.
pub(crate) fn fill_buf(key: &[u32; 8], buf: &mut Buffer)
    ensures
        final(buf).words@ == spec_refill_words(key@),
{
    for c in 0..2usize
        invariant
            forall|p: int|
                0 <= p < 128 * c ==> buf.words@[p] == #[trigger] spec_refill_words(key@)[p],
    {
        oct_block(key, c, &mut buf.words);
    }
    assert(buf.words@ =~= spec_refill_words(key@));
}

} // verus!
