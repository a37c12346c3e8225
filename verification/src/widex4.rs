//! The four-lane kernel: four blocks per group computed in lock-step, with
//! each scalar operation of the quarter-round becoming a lanewise vector
//! operation through the wrappers in [`crate::safe_arch`].
//!
//! Lane `l` of the vector state carries the scalar state of the block with
//! counter `4q + l`, so each lane is verified against the very same
//! `spec_block` as the scalar kernel, and the buffer this kernel fills is
//! bit-identical to the scalar one.
use crate::backend::Buffer;
use crate::guts::{
    lemma_quad_block_layout, spec_block, spec_column_round, spec_double_round, spec_init_state,
    spec_qr, spec_qr_at, spec_refill_words, spec_rotl, spec_rounds, C0, C1, C2, C3,
};
use crate::safe_arch::{
    add_u32, from_elems, lanes, or, shift_left_u32, shift_right_u32, splat, to_elems, xor,
};
use vstd::prelude::*;

verus! {

/// The scalar state that lane `l` of a vector state carries.
pub(crate) open spec fn lane_state(x: Seq<wide::u32x4>, l: int) -> Seq<u32> {
    Seq::new(x.len(), |i: int| lanes(x[i])[l])
}

/// Lanewise left rotation by `n` bits.
fn rotl(v: wide::u32x4, n: u32) -> (r: wide::u32x4)
    requires
        0 < n < 32,
    ensures
        lanes(r).len() == 4,
        forall|l: int| 0 <= l < 4 ==> lanes(r)[l] == spec_rotl(lanes(v)[l], n),
{
    or(shift_left_u32(v, n), shift_right_u32(v, 32 - n))
}

/// One quarter-round over four vector words; lane `l` undergoes exactly the
/// scalar quarter-round.
fn quarter_round(v: [wide::u32x4; 4]) -> (r: [wide::u32x4; 4])
    ensures
        lanes(r[0]).len() == 4 && lanes(r[1]).len() == 4 && lanes(r[2]).len() == 4 && lanes(
            r[3],
        ).len() == 4,
        forall|l: int|
            0 <= l < 4 ==> (lanes(r[0])[l], lanes(r[1])[l], lanes(r[2])[l], lanes(r[3])[l])
                == spec_qr(lanes(v[0])[l], lanes(v[1])[l], lanes(v[2])[l], lanes(v[3])[l]),
{
    let mut a = v[0];
    let mut b = v[1];
    let mut c = v[2];
    let mut d = v[3];
    a = add_u32(a, b);
    d = rotl(xor(d, a), 16);
    c = add_u32(c, d);
    b = rotl(xor(b, c), 12);
    a = add_u32(a, b);
    d = rotl(xor(d, a), 8);
    c = add_u32(c, d);
    b = rotl(xor(b, c), 7);
    [a, b, c, d]
}

/// Apply one vector quarter-round to the state words at `a, b, c, d`.
fn qr_at(x: &mut [wide::u32x4; 16], a: usize, b: usize, c: usize, d: usize)
    requires
        a < 16,
        b < 16,
        c < 16,
        d < 16,
    ensures
        forall|l: int|
            0 <= l < 4 ==> #[trigger] lane_state(final(x)@, l) == spec_qr_at(
                lane_state(old(x)@, l),
                a as int,
                b as int,
                c as int,
                d as int,
            ),
{
    let r = quarter_round([x[a], x[b], x[c], x[d]]);
    x[a] = r[0];
    x[b] = r[1];
    x[c] = r[2];
    x[d] = r[3];
    assert forall|l: int| 0 <= l < 4 implies #[trigger] lane_state(x@, l) =~= spec_qr_at(
        lane_state(old(x)@, l),
        a as int,
        b as int,
        c as int,
        d as int,
    ) by {}
}

/// Eight rounds on the vector state: every lane undergoes the scalar rounds.
fn eight_rounds(x: &mut [wide::u32x4; 16])
    ensures
        forall|l: int|
            0 <= l < 4 ==> #[trigger] lane_state(final(x)@, l) == spec_rounds(
                lane_state(old(x)@, l),
                4,
            ),
{
    for r in 0..4usize
        invariant
            forall|l: int|
                0 <= l < 4 ==> #[trigger] lane_state(x@, l) == spec_rounds(
                    lane_state(old(x)@, l),
                    r as nat,
                ),
    {
        let ghost before = x@;
        qr_at(x, 0, 4, 8, 12);
        qr_at(x, 1, 5, 9, 13);
        qr_at(x, 2, 6, 10, 14);
        qr_at(x, 3, 7, 11, 15);
        assert(forall|l: int|
            0 <= l < 4 ==> #[trigger] lane_state(x@, l) == spec_column_round(
                lane_state(before, l),
            ));
        qr_at(x, 0, 5, 10, 15);
        qr_at(x, 1, 6, 11, 12);
        qr_at(x, 2, 7, 8, 13);
        qr_at(x, 3, 4, 9, 14);
        assert(forall|l: int|
            0 <= l < 4 ==> #[trigger] lane_state(x@, l) == spec_double_round(
                lane_state(before, l),
            ));
        assert(forall|l: int|
            0 <= l < 4 ==> spec_rounds(#[trigger] lane_state(old(x)@, l), (r + 1) as nat)
                == spec_double_round(spec_rounds(lane_state(old(x)@, l), r as nat)));
    }
}

/// Word `j` of the block with counter `4q + l`.
pub(crate) open spec fn block_word(key: Seq<u32>, q: int, l: int, j: int) -> u32 {
    spec_block(key, (4 * q + l) as u32)[j]
}

/// Lane `l` of vector word `j` of a vector state.
pub(crate) open spec fn lane_word(x: Seq<wide::u32x4>, j: int, l: int) -> u32 {
    lanes(x[j])[l]
}

/// Compute the four blocks of group `q` (counters `4q .. 4q+4`) in lock-step
/// and interleave their words into the group's 64-word region: lane `l` of
/// vector word `j` lands at position `64q + 4j + l`.
#[verifier::rlimit(100)]
fn quad_block(key: &[u32; 8], q: usize, words: &mut [u32; 256])
    requires
        q < 4,
    ensures
        forall|p: int|
            64 * q <= p < 64 * q + 64
                ==> final(words)@[p] == #[trigger] spec_refill_words(key@)[p],
        forall|p: int| 0 <= p < 64 * q ==> final(words)@[p] == old(words)@[p],
        forall|p: int| 64 * q + 64 <= p < 256 ==> final(words)@[p] == old(words)@[p],
{
    let base = q * 64;
    let c0 = (q * 4) as u32;
    let ctr = from_elems([c0, c0 + 1, c0 + 2, c0 + 3]);
    let mut x = [
        splat(C0),
        splat(C1),
        splat(C2),
        splat(C3),
        splat(key[0]),
        splat(key[1]),
        splat(key[2]),
        splat(key[3]),
        splat(key[4]),
        splat(key[5]),
        splat(key[6]),
        splat(key[7]),
        ctr,
        splat(0),
        splat(0),
        splat(0),
    ];
    assert forall|l: int| 0 <= l < 4 implies #[trigger] lane_state(x@, l) =~= spec_init_state(
        key@,
        (4 * q + l) as u32,
    ) by {}
    eight_rounds(&mut x);
    let ghost mixed = x@;
    assert forall|l: int, j: int| 0 <= l < 4 && 0 <= j < 16 implies #[trigger] lane_word(
        mixed,
        j,
        l,
    ) == lane_state(mixed, l)[j] by {}
    assert forall|l: int, j: int| 0 <= l < 4 && 0 <= j < 4 implies #[trigger] lane_word(x@, j, l)
        == block_word(key@, q as int, l, j) by {
        assert(lane_state(x@, l) == spec_rounds(spec_init_state(key@, (4 * q + l) as u32), 4));
        assert(lane_word(x@, j, l) == lane_state(x@, l)[j]);
    }
    for i in 4..12usize
        invariant
            x@.len() == 16,
            mixed.len() == 16,
            forall|l: int, j: int|
                0 <= l < 4 && 0 <= j < i ==> #[trigger] lane_word(x@, j, l) == block_word(
                    key@,
                    q as int,
                    l,
                    j,
                ),
            forall|l: int, j: int|
                0 <= l < 4 && i <= j < 16 ==> #[trigger] lane_word(x@, j, l) == lane_word(
                    mixed,
                    j,
                    l,
                ),
            forall|l: int|
                0 <= l < 4 ==> #[trigger] lane_state(mixed, l) == spec_rounds(
                    spec_init_state(key@, (4 * q + l) as u32),
                    4,
                ),
    {
        let ghost xs0 = x@;
        x[i] = add_u32(x[i], splat(key[i - 4]));
        assert forall|l: int| 0 <= l < 4 implies #[trigger] lane_word(x@, i as int, l)
            == block_word(key@, q as int, l, i as int) by {
            assert(lane_word(xs0, i as int, l) == lane_word(mixed, i as int, l));
            assert(lane_state(mixed, l)[i as int] == lane_word(mixed, i as int, l));
            assert(lane_word(x@, i as int, l) == lane_word(xs0, i as int, l).wrapping_add(
                key@[i - 4],
            ));
        }
        assert forall|l: int, j: int| 0 <= l < 4 && 0 <= j < i implies #[trigger] lane_word(
            x@,
            j,
            l,
        ) == block_word(key@, q as int, l, j) by {
            assert(x@[j] == xs0[j]);
            assert(lane_word(xs0, j, l) == block_word(key@, q as int, l, j));
        }
        assert forall|l: int, j: int| 0 <= l < 4 && i + 1 <= j < 16 implies #[trigger] lane_word(
            x@,
            j,
            l,
        ) == lane_word(mixed, j, l) by {
            assert(x@[j] == xs0[j]);
            assert(lane_word(xs0, j, l) == lane_word(mixed, j, l));
        }
    }
    assert forall|l: int, j: int| 0 <= l < 4 && 0 <= j < 16 implies #[trigger] lane_word(x@, j, l)
        == block_word(key@, q as int, l, j) by {
        if 12 <= j {
            assert(lane_word(x@, j, l) == lane_word(mixed, j, l));
            assert(lane_word(mixed, j, l) == lane_state(mixed, l)[j]);
        }
    }
    for i in 0..16usize
        invariant
            base == 64 * q,
            q < 4,
            x@.len() == 16,
            forall|l: int, j: int|
                0 <= l < 4 && 0 <= j < 16 ==> #[trigger] lane_word(x@, j, l) == block_word(
                    key@,
                    q as int,
                    l,
                    j,
                ),
            forall|l: int, j: int|
                0 <= l < 4 && 0 <= j < i ==> words@[base + 4 * j + l] == #[trigger] block_word(
                    key@,
                    q as int,
                    l,
                    j,
                ),
            forall|p: int|
                0 <= p < 256 && !(base <= p < base + 4 * i) ==> words@[p] == old(words)@[p],
    {
        let e = to_elems(x[i]);
        words[base + 4 * i] = e[0];
        words[base + 4 * i + 1] = e[1];
        words[base + 4 * i + 2] = e[2];
        words[base + 4 * i + 3] = e[3];
        assert forall|l: int| 0 <= l < 4 implies words@[base + 4 * i + l] == #[trigger] block_word(
            key@,
            q as int,
            l,
            i as int,
        ) by {
            assert(e@[l] == lane_word(x@, i as int, l));
        }
    }
    proof {
        assert forall|b: int, i: int| 0 <= b < 4 && 0 <= i < 16 implies words@[64 * q + b + 4 * i]
            == #[trigger] spec_block(key@, ((4 * q + b) as u32))[i] by {
            assert(words@[base + 4 * i + b] == block_word(key@, q as int, b, i));
        }
        lemma_quad_block_layout(key@, q as int, words@);
    }
}

/// Fill the whole buffer from `key`: sixteen blocks in four lock-step groups.
pub(crate) fn fill_buf(key: &[u32; 8], buf: &mut Buffer)
    ensures
        final(buf).words@ == spec_refill_words(key@),
{
    for q in 0..4usize
        invariant
            forall|p: int|
                0 <= p < 64 * q ==> buf.words@[p] == #[trigger] spec_refill_words(key@)[p],
    {
        quad_block(key, q, &mut buf.words);
    }
    assert(buf.words@ =~= spec_refill_words(key@));
}

} // verus!
