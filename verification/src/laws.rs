//! Laws that relate several operations of the generator, proved once and for
//! all over the model in [`crate::guts`].
use crate::guts::{
    lemma_adv_bounds, lemma_advance_unique, lemma_key_iter_add, lemma_stream_byte_iter,
    lemma_word_byte_roundtrip, spec_adv_key, spec_adv_pos, spec_le32_at, spec_le64_at,
    spec_next_key, spec_refills, spec_stream_byte, spec_stream_word, word_of_bytes,
};
use vstd::prelude::*;

verus! {

/// Read decomposition (no gaps): a gap-free read of `n1` bytes followed by
/// one of `n2` bytes serves exactly the bytes a single read of `n1 + n2`
/// would, and leaves the engine in exactly the same state. Splitting a total
/// length across `read_bytes` calls in any way is therefore unobservable.
pub proof fn lemma_read_decomposition(key: Seq<u32>, pos: nat, n1: nat, n2: nat)
    requires
        pos <= 992,
    ensures
        spec_adv_key(spec_adv_key(key, pos, n1), spec_adv_pos(pos, n1), n2) == spec_adv_key(
            key,
            pos,
            n1 + n2,
        ),
        spec_adv_pos(spec_adv_pos(pos, n1), n2) == spec_adv_pos(pos, n1 + n2),
        forall|j: nat|
            j < n2 ==> #[trigger] spec_stream_byte(
                spec_adv_key(key, pos, n1),
                spec_adv_pos(pos, n1) + j,
            ) == spec_stream_byte(key, pos + n1 + j),
{
    let r1 = spec_refills(pos, n1);
    let p1 = spec_adv_pos(pos, n1);
    lemma_adv_bounds(pos, n1);
    assert forall|j: nat|
        j < n2 implies #[trigger] spec_stream_byte(spec_adv_key(key, pos, n1), p1 + j)
        == spec_stream_byte(key, pos + n1 + j) by {
        lemma_stream_byte_iter(key, r1, p1 + j);
    }
    let r2 = spec_refills(p1, n2);
    let p2 = spec_adv_pos(p1, n2);
    lemma_adv_bounds(p1, n2);
    lemma_key_iter_add(key, r1, r2);
    lemma_advance_unique(pos, n1 + n2, r1 + r2, p2);
}

/// Word reads agree with the byte stream inside one iteration: when a
/// four-byte read does not touch the 992-byte boundary, `read_u32` returns
/// precisely the little-endian decoding of the four bytes that `read_bytes`
/// would serve from the same state, and both advance the state identically.
pub proof fn lemma_u32_read_matches_byte_stream(key: Seq<u32>, pos: nat)
    requires
        pos + 4 <= 992,
    ensures
        spec_le32_at(key, pos) == word_of_bytes(
            spec_stream_byte(key, pos),
            spec_stream_byte(key, pos + 1),
            spec_stream_byte(key, pos + 2),
            spec_stream_byte(key, pos + 3),
        ),
        spec_adv_key(key, pos, 4) == key,
        spec_adv_pos(pos, 4) == pos + 4,
{
    vstd::arithmetic::div_mod::lemma_basic_div((pos + 3) as int, 992);
}

/// The eight-byte analogue of [`lemma_u32_read_matches_byte_stream`]:
/// `read_u64` away from the boundary equals decoding the next eight stream
/// bytes little-endian.
pub proof fn lemma_u64_read_matches_byte_stream(key: Seq<u32>, pos: nat)
    requires
        pos + 8 <= 992,
    ensures
        spec_le64_at(key, pos) == crate::guts::le64_of_bytes(
            spec_stream_byte(key, pos),
            spec_stream_byte(key, pos + 1),
            spec_stream_byte(key, pos + 2),
            spec_stream_byte(key, pos + 3),
            spec_stream_byte(key, pos + 4),
            spec_stream_byte(key, pos + 5),
            spec_stream_byte(key, pos + 6),
            spec_stream_byte(key, pos + 7),
        ),
        spec_adv_key(key, pos, 8) == key,
        spec_adv_pos(pos, 8) == pos + 8,
{
    vstd::arithmetic::div_mod::lemma_basic_div((pos + 7) as int, 992);
}

/// The word-granularity reader serves the byte stream in aligned four-byte
/// steps: word `n` of the word stream is the little-endian decoding of bytes
/// `4n .. 4n+4` of the byte stream, across all iterations (248 output words
/// line up with 992 output bytes).
pub proof fn lemma_word_stream_matches_byte_stream(key: Seq<u32>, n: nat)
    ensures
        spec_stream_word(key, n) == spec_le32_at(key, 4 * n),
    decreases n,
{
    if n < 248 {
        let w = crate::guts::spec_refill_words(key)[n as int];
        assert((4 * n) / 4 == n && (4 * n) % 4 == 0);
        assert((4 * n + 1) / 4 == n && (4 * n + 1) % 4 == 1);
        assert((4 * n + 2) / 4 == n && (4 * n + 2) % 4 == 2);
        assert((4 * n + 3) / 4 == n && (4 * n + 3) % 4 == 3);
        lemma_word_byte_roundtrip(w);
    } else {
        let m = (n - 248) as nat;
        lemma_word_stream_matches_byte_stream(spec_next_key(key), m);
        assert(spec_stream_byte(key, 4 * n) == spec_stream_byte(spec_next_key(key), 4 * m));
        assert(spec_stream_byte(key, 4 * n + 1) == spec_stream_byte(
            spec_next_key(key),
            4 * m + 1,
        ));
        assert(spec_stream_byte(key, 4 * n + 2) == spec_stream_byte(
            spec_next_key(key),
            4 * m + 2,
        ));
        assert(spec_stream_byte(key, 4 * n + 3) == spec_stream_byte(
            spec_next_key(key),
            4 * m + 3,
        ));
    }
}

} // verus!
