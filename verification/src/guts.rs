//! The mathematical model of the generator: the block transform, the buffer
//! layout, the key ratchet, and the resulting byte and word streams.
//!
//! Every executable kernel and every engine operation is specified against the
//! functions in this module. The model follows the ChaCha8Rand construction:
//! a 256-bit key is expanded, sixteen blocks at a time, into 1024 bytes of
//! which the first 992 are output and the last 32 become the next key.
use vstd::prelude::*;

verus! {

/// First constant word of the initial state ("expa", little endian).
pub const C0: u32 = 0x61707865;

/// Second constant word of the initial state ("nd 3", little endian).
pub const C1: u32 = 0x3320646e;

/// Third constant word of the initial state ("2-by", little endian).
pub const C2: u32 = 0x79622d32;

/// Fourth constant word of the initial state ("te k", little endian).
pub const C3: u32 = 0x6b206574;

/// Left-rotation of a 32-bit word by `n` bits, `0 < n < 32`.
pub open spec fn spec_rotl(x: u32, n: u32) -> u32
    recommends
        0 < n < 32,
{
    (x << n) | (x >> ((32 - n) as u32))
}

/// One quarter-round: the add-rotate-xor sequence over four state words.
pub open spec fn spec_qr(a: u32, b: u32, c: u32, d: u32) -> (u32, u32, u32, u32) {
    let a1 = a.wrapping_add(b);
    let d1 = spec_rotl(d ^ a1, 16);
    let c1 = c.wrapping_add(d1);
    let b1 = spec_rotl(b ^ c1, 12);
    let a2 = a1.wrapping_add(b1);
    let d2 = spec_rotl(d1 ^ a2, 8);
    let c2 = c1.wrapping_add(d2);
    let b2 = spec_rotl(b1 ^ c2, 7);
    (a2, b2, c2, d2)
}

/// Apply one quarter-round to the state words at positions `a, b, c, d`.
pub open spec fn spec_qr_at(s: Seq<u32>, a: int, b: int, c: int, d: int) -> Seq<u32>
    recommends
        s.len() == 16,
{
    let r = spec_qr(s[a], s[b], s[c], s[d]);
    s.update(a, r.0).update(b, r.1).update(c, r.2).update(d, r.3)
}

/// The four column quarter-rounds of a double round.
pub open spec fn spec_column_round(s: Seq<u32>) -> Seq<u32>
    recommends
        s.len() == 16,
{
    spec_qr_at(
        spec_qr_at(spec_qr_at(spec_qr_at(s, 0, 4, 8, 12), 1, 5, 9, 13), 2, 6, 10, 14),
        3,
        7,
        11,
        15,
    )
}

/// The four diagonal quarter-rounds of a double round.
pub open spec fn spec_diagonal_round(s: Seq<u32>) -> Seq<u32>
    recommends
        s.len() == 16,
{
    spec_qr_at(
        spec_qr_at(spec_qr_at(spec_qr_at(s, 0, 5, 10, 15), 1, 6, 11, 12), 2, 7, 8, 13),
        3,
        4,
        9,
        14,
    )
}

/// One double round: columns, then diagonals.
pub open spec fn spec_double_round(s: Seq<u32>) -> Seq<u32>
    recommends
        s.len() == 16,
{
    spec_diagonal_round(spec_column_round(s))
}

/// `n` double rounds applied to a state.
pub open spec fn spec_rounds(s: Seq<u32>, n: nat) -> Seq<u32>
    decreases n,
{
    if n == 0 {
        s
    } else {
        spec_double_round(spec_rounds(s, (n - 1) as nat))
    }
}

/// The 4x4 initial state: constants, the eight key words, the counter, zeros.
pub open spec fn spec_init_state(key: Seq<u32>, ctr: u32) -> Seq<u32>
    recommends
        key.len() == 8,
{
    seq![
        C0,
        C1,
        C2,
        C3,
        key[0],
        key[1],
        key[2],
        key[3],
        key[4],
        key[5],
        key[6],
        key[7],
        ctr,
        0u32,
        0u32,
        0u32,
    ]
}

/// One 16-word output block: eight rounds (four double rounds), then the key
/// words are added back into positions 4..12 only.
pub open spec fn spec_block(key: Seq<u32>, ctr: u32) -> Seq<u32>
    recommends
        key.len() == 8,
{
    let x = spec_rounds(spec_init_state(key, ctr), 4);
    Seq::new(16, |i: int| if 4 <= i < 12 { x[i].wrapping_add(key[i - 4]) } else { x[i] })
}

/// Which block the buffer word at position `p` comes from: blocks are computed
/// in groups of four, and within a 64-word group the words of the four blocks
/// are interleaved with stride four.
pub open spec fn block_of_pos(p: int) -> u32 {
    (4 * (p / 64) + p % 4) as u32
}

/// Which word of its block the buffer word at position `p` is.
pub open spec fn word_of_pos(p: int) -> int {
    (p % 64) / 4
}

/// The 256 words of a refilled buffer for a given key.
pub open spec fn spec_refill_words(key: Seq<u32>) -> Seq<u32>
    recommends
        key.len() == 8,
{
    Seq::new(256, |p: int| spec_block(key, block_of_pos(p))[word_of_pos(p)])
}

/// The ratcheted key: the last eight words of the refilled buffer.
pub open spec fn spec_next_key(key: Seq<u32>) -> Seq<u32>
    recommends
        key.len() == 8,
{
    spec_refill_words(key).subrange(248, 256)
}

/// The key after `n` ratchets.
pub open spec fn spec_key_iter(key: Seq<u32>, n: nat) -> Seq<u32>
    decreases n,
{
    if n == 0 {
        key
    } else {
        spec_next_key(spec_key_iter(key, (n - 1) as nat))
    }
}

/// Byte `j` (0..4) of the little-endian encoding of a word.
pub open spec fn word_byte(w: u32, j: int) -> u8
    recommends
        0 <= j < 4,
{
    ((w >> ((8 * j) as u32)) & 0xff) as u8
}

/// The word with the given little-endian bytes.
pub open spec fn word_of_bytes(b0: u8, b1: u8, b2: u8, b3: u8) -> u32 {
    (b0 as u32) | ((b1 as u32) << 8u32) | ((b2 as u32) << 16u32) | ((b3 as u32) << 24u32)
}

/// Byte `k` (0..1024) of the refilled buffer: the buffer is the little-endian
/// encoding of its 256 words.
pub open spec fn spec_buffer_byte(key: Seq<u32>, k: int) -> u8
    recommends
        key.len() == 8,
        0 <= k < 1024,
{
    word_byte(spec_refill_words(key)[k / 4], k % 4)
}

/// Byte `i` of the canonical output stream of a generator whose current key is
/// `key`: the first 992 bytes of each refill, iteration after iteration.
pub open spec fn spec_stream_byte(key: Seq<u32>, i: nat) -> u8
    decreases i,
{
    if i < 992 {
        spec_buffer_byte(key, i as int)
    } else {
        spec_stream_byte(spec_next_key(key), (i - 992) as nat)
    }
}

/// Word `n` of the output word stream: the first 248 words of each refill.
pub open spec fn spec_stream_word(key: Seq<u32>, n: nat) -> u32
    decreases n,
{
    if n < 248 {
        spec_refill_words(key)[n as int]
    } else {
        spec_stream_word(spec_next_key(key), (n - 248) as nat)
    }
}

/// How many refills serving `n` bytes from offset `pos` performs.
pub open spec fn spec_refills(pos: nat, n: nat) -> nat {
    if pos + n == 0 {
        0
    } else {
        (((pos + n - 1) / 992) as nat)
    }
}

/// The key after a gap-free read of `n` bytes starting at offset `pos`.
pub open spec fn spec_adv_key(key: Seq<u32>, pos: nat, n: nat) -> Seq<u32> {
    spec_key_iter(key, spec_refills(pos, n))
}

/// The cursor after a gap-free read of `n` bytes starting at offset `pos`.
pub open spec fn spec_adv_pos(pos: nat, n: nat) -> nat {
    ((pos + n) - 992 * spec_refills(pos, n)) as nat
}

/// The eight key words decoded little-endian from a 32-byte seed.
pub open spec fn spec_seed_words(b: Seq<u8>) -> Seq<u32>
    recommends
        b.len() == 32,
{
    Seq::new(8, |i: int| word_of_bytes(b[4 * i], b[4 * i + 1], b[4 * i + 2], b[4 * i + 3]))
}

/// The 32-byte little-endian encoding of the eight key words.
pub open spec fn spec_seed_bytes(key: Seq<u32>) -> Seq<u8>
    recommends
        key.len() == 8,
{
    Seq::new(32, |k: int| word_byte(key[k / 4], k % 4))
}

/// The four stream bytes at `pos` decoded as a little-endian 32-bit word.
pub open spec fn spec_le32_at(key: Seq<u32>, pos: nat) -> u32 {
    word_of_bytes(
        spec_stream_byte(key, pos),
        spec_stream_byte(key, pos + 1),
        spec_stream_byte(key, pos + 2),
        spec_stream_byte(key, pos + 3),
    )
}

/// The 64-bit value with the given little-endian bytes.
pub open spec fn le64_of_bytes(
    b0: u8,
    b1: u8,
    b2: u8,
    b3: u8,
    b4: u8,
    b5: u8,
    b6: u8,
    b7: u8,
) -> u64 {
    (b0 as u64) | ((b1 as u64) << 8u32) | ((b2 as u64) << 16u32) | ((b3 as u64) << 24u32) | ((
    b4 as u64) << 32u32) | ((b5 as u64) << 40u32) | ((b6 as u64) << 48u32) | ((b7 as u64)
        << 56u32)
}

/// The eight stream bytes at `pos` decoded as a little-endian 64-bit word.
pub open spec fn spec_le64_at(key: Seq<u32>, pos: nat) -> u64 {
    le64_of_bytes(
        spec_stream_byte(key, pos),
        spec_stream_byte(key, pos + 1),
        spec_stream_byte(key, pos + 2),
        spec_stream_byte(key, pos + 3),
        spec_stream_byte(key, pos + 4),
        spec_stream_byte(key, pos + 5),
        spec_stream_byte(key, pos + 6),
        spec_stream_byte(key, pos + 7),
    )
}

/// A word survives the round trip through its four little-endian bytes.
pub proof fn lemma_word_byte_roundtrip(w: u32)
    ensures
        word_of_bytes(word_byte(w, 0), word_byte(w, 1), word_byte(w, 2), word_byte(w, 3)) == w,
{
    assert((((w >> 0u32) & 0xff) as u8 as u32) | ((((w >> 8u32) & 0xff) as u8 as u32) << 8u32) | ((
    ((w >> 16u32) & 0xff) as u8 as u32) << 16u32) | ((((w >> 24u32) & 0xff) as u8 as u32)
        << 24u32) == w) by (bit_vector);
    assert(word_byte(w, 0) == ((w >> 0u32) & 0xff) as u8);
    assert(word_byte(w, 1) == ((w >> 8u32) & 0xff) as u8);
    assert(word_byte(w, 2) == ((w >> 16u32) & 0xff) as u8);
    assert(word_byte(w, 3) == ((w >> 24u32) & 0xff) as u8);
}

/// Encoding the key as a 32-byte seed and decoding it again is the identity:
/// the heart of the snapshot round trip.
pub proof fn lemma_seed_roundtrip(key: Seq<u32>)
    requires
        key.len() == 8,
    ensures
        spec_seed_words(spec_seed_bytes(key)) == key,
{
    assert forall|i: int| 0 <= i < 8 implies spec_seed_words(spec_seed_bytes(key))[i] == key[i] by {
        assert((4 * i) / 4 == i && (4 * i) % 4 == 0);
        assert((4 * i + 1) / 4 == i && (4 * i + 1) % 4 == 1);
        assert((4 * i + 2) / 4 == i && (4 * i + 2) % 4 == 2);
        assert((4 * i + 3) / 4 == i && (4 * i + 3) % 4 == 3);
        lemma_word_byte_roundtrip(key[i]);
    }
    assert(spec_seed_words(spec_seed_bytes(key)) =~= key);
}

/// Ratcheting once more commutes with the iterated ratchet.
pub proof fn lemma_key_iter_shift(key: Seq<u32>, n: nat)
    ensures
        spec_key_iter(spec_next_key(key), n) == spec_key_iter(key, n + 1),
    decreases n,
{
    assert(spec_key_iter(key, n + 1) == spec_next_key(spec_key_iter(key, n)));
    if n > 0 {
        lemma_key_iter_shift(key, (n - 1) as nat);
        assert(spec_key_iter(spec_next_key(key), n) == spec_next_key(
            spec_key_iter(spec_next_key(key), (n - 1) as nat),
        ));
    }
}

/// Reading at offset `i` of the stream of the `r`-times-ratcheted key is
/// reading at offset `992 r + i` of the original stream.
pub proof fn lemma_stream_byte_iter(key: Seq<u32>, r: nat, i: nat)
    ensures
        spec_stream_byte(spec_key_iter(key, r), i) == spec_stream_byte(key, 992 * r + i),
    decreases r,
{
    if r > 0 {
        lemma_key_iter_shift(key, (r - 1) as nat);
        lemma_stream_byte_iter(spec_next_key(key), (r - 1) as nat, i);
        assert(992 * r + i - 992 == 992 * (r - 1) + i);
    }
}

/// A refill count and final cursor that satisfy the read-loop bookkeeping are
/// exactly the ones the advance functions give.
pub proof fn lemma_advance_unique(pos0: nat, n: nat, r: nat, p: nat)
    requires
        pos0 <= 992,
        992 * r + p == pos0 + n,
        n > 0 ==> 1 <= p <= 992,
        n == 0 ==> r == 0 && p == pos0,
    ensures
        r == spec_refills(pos0, n),
        p == spec_adv_pos(pos0, n),
{
    if pos0 + n == 0 {
        assert(r == 0 && p == 0);
    } else {
        vstd::arithmetic::div_mod::lemma_fundamental_div_mod_converse(
            pos0 + n - 1,
            992,
            r as int,
            p - 1,
        );
    }
}

/// Iterating the ratchet composes additively.
pub proof fn lemma_key_iter_add(key: Seq<u32>, m: nat, n: nat)
    ensures
        spec_key_iter(spec_key_iter(key, m), n) == spec_key_iter(key, m + n),
    decreases n,
{
    if n > 0 {
        lemma_key_iter_add(key, m, (n - 1) as nat);
        assert(spec_key_iter(spec_key_iter(key, m), n) == spec_next_key(
            spec_key_iter(spec_key_iter(key, m), (n - 1) as nat),
        ));
        assert(spec_key_iter(key, m + n) == spec_next_key(spec_key_iter(key, (m + n - 1) as nat)));
    }
}

/// The advance bookkeeping stays within one iteration's output region.
pub proof fn lemma_adv_bounds(pos: nat, n: nat)
    requires
        pos <= 992,
    ensures
        992 * spec_refills(pos, n) + spec_adv_pos(pos, n) == pos + n,
        spec_adv_pos(pos, n) <= 992,
        n > 0 ==> 1 <= spec_adv_pos(pos, n),
        n == 0 ==> spec_refills(pos, n) == 0 && spec_adv_pos(pos, n) == pos,
{
    if pos + n == 0 {
    } else {
        let x = pos + n - 1;
        vstd::arithmetic::div_mod::lemma_fundamental_div_mod(x, 992);
        vstd::arithmetic::div_mod::lemma_mod_bound(x, 992);
        if n == 0 {
            vstd::arithmetic::div_mod::lemma_basic_div(x, 992);
        }
    }
}

/// Inside group `q`, the buffer word at `64q + 4i + b` is word `i` of the
/// block with counter `4q + b`.
pub(crate) proof fn lemma_pos_decompose(q: int, i: int, b: int)
    requires
        0 <= q < 4,
        0 <= i < 16,
        0 <= b < 4,
    ensures
        block_of_pos(64 * q + 4 * i + b) == (4 * q + b) as u32,
        word_of_pos(64 * q + 4 * i + b) == i,
{
    assert((64 * q + 4 * i + b) / 64 == q && (64 * q + 4 * i + b) % 4 == b && ((64 * q + 4 * i + b)
        % 64) / 4 == i) by (nonlinear_arith)
        requires
            0 <= q < 4 && 0 <= i < 16 && 0 <= b < 4,
    ;
}

/// Once a group's 64 buffer words hold the four interleaved blocks, they all
/// match the model buffer.
pub(crate) proof fn lemma_quad_block_layout(key: Seq<u32>, q: int, ws: Seq<u32>)
    requires
        0 <= q < 4,
        ws.len() == 256,
        forall|b: int, i: int|
            0 <= b < 4 && 0 <= i < 16 ==> ws[64 * q + b + 4 * i] == #[trigger] spec_block(
                key,
                ((4 * q + b) as u32),
            )[i],
    ensures
        forall|p: int| 64 * q <= p < 64 * q + 64 ==> ws[p] == #[trigger] spec_refill_words(key)[p],
{
    assert forall|p: int| 64 * q <= p < 64 * q + 64 implies ws[p] == #[trigger] spec_refill_words(
        key,
    )[p] by {
        let b = p % 4;
        let i = (p % 64) / 4;
        assert(p == 64 * q + 4 * i + b && 0 <= b < 4 && 0 <= i < 16) by (nonlinear_arith)
            requires
                0 <= q < 4 && 64 * q <= p < 64 * q + 64 && b == p % 4 && i == (p % 64) / 4,
        ;
        lemma_pos_decompose(q, i, b);
        assert(ws[64 * q + b + 4 * i] == spec_block(key, ((4 * q + b) as u32))[i]);
    }
}

} // verus!
