//! Tests of the output stream: the published test vector, cross-backend
//! equivalence, read decomposition, and the byte/word interleaving rule.
use chacha8rand::{Backend, ChaCha8, ChaCha8Rand, Seed};

const SPEC_SEED: &[u8; 32] = b"ABCDEFGHIJKLMNOPQRSTUVWXYZ123456";

fn canonical_stream(seed: &[u8; 32], len: usize) -> Vec<u8> {
    let mut rng = ChaCha8Rand::new(seed);
    let mut out = vec![0u8; len];
    rng.read_bytes(&mut out);
    out
}

fn all_backends() -> Vec<(&'static str, Backend)> {
    let mut backends = vec![
        ("scalar", Backend::scalar()),
        ("simd128", Backend::simd128()),
        ("widex4", Backend::widex4()),
        ("widex8", Backend::widex8()),
    ];
    if let Some(b) = Backend::avx2() {
        backends.push(("avx2", b));
    }
    if let Some(b) = Backend::x86_sse2() {
        backends.push(("sse2", b));
    }
    backends
}

#[test]
fn test_spec_conformance() {
    // The sample output published with the ChaCha8Rand specification, for
    // every backend.
    for (name, backend) in all_backends() {
        let mut rng = ChaCha8Rand::with_backend(SPEC_SEED, backend);
        assert_eq!(rng.read_u64(), 0xb773b6063d4616a5, "backend {name}");
        assert_eq!(rng.read_u64(), 0x1160af22a66abc3c, "backend {name}");
        assert_eq!(rng.read_u64(), 0x8c2599d9418d287c, "backend {name}");
    }
    let mut detected = ChaCha8Rand::new(SPEC_SEED);
    assert_eq!(detected.read_u64(), 0xb773b6063d4616a5);
}

#[test]
fn test_cross_backend_equivalence() {
    // Every available backend produces a byte-identical stream, across
    // several refills and for more than one seed.
    let mut seeds = vec![*SPEC_SEED, [0u8; 32]];
    let mut derive = ChaCha8Rand::new(SPEC_SEED);
    seeds.push(derive.read_seed());
    for seed in &seeds {
        let reference = canonical_stream(seed, 3000);
        for (name, backend) in all_backends() {
            let mut rng = ChaCha8Rand::with_backend(seed, backend);
            let mut out = vec![0u8; 3000];
            rng.read_bytes(&mut out);
            assert_eq!(out, reference, "backend {name}");
        }
    }
}

#[test]
fn test_read_decomposition() {
    // Any way of splitting a total length into sub-reads yields the same
    // concatenation, zero-length reads included.
    let reference = canonical_stream(SPEC_SEED, 2500);
    let splits: &[&[usize]] = &[
        &[2500],
        &[0, 1, 0, 2499],
        &[991, 1, 992, 516],
        &[992, 992, 516],
        &[1000, 1000, 500],
        &[3, 5, 7, 985, 1500],
    ];
    for split in splits {
        let mut rng = ChaCha8Rand::new(SPEC_SEED);
        let mut out = Vec::new();
        for &len in *split {
            let mut part = vec![0u8; len];
            rng.read_bytes(&mut part);
            out.extend_from_slice(&part);
        }
        assert_eq!(out, reference, "split {split:?}");
    }
}

#[test]
fn test_byte_for_byte_reads() {
    // Reading one byte at a time equals one bulk read.
    let reference = canonical_stream(SPEC_SEED, 1100);
    let mut rng = ChaCha8Rand::new(SPEC_SEED);
    let mut out = Vec::new();
    for _ in 0..1100 {
        let mut one = [0u8; 1];
        rng.read_bytes(&mut one);
        out.push(one[0]);
    }
    assert_eq!(out, reference);
}

#[test]
fn test_word_reads_match_bytes_within_iteration() {
    // Away from the iteration boundary, read_u32/read_u64 equal decoding the
    // corresponding bytes of the canonical stream.
    let reference = canonical_stream(SPEC_SEED, 992);
    let mut rng = ChaCha8Rand::new(SPEC_SEED);
    let mut offset = 0usize;
    for step in 0..100 {
        if step % 3 == 0 {
            let expect = u32::from_le_bytes(reference[offset..offset + 4].try_into().unwrap());
            assert_eq!(rng.read_u32(), expect, "u32 at {offset}");
            offset += 4;
        } else if step % 3 == 1 {
            let expect = u64::from_le_bytes(reference[offset..offset + 8].try_into().unwrap());
            assert_eq!(rng.read_u64(), expect, "u64 at {offset}");
            offset += 8;
        } else {
            let mut skip = [0u8; 3];
            rng.read_bytes(&mut skip);
            assert_eq!(skip.to_vec(), reference[offset..offset + 3].to_vec());
            offset += 3;
        }
    }
}

#[test]
fn test_word_read_boundary_skip() {
    // A word read never straddles the 992-byte boundary: the unread tail of
    // the exhausted iteration is skipped, not returned.
    let reference = canonical_stream(SPEC_SEED, 2000);

    // Position the cursor at 990: two bytes remain, so read_u32 must skip
    // them and serve bytes 992..996.
    let mut rng = ChaCha8Rand::new(SPEC_SEED);
    let mut skip = vec![0u8; 990];
    rng.read_bytes(&mut skip);
    let expect = u32::from_le_bytes(reference[992..996].try_into().unwrap());
    assert_eq!(rng.read_u32(), expect);

    // Position the cursor at 989: three bytes remain, so read_u64 must skip
    // them and serve bytes 992..1000.
    let mut rng = ChaCha8Rand::new(SPEC_SEED);
    let mut skip = vec![0u8; 989];
    rng.read_bytes(&mut skip);
    let expect = u64::from_le_bytes(reference[992..1000].try_into().unwrap());
    assert_eq!(rng.read_u64(), expect);

    // At exactly 992 consumed bytes nothing remains, so nothing is skipped.
    let mut rng = ChaCha8Rand::new(SPEC_SEED);
    let mut skip = vec![0u8; 992];
    rng.read_bytes(&mut skip);
    let expect = u32::from_le_bytes(reference[992..996].try_into().unwrap());
    assert_eq!(rng.read_u32(), expect);

    // A read that ends exactly at the boundary is served in full.
    let mut rng = ChaCha8Rand::new(SPEC_SEED);
    let mut skip = vec![0u8; 988];
    rng.read_bytes(&mut skip);
    let expect = u32::from_le_bytes(reference[988..992].try_into().unwrap());
    assert_eq!(rng.read_u32(), expect);
}

#[test]
fn test_word_reader_matches_engine() {
    // The word-granularity reader serves the canonical stream in aligned
    // four-byte steps, across its own refill boundary at 248 words.
    let reference = canonical_stream(SPEC_SEED, 2400);
    let mut words = ChaCha8::new(Seed::from(SPEC_SEED));
    for k in 0..600usize {
        let expect = u32::from_le_bytes(reference[4 * k..4 * k + 4].try_into().unwrap());
        assert_eq!(words.next_u32(), expect, "word {k}");
    }
    for (name, backend) in all_backends() {
        let mut words = ChaCha8::with_backend(Seed::from(SPEC_SEED), backend);
        for k in 0..16usize {
            let expect = u32::from_le_bytes(reference[4 * k..4 * k + 4].try_into().unwrap());
            assert_eq!(words.next_u32(), expect, "backend {name} word {k}");
        }
    }
}

#[test]
fn test_read_seed_derives_independent_generators() {
    // read_seed consumes 32 canonical bytes, and generators derived from the
    // same root differ from each other.
    let reference = canonical_stream(SPEC_SEED, 64);
    let mut seed_gen = ChaCha8Rand::new(SPEC_SEED);
    let first = seed_gen.read_seed();
    assert_eq!(first.to_vec(), reference[..32].to_vec());
    let second = seed_gen.read_seed();
    assert_eq!(second.to_vec(), reference[32..64].to_vec());
    let mut rng1 = ChaCha8Rand::new(&first);
    let mut rng2 = ChaCha8Rand::new(&second);
    assert_ne!(rng1.read_u64(), rng2.read_u64());
}

#[test]
fn test_set_seed_resets() {
    // set_seed behaves like overwriting the generator with a fresh one.
    let mut rng = ChaCha8Rand::new(SPEC_SEED);
    let first = rng.read_u64();
    let mut drain = vec![0u8; 1234];
    rng.read_bytes(&mut drain);
    rng.set_seed(SPEC_SEED);
    assert_eq!(rng.read_u64(), first);
}

#[test]
fn test_key_ratchet_never_repeats() {
    // Forcing several refills never reuses a 32-byte key.
    let mut rng = ChaCha8Rand::new(SPEC_SEED);
    let mut keys = Vec::new();
    for _ in 0..6 {
        keys.push(rng.clone_state().seed);
        let mut drain = vec![0u8; 993];
        rng.read_bytes(&mut drain);
    }
    for a in 0..keys.len() {
        for b in (a + 1)..keys.len() {
            assert_ne!(keys[a], keys[b], "key {a} equals key {b}");
        }
    }
}
