//! Port of the backend-comparison benchmark harness: the test builds every
//! benchmark and runs each unit of work once.
use chacha8rand::{Backend, Buffer, ChaCha8, Seed};
use std::hint::black_box;

const SEED: &[u8; 32] = b"thisisjustabenchthisisjustabench";

struct Benchmark {
    label: String,
    work: Box<dyn FnMut(u32)>,
}

fn collect_benchmarks() -> Vec<Benchmark> {
    let mut benchmarks = Vec::new();

    benchmarks.push(bench_next_u32("scalar", Backend::scalar()));
    if let Some(sse2) = Backend::x86_sse2() {
        benchmarks.push(bench_next_u32("sse2", sse2));
    }
    if let Some(avx2) = Backend::x86_avx2() {
        benchmarks.push(bench_next_u32("avx2", avx2));
    }
    if let Some(neon) = Backend::aarch64_neon() {
        benchmarks.push(bench_next_u32("neon", neon));
    }
    if let Some(simd128) = Backend::wasm32_simd128() {
        benchmarks.push(bench_next_u32("simd128", simd128));
    }

    benchmarks.push(bench_bulk("scalar", Backend::scalar()));
    if let Some(sse2) = Backend::x86_sse2() {
        benchmarks.push(bench_bulk("sse2", sse2));
    }
    if let Some(avx2) = Backend::x86_avx2() {
        benchmarks.push(bench_bulk("avx2", avx2));
    }
    if let Some(neon) = Backend::aarch64_neon() {
        benchmarks.push(bench_bulk("neon", neon));
    }
    if let Some(simd128) = Backend::wasm32_simd128() {
        benchmarks.push(bench_bulk("simd128", simd128));
    }

    benchmarks
}

#[test]
fn bench_test_benchmarks() {
    for mut bench in collect_benchmarks() {
        (bench.work)(1);
    }
}

fn bench_next_u32(backend_name: &str, backend: Backend) -> Benchmark {
    let backend = black_box(backend);
    let mut rng = ChaCha8::with_backend(Seed::from(SEED), backend);
    Benchmark {
        label: format!("next_u32/{backend_name}"),
        work: Box::new(move |n| {
            for _ in 0..n {
                black_box(rng.next_u32());
            }
        }),
    }
}

fn bench_bulk(backend_name: &str, backend: Backend) -> Benchmark {
    let mut key = [0u32; 8];
    for i in 0..8 {
        key[i] = u32::from_le_bytes([SEED[4 * i], SEED[4 * i + 1], SEED[4 * i + 2], SEED[4 * i
            + 3]]);
    }
    let mut buf = Buffer { words: [0; 256] };
    Benchmark {
        label: format!("bulk/{backend_name}"),
        work: Box::new(move |n| {
            for _ in 0..n {
                black_box(&mut key);
                backend.refill(&key, &mut buf);
                let mut next_key = [0u32; 8];
                next_key.copy_from_slice(&buf.words[256 - 8..]);
                key = next_key;
                black_box(&buf);
            }
        }),
    }
}
