//! Port of the engine-level benchmark harness, including the comparison
//! against the `rand_chacha` implementation of plain ChaCha8: the test builds
//! every benchmark and runs each unit of work once.
use chacha8rand::ChaCha8Rand;
use rand_core::{RngCore, SeedableRng};
use std::hint::black_box;

const SEED: &[u8; 32] = b"thisisjustabenchthisisjustabench";

struct Benchmark {
    label: String,
    work: Box<dyn FnMut(u32)>,
}

fn collect_benchmarks() -> Vec<Benchmark> {
    let mut benchmarks = vec![
        bench_u32s(0),
        bench_u32s(1),
        bench_next_u32_rand_chacha(),
        bench_u64s(),
        bench_next_u64_rand_chacha(),
    ];

    let interesting_read_sizes = [16, 99, 1024 - 32, 1024];
    for read_size in interesting_read_sizes {
        benchmarks.push(bench_bulk(vec![0; read_size]));
        benchmarks.push(bench_bulk_rand_chacha(vec![0; read_size]));
    }

    benchmarks
}

#[test]
fn main_test_benchmarks() {
    for mut bench in collect_benchmarks() {
        (bench.work)(1);
    }
}

fn bench_u32s(skip_first_bytes: usize) -> Benchmark {
    let mut rng = ChaCha8Rand::new(SEED);

    let mut skip_buf = [0; 4];
    rng.read_bytes(&mut skip_buf[..skip_first_bytes]);

    Benchmark {
        label: format!("u32/skip{skip_first_bytes}b"),
        work: Box::new(move |n| {
            for _ in 0..n {
                black_box(rng.read_u32());
            }
        }),
    }
}

fn bench_next_u32_rand_chacha() -> Benchmark {
    let mut rng = rand_chacha::ChaCha8Rng::from_seed(*SEED);
    Benchmark {
        label: "u32/rand_chacha".to_string(),
        work: Box::new(move |n| {
            for _ in 0..n {
                black_box(rng.next_u32());
            }
        }),
    }
}

fn bench_u64s() -> Benchmark {
    let mut rng = ChaCha8Rand::new(SEED);

    Benchmark {
        label: "u64".to_string(),
        work: Box::new(move |n| {
            for _ in 0..n {
                black_box(rng.read_u64());
            }
        }),
    }
}

fn bench_next_u64_rand_chacha() -> Benchmark {
    let mut rng = rand_chacha::ChaCha8Rng::from_seed(*SEED);
    Benchmark {
        label: "u64/rand_chacha".to_string(),
        work: Box::new(move |n| {
            for _ in 0..n {
                black_box(rng.next_u64());
            }
        }),
    }
}

fn bench_bulk(mut dest: Vec<u8>) -> Benchmark {
    let label = format!("bulk{n}", n = dest.len());
    Benchmark {
        label,
        work: Box::new(move |n| {
            let mut rng = ChaCha8Rand::new(SEED);
            for _ in 0..n {
                rng.read_bytes(&mut dest);
                black_box(&mut dest);
            }
        }),
    }
}

fn bench_bulk_rand_chacha(mut dest: Vec<u8>) -> Benchmark {
    let label = format!("bulk{n}/rand_chacha", n = dest.len());
    Benchmark {
        label,
        work: Box::new(move |n| {
            let mut rng = rand_chacha::ChaCha8Rng::from_seed(*SEED);
            for _ in 0..n {
                rng.fill_bytes(&mut dest);
                black_box(&mut dest);
            }
        }),
    }
}
