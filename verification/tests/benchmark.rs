use encs::benchmark::{
    benchmark_algorithms, benchmark_candidates, has_ratio_ge, measure, sort_by_ratio,
};
use encs::clock::saturating_nanos;
use encs::{BenchmarkResult, CompressionAlgorithm, CompressionEngine};

fn mbps(bytes: usize, nanos: u64) -> f64 {
    (bytes as f64 / (1024.0 * 1024.0)) / (nanos as f64 / 1_000_000_000.0)
}

fn ratio(row: &BenchmarkResult) -> f64 {
    row.original_size as f64 / row.compressed_size as f64
}

#[test]
fn test_multiple_algorithms() {
    let engine = CompressionEngine::new().unwrap();
    let data = b"Test data for benchmarking different algorithms".repeat(50);

    let results = engine.benchmark_algorithms(&data);

    assert!(!results.is_empty());
    for result in &results {
        assert!(ratio(result) > 0.0);
        assert!(mbps(result.original_size, result.compression_nanos) > 0.0);
        assert!(mbps(result.original_size, result.decompression_nanos) > 0.0);
    }
}

#[test]
fn benchmark_ranks_by_ratio() {
    let data = b"Hello World! This is a test file for compression.".repeat(100);
    let results = benchmark_algorithms(&data);
    assert!(results.len() >= 5);
    assert_eq!(results.len(), 7);
    for pair in results.windows(2) {
        assert!(ratio(&pair[0]) >= ratio(&pair[1]));
    }
    for row in &results {
        assert_eq!(row.original_size, data.len());
        assert!(row.compressed_size >= 12);
        assert!(mbps(row.original_size, row.compression_nanos) > 0.0);
        assert!(mbps(row.original_size, row.decompression_nanos) > 0.0);
    }
    let mut seen: Vec<CompressionAlgorithm> = results.iter().map(|row| row.algorithm).collect();
    for candidate in benchmark_candidates() {
        let at = seen.iter().position(|a| *a == candidate).unwrap();
        seen.remove(at);
    }
    assert!(seen.is_empty());
}

#[test]
fn benchmark_candidates_are_the_seven() {
    assert_eq!(
        benchmark_candidates(),
        vec![
            CompressionAlgorithm::Lz4 { high_compression: false },
            CompressionAlgorithm::Lz4 { high_compression: true },
            CompressionAlgorithm::Zstd { level: 3 },
            CompressionAlgorithm::Zstd { level: 9 },
            CompressionAlgorithm::Snappy,
            CompressionAlgorithm::Brotli { quality: 4 },
            CompressionAlgorithm::Deflate { level: 6 },
        ]
    );
}

#[test]
fn failing_codec_has_no_row() {
    let data = b"some bytes".to_vec();
    assert!(measure(&data, &CompressionAlgorithm::Zstd { level: 99 }).is_none());
    let row = measure(&data, &CompressionAlgorithm::Store).unwrap();
    assert_eq!(row.algorithm, CompressionAlgorithm::Store);
    assert_eq!(row.original_size, 10);
    assert_eq!(row.compressed_size, 22);
    // More than a worker may hold: every candidate fails, the benchmark does not.
    let huge = vec![0u8; (64 << 20) + 1];
    assert!(benchmark_algorithms(&huge).is_empty());
}

fn row(original_size: usize, compressed_size: usize, level: i32) -> BenchmarkResult {
    BenchmarkResult {
        algorithm: CompressionAlgorithm::Zstd { level },
        original_size,
        compressed_size,
        compression_nanos: 1,
        decompression_nanos: 1,
    }
}

#[test]
fn sort_by_ratio_is_descending_and_stable() {
    let rows = vec![
        row(100, 50, 1),  // 2
        row(100, 20, 2),  // 5
        row(300, 100, 3), // 3
        row(10, 5, 4),    // 2
        row(7, 1, 5),     // 7
        row(6, 2, 6),     // 3
    ];
    let levels: Vec<i32> = sort_by_ratio(rows)
        .iter()
        .map(|row| match row.algorithm {
            CompressionAlgorithm::Zstd { level } => level,
            _ => unreachable!(),
        })
        .collect();
    assert_eq!(levels, vec![5, 2, 3, 6, 1, 4]);
    assert_eq!(sort_by_ratio(Vec::new()), Vec::new());
}

#[test]
fn ratios_are_compared_exactly() {
    assert!(has_ratio_ge(&row(2, 1, 0), &row(2, 1, 0)));
    assert!(has_ratio_ge(&row(3, 1, 0), &row(2, 1, 0)));
    assert!(!has_ratio_ge(&row(2, 1, 0), &row(3, 1, 0)));
    // 10^18 / (10^18 - 1) against 1: too close for a float.
    let big = 1_000_000_000_000_000_000usize;
    assert!(has_ratio_ge(&row(big, big - 1, 0), &row(1, 1, 0)));
    assert!(!has_ratio_ge(&row(1, 1, 0), &row(big, big - 1, 0)));
    assert!(has_ratio_ge(&row(usize::MAX, 1, 0), &row(usize::MAX - 1, 1, 0)));
}

#[test]
fn nanoseconds_stop_at_64_bits() {
    assert_eq!(saturating_nanos(0), 0);
    assert_eq!(saturating_nanos(1_500_000_000), 1_500_000_000);
    assert_eq!(saturating_nanos(u64::MAX as u128), u64::MAX);
    assert_eq!(saturating_nanos(u64::MAX as u128 + 1), u64::MAX);
    assert_eq!(saturating_nanos(u128::MAX), u64::MAX);
}
