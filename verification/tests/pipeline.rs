use encs::chunk::compress_chunk;
use encs::container::{assemble_container, compress_internal};
use encs::engine::{verify_compression, CompressionPlan};
use encs::reassembly::Reassembly;
use encs::{
    CompressionAlgorithm, CompressionEngine, CompressionError, CompressionOptions,
    DetectedFileType, EngineConfig, OptimizationTarget,
};

fn configuration(message: &str) -> CompressionError {
    CompressionError::Configuration { message: message.to_string() }
}

#[test]
fn reassembly_needs_a_window() {
    assert_eq!(Reassembly::new(0).err(), Some(configuration("Window must be positive")));
    assert!(Reassembly::new(1).is_ok());
}

#[test]
fn reassembly_hands_out_in_input_order() {
    let mut buffer = Reassembly::new(3).unwrap();
    assert_eq!(buffer.pop_ready(), None);
    assert_eq!(buffer.accept(2, vec![2]), Ok(()));
    assert_eq!(buffer.pop_ready(), None);
    assert_eq!(buffer.accept(0, vec![0]), Ok(()));
    assert_eq!(buffer.pop_ready(), Some(vec![0]));
    // Chunk 1 is missing: chunk 2 waits.
    assert_eq!(buffer.pop_ready(), None);
    assert_eq!(buffer.accept(1, vec![1]), Ok(()));
    let mut out = vec![vec![9]];
    buffer.drain_ready(&mut out);
    assert_eq!(out, vec![vec![9], vec![1], vec![2]]);
    buffer.drain_ready(&mut out);
    assert_eq!(out.len(), 3);
    assert_eq!(buffer.pop_ready(), None);
}

#[test]
fn reassembly_refuses_chunks_outside_the_window() {
    let mut buffer = Reassembly::new(3).unwrap();
    assert_eq!(buffer.accept(3, vec![3]), Err(configuration("Chunk outside the window")));
    assert_eq!(buffer.accept(u32::MAX, vec![]), Err(configuration("Chunk outside the window")));
    assert_eq!(buffer.accept(1, vec![1]), Ok(()));
    assert_eq!(buffer.accept(1, vec![7]), Err(configuration("Chunk was handed in twice")));
    assert_eq!(buffer.accept(0, vec![0]), Ok(()));
    assert_eq!(buffer.pop_ready(), Some(vec![0]));
    // The window is now 1, 2, 3.
    assert_eq!(buffer.accept(0, vec![0]), Err(configuration("Chunk outside the window")));
    assert_eq!(buffer.accept(4, vec![4]), Err(configuration("Chunk outside the window")));
    assert_eq!(buffer.accept(3, vec![3]), Ok(()));
    assert_eq!(buffer.pop_ready(), Some(vec![1]));
    assert_eq!(buffer.pop_ready(), None);
    assert_eq!(buffer.accept(2, vec![2]), Ok(()));
    let mut out = Vec::new();
    buffer.drain_ready(&mut out);
    assert_eq!(out, vec![vec![2], vec![3]]);
}

#[test]
fn reassembly_of_one_slot_is_a_queue_of_one() {
    let mut buffer = Reassembly::new(1).unwrap();
    for id in 0..10u32 {
        assert_eq!(buffer.accept(id + 1, vec![]), Err(configuration("Chunk outside the window")));
        assert_eq!(buffer.accept(id, vec![id as u8]), Ok(()));
        assert_eq!(buffer.pop_ready(), Some(vec![id as u8]));
    }
}

#[test]
fn any_completion_order_gives_the_same_container() {
    let data: Vec<u8> = (0..10_000u32).map(|i| (i * 7 % 251) as u8).collect();
    let chunk_size = 900;
    let algorithm = CompressionAlgorithm::Zstd { level: 3 };
    let (expected, sizes) = compress_internal(&data, chunk_size, &algorithm).unwrap();
    let total = sizes.chunk_count as usize;
    for workers in 1..=5usize {
        let mut buffer = Reassembly::new(workers).unwrap();
        let mut frames = Vec::new();
        let mut started = 0;
        while frames.len() < total {
            // A batch of workers that finish in reverse order.
            let batch: Vec<usize> = (started..total.min(frames.len() + workers)).rev().collect();
            for id in batch {
                let from = id * chunk_size;
                let to = (from + chunk_size).min(data.len());
                let frame = compress_chunk(&data[from..to], &algorithm, id as u32).unwrap();
                buffer.accept(id as u32, frame).unwrap();
                started = started.max(id + 1);
            }
            buffer.drain_ready(&mut frames);
        }
        let (container, size) = assemble_container(&algorithm, &frames).unwrap();
        assert_eq!(container, expected);
        assert_eq!(size, sizes.compressed_size);
    }
}

#[test]
fn plan_fixes_codec_and_chunk_size() {
    let engine = CompressionEngine::with_config(EngineConfig {
        max_threads: 2,
        memory_limit: 1 << 30,
        optimization_target: OptimizationTarget::Balanced,
        auto_detect: true,
    })
    .unwrap();
    let sample = b"plain words, again and again";
    let options = CompressionOptions::builder().optimize_for(OptimizationTarget::Ratio).build();
    let plan = engine.plan(17 * 1024 * 1024, sample, 100_000, &options).unwrap();
    assert_eq!(plan.chunk_size, 4 * 1024 * 1024);
    assert_eq!(plan.analysis.file_type, DetectedFileType::Text);
    assert_eq!(plan.analysis.compressibility_score, 1_000_000);
    assert_eq!(plan.algorithm, CompressionAlgorithm::Zstd { level: 15 });
    let explicit = CompressionOptions::builder().algorithm(CompressionAlgorithm::Store).build();
    assert_eq!(
        engine.plan(5, sample, 100_000, &explicit).unwrap(),
        CompressionPlan {
            algorithm: CompressionAlgorithm::Store,
            chunk_size: 1024 * 1024,
            analysis: plan.analysis,
        }
    );
    assert_eq!(
        engine.plan(0, &[], 0, &options).unwrap_err(),
        configuration("Cannot compress empty file")
    );
    // The empty input is refused before the memory ceiling is looked at.
    let greedy = CompressionOptions::builder().chunk_size(1 << 30).build();
    assert_eq!(
        engine.plan(0, &[], 0, &greedy).unwrap_err(),
        configuration("Cannot compress empty file")
    );
    assert_eq!(
        engine.plan(1, b"a", 0, &greedy).unwrap_err(),
        CompressionError::MemoryLimit { requested: 6 << 30, limit: 1 << 30 }
    );
}

#[test]
fn verification_compares_with_the_input() {
    let data = b"Hello World! This is a test file for compression.".repeat(10);
    let (container, _) =
        compress_internal(&data, 100, &CompressionAlgorithm::Deflate { level: 6 }).unwrap();
    assert_eq!(verify_compression(&container, &data), Ok(()));
    let mut other = data.clone();
    other[0] = b'J';
    assert_eq!(
        verify_compression(&container, &other),
        Err(CompressionError::IntegrityViolation {
            expected: crc32fast::hash(&other),
            actual: crc32fast::hash(&data),
        })
    );
    assert_eq!(
        verify_compression(&container[..10], &data),
        Err(CompressionError::InvalidFormat { message: "Unexpected end of input".to_string() })
    );
    assert!(verify_compression(&container, &data[..data.len() - 1]).is_err());
}

#[test]
fn verified_compression_round_trips() {
    let engine = CompressionEngine::new().unwrap();
    let data = b"Hello World! This is a test file for compression.".repeat(100);
    for algorithm in [
        CompressionAlgorithm::Store,
        CompressionAlgorithm::Zstd { level: 3 },
        CompressionAlgorithm::Lz4 { high_compression: false },
        CompressionAlgorithm::Snappy,
        CompressionAlgorithm::Brotli { quality: 4 },
        CompressionAlgorithm::Deflate { level: 6 },
    ] {
        let options = CompressionOptions::builder().algorithm(algorithm).verify(true).build();
        let (container, metadata) = engine.compress_file(&data, 500_000, 0, &options).unwrap();
        assert_eq!(metadata.algorithm, algorithm);
        assert_eq!(engine.decompress_file(&container).unwrap(), data);
    }
}
