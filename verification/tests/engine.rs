use encs::analysis::{analyze_content_detailed, DetectedFileType};
use encs::engine::{determine_chunk_size, validate_inputs};
use encs::hash::calculate_file_hash;
use encs::metadata::create_metadata;
use encs::container::InternalCompressionResult;
use encs::{
    CompressionAlgorithm, CompressionEngine, CompressionError, CompressionMetrics,
    CompressionOptions, EngineConfig, OptimizationTarget, StreamingCompressor,
};

fn config(max_threads: usize, memory_limit: u64) -> EngineConfig {
    EngineConfig {
        max_threads,
        memory_limit,
        optimization_target: OptimizationTarget::Balanced,
        auto_detect: true,
    }
}

#[test]
fn default_options() {
    let options = CompressionOptions::default();
    assert_eq!(options.algorithm, None);
    assert_eq!(options.optimization_target, OptimizationTarget::Balanced);
    assert_eq!(options.chunk_size, 4 * 1024 * 1024);
    assert_eq!(options.thread_count, None);
    assert!(!options.verify);
    assert!(!options.streaming);
    assert_eq!(CompressionOptions::builder().build(), options);
}

#[test]
fn default_configuration() {
    let config = EngineConfig::default();
    assert!(config.max_threads <= 8);
    assert_eq!(config.memory_limit, 2 * 1024 * 1024 * 1024);
    assert_eq!(config.optimization_target, OptimizationTarget::Balanced);
    assert!(config.auto_detect);
    assert_eq!(EngineConfig::for_cpus(0).max_threads, 0);
    assert_eq!(EngineConfig::for_cpus(3).max_threads, 3);
    assert_eq!(EngineConfig::for_cpus(8).max_threads, 8);
    assert_eq!(EngineConfig::for_cpus(9).max_threads, 8);
    assert_eq!(EngineConfig::for_cpus(usize::MAX).max_threads, 8);
    let engine = CompressionEngine::new().unwrap();
    assert_eq!(engine.config().memory_limit, 2 * 1024 * 1024 * 1024);
    let engine = CompressionEngine::with_config(EngineConfig::for_cpus(2)).unwrap();
    assert_eq!(engine.config(), EngineConfig::for_cpus(2));
}

#[test]
fn chunk_size_policy() {
    const MIB: u64 = 1024 * 1024;
    assert_eq!(determine_chunk_size(0), 1024 * 1024);
    assert_eq!(determine_chunk_size(1), 1024 * 1024);
    assert_eq!(determine_chunk_size(16 * MIB), 1024 * 1024);
    assert_eq!(determine_chunk_size(16 * MIB + 1), 4 * 1024 * 1024);
    assert_eq!(determine_chunk_size(1024 * MIB), 4 * 1024 * 1024);
    assert_eq!(determine_chunk_size(1024 * MIB + 1), 16 * 1024 * 1024);
    assert_eq!(determine_chunk_size(u64::MAX), 16 * 1024 * 1024);
}

#[test]
fn memory_requirements() {
    let engine = CompressionEngine::with_config(config(4, 48 * 1024 * 1024)).unwrap();
    // 4 MiB * 4 * 3 = 48 MiB: at the ceiling.
    assert_eq!(engine.check_memory_requirements(&CompressionOptions::default()), Ok(()));
    // One byte more per chunk: 12 bytes above.
    let options = CompressionOptions::builder().chunk_size(4 * 1024 * 1024 + 1).build();
    assert_eq!(
        engine.check_memory_requirements(&options),
        Err(CompressionError::MemoryLimit {
            requested: 48 * 1024 * 1024 + 12,
            limit: 48 * 1024 * 1024
        })
    );
    // The options' own worker count replaces the engine's.
    let options = CompressionOptions::builder().threads(5).build();
    assert_eq!(
        engine.check_memory_requirements(&options),
        Err(CompressionError::MemoryLimit {
            requested: 60 * 1024 * 1024,
            limit: 48 * 1024 * 1024
        })
    );
    let options = CompressionOptions::builder().threads(0).chunk_size(1 << 20).build();
    assert_eq!(engine.check_memory_requirements(&options), Ok(()));
    // A chunk beyond what one worker may hold.
    let roomy = CompressionEngine::with_config(config(1, u64::MAX)).unwrap();
    let options = CompressionOptions::builder().chunk_size(64 * 1024 * 1024).build();
    assert_eq!(roomy.check_memory_requirements(&options), Ok(()));
    let options = CompressionOptions::builder().chunk_size(64 * 1024 * 1024 + 1).build();
    assert_eq!(
        roomy.check_memory_requirements(&options),
        Err(CompressionError::MemoryLimit {
            requested: 64 * 1024 * 1024 + 1,
            limit: 64 * 1024 * 1024
        })
    );
    // A projection beyond every integer of the machine.
    let options = CompressionOptions::builder().chunk_size(usize::MAX).threads(usize::MAX).build();
    assert_eq!(
        engine.check_memory_requirements(&options),
        Err(CompressionError::MemoryLimit { requested: usize::MAX, limit: 48 * 1024 * 1024 })
    );
}

#[test]
fn input_validation() {
    assert_eq!(validate_inputs("in.txt", true, true, 1), Ok(()));
    assert_eq!(
        validate_inputs("in.txt", false, true, 1),
        Err(CompressionError::FileRead {
            path: "in.txt".to_string(),
            message: "File not found".to_string()
        })
    );
    assert_eq!(
        validate_inputs("dir", true, false, 1),
        Err(CompressionError::Configuration { message: "Not a regular file".to_string() })
    );
    assert_eq!(
        validate_inputs("empty", true, true, 0),
        Err(CompressionError::Configuration {
            message: "Cannot compress empty file".to_string()
        })
    );
    // The first fault wins.
    assert!(matches!(
        validate_inputs("x", false, false, 0),
        Err(CompressionError::FileRead { .. })
    ));
}

#[test]
fn hashes_of_abc() {
    let hash = calculate_file_hash(b"abc");
    assert_eq!(hash.crc32, 0x352441c2);
    assert_eq!(
        hash.sha256,
        [
            0xba, 0x78, 0x16, 0xbf, 0x8f, 0x01, 0xcf, 0xea, 0x41, 0x41, 0x40, 0xde, 0x5d, 0xae,
            0x22, 0x23, 0xb0, 0x03, 0x61, 0xa3, 0x96, 0x17, 0x7a, 0x9c, 0xb4, 0x10, 0xff, 0x61,
            0xf2, 0x00, 0x15, 0xad
        ]
    );
    assert_eq!(
        hash.blake3,
        [
            0x64, 0x37, 0xb3, 0xac, 0x38, 0x46, 0x51, 0x33, 0xff, 0xb6, 0x3b, 0x75, 0x27, 0x3a,
            0x8d, 0xb5, 0x48, 0xc5, 0x58, 0x46, 0x5d, 0x79, 0xdb, 0x03, 0xfd, 0x35, 0x9c, 0x6c,
            0xd5, 0xbd, 0x9d, 0x85
        ]
    );
    assert_eq!(calculate_file_hash(&[]).crc32, 0);
}

#[test]
fn metadata_record() {
    let data = b"abc";
    let analysis = analyze_content_detailed(data, 100_000);
    let sizes = InternalCompressionResult { original_size: 3, compressed_size: 23, chunk_count: 1 };
    let metadata =
        create_metadata(data, &sizes, &analysis, &CompressionAlgorithm::Snappy, 17, 99);
    assert_eq!(metadata.format_version, 5);
    assert_eq!(metadata.created_at, 99);
    assert_eq!(metadata.algorithm, CompressionAlgorithm::Snappy);
    assert_eq!(metadata.analysis, analysis);
    assert_eq!(
        metadata.metrics,
        CompressionMetrics {
            compression_time_ms: 17,
            decompression_time_ms: None,
            original_size: 3,
            compressed_size: 23,
            chunk_count: 1,
        }
    );
    assert_eq!(metadata.file_hash, calculate_file_hash(data));
}

#[test]
fn analysis_cache_remembers() {
    let mut engine = CompressionEngine::new().unwrap();
    assert_eq!(engine.cached_analysis(1), None);
    let text = b"words words words";
    let first = engine.analyze_file(1, text, 400_000);
    assert_eq!(first.file_type, DetectedFileType::Text);
    assert_eq!(engine.cached_analysis(1), Some(first));
    assert_eq!(engine.cached_analysis(2), None);
    // A hit returns what is remembered, whatever the sample.
    let again = engine.analyze_file(1, &[0, 1, 2], 900_000);
    assert_eq!(again, first);
    let other = engine.analyze_file(2, &[0, 1, 2], 900_000);
    assert_eq!(other.file_type, DetectedFileType::Unknown);
    assert_eq!(other.entropy, 900_000);
    assert_eq!(engine.cached_analysis(1), Some(first));
    assert_eq!(engine.cached_analysis(2), Some(other));
}

#[test]
fn streaming_compressor_counts() {
    let mut stream = StreamingCompressor::new(CompressionAlgorithm::Store);
    let first = stream.write_chunk(b"abc").unwrap();
    assert_eq!(
        first,
        vec![15, 0, 0, 0, 3, 0, 0, 0, 3, 0, 0, 0, 0xc2, 0x41, 0x24, 0x35, b'a', b'b', b'c']
    );
    let second = stream.write_chunk(b"c").unwrap();
    assert_eq!(second, vec![13, 0, 0, 0, 1, 0, 0, 0, 1, 0, 0, 0, 0x6f, 0xdf, 0xb9, 0x06, b'c']);
    assert_eq!(
        stream.finish(),
        CompressionMetrics {
            compression_time_ms: 0,
            decompression_time_ms: None,
            original_size: 4,
            compressed_size: 28,
            chunk_count: 2,
        }
    );
}

#[test]
fn streaming_compressor_numbers_failed_chunks_too() {
    let mut stream = StreamingCompressor::new(CompressionAlgorithm::Zstd { level: 0 });
    assert_eq!(
        stream.write_chunk(b"abc").unwrap_err(),
        CompressionError::Configuration { message: "Codec parameter out of range".to_string() }
    );
    assert_eq!(
        stream.finish(),
        CompressionMetrics {
            compression_time_ms: 0,
            decompression_time_ms: None,
            original_size: 0,
            compressed_size: 0,
            chunk_count: 1,
        }
    );
    let fresh = StreamingCompressor::new(CompressionAlgorithm::Snappy);
    assert_eq!(fresh.finish().chunk_count, 0);
}
