use encs::options::CHUNK_SIZE_SMALL;
use encs::{CompressionAlgorithm, CompressionOptions, OptimizationTarget};

#[test]
fn test_builder_pattern() {
    let options = CompressionOptions::builder()
        .algorithm(CompressionAlgorithm::Lz4 { high_compression: true })
        .optimize_for(OptimizationTarget::Speed)
        .chunk_size(CHUNK_SIZE_SMALL)
        .threads(4)
        .verify(true)
        .streaming(false)
        .build();

    assert_eq!(options.optimization_target, OptimizationTarget::Speed);
    assert_eq!(options.chunk_size, CHUNK_SIZE_SMALL);
    assert_eq!(options.thread_count, Some(4));
    assert!(options.verify);
    assert!(!options.streaming);
}
