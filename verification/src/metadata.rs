//! What a compression reports about itself. None of it is written into the
//! container.

use crate::algorithm::CompressionAlgorithm;
use crate::analysis::ContentAnalysis;
use crate::container::{InternalCompressionResult, VERSION};
use crate::hash::{blake3, calculate_file_hash, crc32, sha256, FileHash};
use vstd::prelude::*;

verus! {

/// Sizes and times of one compression. The compression ratio is
/// `original_size` over `compressed_size`; the throughput follows from the
/// size and the time.
#[derive(Debug, Clone, Copy, PartialEq, Eq, Structural)]
pub struct CompressionMetrics {
    pub compression_time_ms: u64,
    pub decompression_time_ms: Option<u64>,
    pub original_size: u64,
    pub compressed_size: u64,
    pub chunk_count: u32,
}

/// The record of one compression.
#[derive(Debug, Clone, Copy, PartialEq, Eq)]
pub struct FileMetadata {
    pub format_version: u32,
    /// When the container was made, in seconds since the Unix epoch, as the
    /// caller's clock had it.
    pub created_at: u64,
    pub algorithm: CompressionAlgorithm,
    pub metrics: CompressionMetrics,
    pub analysis: ContentAnalysis,
    /// The hashes of the whole plaintext.
    pub file_hash: FileHash,
}

/// Puts the record of a compression together and hashes the plaintext.
pub fn create_metadata(
    data: &[u8],
    sizes: &InternalCompressionResult,
    analysis: &ContentAnalysis,
    algorithm: &CompressionAlgorithm,
    compression_time_ms: u64,
    created_at: u64,
) -> (metadata: FileMetadata)
    ensures
        metadata.format_version == VERSION,
        metadata.created_at == created_at,
        metadata.algorithm == *algorithm,
        metadata.analysis == *analysis,
        metadata.metrics == (CompressionMetrics {
            compression_time_ms,
            decompression_time_ms: None,
            original_size: data@.len() as u64,
            compressed_size: sizes.compressed_size,
            chunk_count: sizes.chunk_count,
        }),
        metadata.file_hash.sha256@ == sha256(data@),
        metadata.file_hash.blake3@ == blake3(data@),
        metadata.file_hash.crc32 == crc32(data@),
{
    FileMetadata {
        format_version: VERSION,
        created_at,
        algorithm: *algorithm,
        metrics: CompressionMetrics {
            compression_time_ms,
            decompression_time_ms: None,
            original_size: data.len() as u64,
            compressed_size: sizes.compressed_size,
            chunk_count: sizes.chunk_count,
        },
        analysis: *analysis,
        file_hash: calculate_file_hash(data),
    }
}

} // verus!
