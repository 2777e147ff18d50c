//! Content-aware, chunked compression into the self-describing ENCS container.
//!
//! The library holds the container format, the chunk framing with its
//! checksum discipline, the content analyzer, the codec selector and the
//! engine that ties them together. Every function works on plain values
//! (bytes, integers, the types below); reading and writing files, clocks
//! and worker pools are left to the caller.
//!
//! From the leaves up:
//!
//! - [`bytes`]: little-endian integers;
//! - [`error`]: the error taxonomy;
//! - [`algorithm`]: codec descriptors and their encoding;
//! - [`hash`]: CRC-32, SHA-256 and BLAKE3;
//! - [`codec`]: the adapter over the codecs;
//! - [`chunk`]: framing one chunk, and the laws of a frame;
//! - [`container`]: header, chunk section, whole containers;
//! - [`roundtrip`]: what is written is read back;
//! - [`pieces`]: the bounds of each chunk, for callers that encode the
//!   chunks on their own workers;
//! - [`reassembly`]: frames in the order of the input, whatever the order
//!   in which workers finish;
//! - [`streaming`]: chunk-by-chunk compression for a caller's writer;
//! - [`analysis`]: the content analyzer;
//! - [`selector`]: the decision table;
//! - [`options`], [`metadata`]: what goes in and what is reported;
//! - [`benchmark`]: the codecs side by side;
//! - [`clock`]: where the times come from;
//! - [`engine`]: the whole, behind one type.
//!
//! The codecs, the hashes, the magic-number table and the concurrent map
//! are outside crates. Each call into one stands in a function of its own
//! whose contract is believed; every other function is proved against its
//! contract.

pub mod algorithm;
pub mod analysis;
pub mod benchmark;
pub mod bytes;
pub mod chunk;
pub mod clock;
pub mod codec;
pub mod container;
pub mod engine;
pub mod error;
pub mod hash;
pub mod metadata;
pub mod options;
pub mod pieces;
pub mod reassembly;
pub mod roundtrip;
pub mod selector;
pub mod streaming;

pub use crate::algorithm::{CompressionAlgorithm, OptimizationTarget};
pub use crate::analysis::{ContentAnalysis, DetectedFileType};
pub use crate::benchmark::BenchmarkResult;
pub use crate::engine::{CompressionEngine, EngineConfig};
pub use crate::error::CompressionError;
pub use crate::hash::FileHash;
pub use crate::metadata::{CompressionMetrics, FileMetadata};
pub use crate::options::{CompressionOptions, CompressionOptionsBuilder};
pub use crate::streaming::StreamingCompressor;
