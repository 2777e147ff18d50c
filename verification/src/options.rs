//! What a caller can ask of one compression, and the builder for it.

use crate::algorithm::{CompressionAlgorithm, OptimizationTarget};
use vstd::prelude::*;

verus! {

/// Chunk size for inputs of at most 16 MiB.
pub const CHUNK_SIZE_SMALL: usize = 1024 * 1024;

/// Chunk size for inputs of at most 1 GiB, and the default of the options.
pub const CHUNK_SIZE_MEDIUM: usize = 4 * 1024 * 1024;

/// Chunk size for larger inputs.
pub const CHUNK_SIZE_LARGE: usize = 16 * 1024 * 1024;

/// The options of one compression.
#[derive(Debug, Clone, Copy, PartialEq, Eq)]
pub struct CompressionOptions {
    /// The codec to use; the selector chooses when there is none.
    pub algorithm: Option<CompressionAlgorithm>,
    /// What the selector favours.
    pub optimization_target: OptimizationTarget,
    /// The chunk size that the memory ceiling is checked against.
    pub chunk_size: usize,
    /// The number of workers; the engine's own when there is none.
    pub thread_count: Option<usize>,
    /// Whether the caller wants the output checked after writing.
    pub verify: bool,
    /// Whether the caller prefers the streaming path for large inputs.
    pub streaming: bool,
}

impl CompressionOptions {
    /// The options that apply when nothing is asked for.
    pub open spec fn spec_default() -> CompressionOptions {
        CompressionOptions {
            algorithm: None,
            optimization_target: OptimizationTarget::Balanced,
            chunk_size: CHUNK_SIZE_MEDIUM,
            thread_count: None,
            verify: false,
            streaming: false,
        }
    }

    /// A builder that starts from the default options.
    pub fn builder() -> (b: CompressionOptionsBuilder)
        ensures
            b.built() == CompressionOptions::spec_default(),
    {
        CompressionOptionsBuilder {
            algorithm: None,
            optimization_target: None,
            chunk_size: None,
            thread_count: None,
            verify: None,
            streaming: None,
        }
    }
}

impl Default for CompressionOptions {
    fn default() -> (options: CompressionOptions)
        ensures
            options == CompressionOptions::spec_default(),
    {
        CompressionOptions {
            algorithm: None,
            optimization_target: OptimizationTarget::Balanced,
            chunk_size: CHUNK_SIZE_MEDIUM,
            thread_count: None,
            verify: false,
            streaming: false,
        }
    }
}

/// Collects the options one by one.
pub struct CompressionOptionsBuilder {
    algorithm: Option<CompressionAlgorithm>,
    optimization_target: Option<OptimizationTarget>,
    chunk_size: Option<usize>,
    thread_count: Option<usize>,
    verify: Option<bool>,
    streaming: Option<bool>,
}

impl CompressionOptionsBuilder {
    /// The options that `build` would return now: what was set, and the
    /// default for the rest.
    pub closed spec fn built(self) -> CompressionOptions {
        CompressionOptions {
            algorithm: self.algorithm,
            optimization_target: match self.optimization_target {
                Some(target) => target,
                None => OptimizationTarget::Balanced,
            },
            chunk_size: match self.chunk_size {
                Some(size) => size,
                None => CHUNK_SIZE_MEDIUM,
            },
            thread_count: self.thread_count,
            verify: match self.verify {
                Some(verify) => verify,
                None => false,
            },
            streaming: match self.streaming {
                Some(streaming) => streaming,
                None => false,
            },
        }
    }

    /// Fixes the codec.
    pub fn algorithm(self, algorithm: CompressionAlgorithm) -> (b: Self)
        ensures
            b.built() == (CompressionOptions { algorithm: Some(algorithm), ..self.built() }),
    {
        let mut b = self;
        b.algorithm = Some(algorithm);
        b
    }

    /// Sets what the selector favours.
    pub fn optimize_for(self, target: OptimizationTarget) -> (b: Self)
        ensures
            b.built() == (CompressionOptions { optimization_target: target, ..self.built() }),
    {
        let mut b = self;
        b.optimization_target = Some(target);
        b
    }

    /// Sets the chunk size.
    pub fn chunk_size(self, size: usize) -> (b: Self)
        ensures
            b.built() == (CompressionOptions { chunk_size: size, ..self.built() }),
    {
        let mut b = self;
        b.chunk_size = Some(size);
        b
    }

    /// Sets the number of workers.
    pub fn threads(self, count: usize) -> (b: Self)
        ensures
            b.built() == (CompressionOptions { thread_count: Some(count), ..self.built() }),
    {
        let mut b = self;
        b.thread_count = Some(count);
        b
    }

    /// Asks for the output to be checked after writing.
    pub fn verify(self, verify: bool) -> (b: Self)
        ensures
            b.built() == (CompressionOptions { verify, ..self.built() }),
    {
        let mut b = self;
        b.verify = Some(verify);
        b
    }

    /// Prefers the streaming path for large inputs.
    pub fn streaming(self, streaming: bool) -> (b: Self)
        ensures
            b.built() == (CompressionOptions { streaming, ..self.built() }),
    {
        let mut b = self;
        b.streaming = Some(streaming);
        b
    }

    /// The collected options.
    pub fn build(self) -> (options: CompressionOptions)
        ensures
            options == self.built(),
    {
        CompressionOptions {
            algorithm: self.algorithm,
            optimization_target: match self.optimization_target {
                Some(target) => target,
                None => OptimizationTarget::Balanced,
            },
            chunk_size: match self.chunk_size {
                Some(size) => size,
                None => CHUNK_SIZE_MEDIUM,
            },
            thread_count: self.thread_count,
            verify: match self.verify {
                Some(verify) => verify,
                None => false,
            },
            streaming: match self.streaming {
                Some(streaming) => streaming,
                None => false,
            },
        }
    }
}

} // verus!
