//! The codec selector: a decision table from the analysis of the content
//! and the caller's preference to a codec descriptor.

use crate::algorithm::{CompressionAlgorithm, OptimizationTarget};
use crate::analysis::{ContentAnalysis, DetectedFileType};
use crate::options::CompressionOptions;
use vstd::prelude::*;

verus! {

/// The score above which text counts as highly compressible (0.8).
pub const TEXT_SCORE_THRESHOLD: u32 = 800_000;

/// The score above which binary content counts as compressible (0.5).
pub const BINARY_SCORE_THRESHOLD: u32 = 500_000;

/// The entropy above which content counts as random (0.95).
pub const HIGH_ENTROPY_THRESHOLD: u32 = 950_000;

/// The score below which content counts as incompressible (0.1).
pub const LOW_SCORE_THRESHOLD: u32 = 100_000;

/// The row of the decision table for highly compressible text.
pub open spec fn text_choice(target: OptimizationTarget) -> CompressionAlgorithm {
    match target {
        OptimizationTarget::Speed => CompressionAlgorithm::Lz4 { high_compression: false },
        OptimizationTarget::Ratio => CompressionAlgorithm::Zstd { level: 15 },
        OptimizationTarget::Memory => CompressionAlgorithm::Deflate { level: 6 },
        OptimizationTarget::Balanced => CompressionAlgorithm::Zstd { level: 6 },
    }
}

/// The row of the decision table for compressible binary content.
pub open spec fn binary_choice(target: OptimizationTarget) -> CompressionAlgorithm {
    match target {
        OptimizationTarget::Speed => CompressionAlgorithm::Lz4 { high_compression: false },
        OptimizationTarget::Ratio => CompressionAlgorithm::Zstd { level: 12 },
        OptimizationTarget::Memory => CompressionAlgorithm::Snappy,
        OptimizationTarget::Balanced => CompressionAlgorithm::Zstd { level: 3 },
    }
}

/// The last row of the decision table.
pub open spec fn general_choice(target: OptimizationTarget) -> CompressionAlgorithm {
    match target {
        OptimizationTarget::Speed => CompressionAlgorithm::Lz4 { high_compression: false },
        OptimizationTarget::Ratio => CompressionAlgorithm::Zstd { level: 9 },
        OptimizationTarget::Memory => CompressionAlgorithm::Snappy,
        OptimizationTarget::Balanced => CompressionAlgorithm::Zstd { level: 3 },
    }
}

/// The decision table; the first row that matches wins. Content that is
/// compressed already (images, archives) or looks random is stored.
pub open spec fn table_choice(analysis: ContentAnalysis, target: OptimizationTarget)
    -> CompressionAlgorithm {
    if analysis.file_type == DetectedFileType::Text && analysis.compressibility_score
        > TEXT_SCORE_THRESHOLD {
        text_choice(target)
    } else if analysis.file_type == DetectedFileType::Binary && analysis.compressibility_score
        > BINARY_SCORE_THRESHOLD {
        binary_choice(target)
    } else if analysis.file_type == DetectedFileType::Image || analysis.file_type
        == DetectedFileType::Archive {
        CompressionAlgorithm::Store
    } else if analysis.entropy > HIGH_ENTROPY_THRESHOLD && analysis.compressibility_score
        < LOW_SCORE_THRESHOLD {
        CompressionAlgorithm::Store
    } else {
        general_choice(target)
    }
}

/// The codec for content with the given analysis: the caller's own where
/// the options name one, the table's otherwise.
pub open spec fn spec_select(analysis: ContentAnalysis, options: CompressionOptions)
    -> CompressionAlgorithm {
    match options.algorithm {
        Some(algorithm) => algorithm,
        None => table_choice(analysis, options.optimization_target),
    }
}

/// Chooses the codec. A codec that the options name is returned unchanged.
pub fn select_algorithm(analysis: &ContentAnalysis, options: &CompressionOptions) -> (algorithm:
    CompressionAlgorithm)
    ensures
        algorithm == spec_select(*analysis, *options),
        options.algorithm matches Some(chosen) ==> algorithm == chosen,
        options.algorithm is None ==> algorithm.valid(),
{
    if let Some(algorithm) = options.algorithm {
        return algorithm;
    }
    let target = options.optimization_target;
    let score = analysis.compressibility_score;
    match analysis.file_type {
        DetectedFileType::Text if score > TEXT_SCORE_THRESHOLD => match target {
            OptimizationTarget::Ratio => CompressionAlgorithm::Zstd { level: 15 },
            OptimizationTarget::Speed => CompressionAlgorithm::Lz4 { high_compression: false },
            OptimizationTarget::Memory => CompressionAlgorithm::Deflate { level: 6 },
            OptimizationTarget::Balanced => CompressionAlgorithm::Zstd { level: 6 },
        },
        DetectedFileType::Binary if score > BINARY_SCORE_THRESHOLD => match target {
            OptimizationTarget::Ratio => CompressionAlgorithm::Zstd { level: 12 },
            OptimizationTarget::Speed => CompressionAlgorithm::Lz4 { high_compression: false },
            OptimizationTarget::Memory => CompressionAlgorithm::Snappy,
            OptimizationTarget::Balanced => CompressionAlgorithm::Zstd { level: 3 },
        },
        DetectedFileType::Image | DetectedFileType::Archive => CompressionAlgorithm::Store,
        _ => if analysis.entropy > HIGH_ENTROPY_THRESHOLD && score < LOW_SCORE_THRESHOLD {
            CompressionAlgorithm::Store
        } else {
            match target {
                OptimizationTarget::Speed => CompressionAlgorithm::Lz4 { high_compression: false },
                OptimizationTarget::Ratio => CompressionAlgorithm::Zstd { level: 9 },
                OptimizationTarget::Memory => CompressionAlgorithm::Snappy,
                OptimizationTarget::Balanced => CompressionAlgorithm::Zstd { level: 3 },
            }
        },
    }
}

/// The selector is total, and a codec that the options name is its answer.
pub proof fn lemma_selector_respects_choice(
    analysis: ContentAnalysis,
    options: CompressionOptions,
    chosen: CompressionAlgorithm,
)
    requires
        options.algorithm == Some(chosen),
    ensures
        spec_select(analysis, options) == chosen,
{
}

/// Every codec that the decision table gives has its parameters in range.
pub proof fn lemma_table_choice_valid(analysis: ContentAnalysis, target: OptimizationTarget)
    ensures
        table_choice(analysis, target).valid(),
{
}

} // verus!
