//! The error taxonomy of the library. Errors are values; nothing panics.

use vstd::prelude::*;

verus! {

/// Everything that can go wrong while compressing, decompressing or
/// configuring the engine.
#[derive(Debug, PartialEq, Eq)]
pub enum CompressionError {
    /// The operating system refused to read `path`.
    FileRead { path: String, message: String },
    /// The operating system refused to write `path`.
    FileWrite { path: String, message: String },
    /// A codec returned an error. `chunk_id` names the chunk on the encode
    /// path; the decode path has no chunk numbering and leaves it empty.
    AlgorithmError { codec: String, message: String, chunk_id: Option<u32> },
    /// The container header, the chunk framing or a size check failed.
    InvalidFormat { message: String },
    /// The CRC-32 stored in a frame (`expected`) differs from the CRC-32 of
    /// the decoded plaintext (`actual`).
    IntegrityViolation { expected: u32, actual: u32 },
    /// Invalid input: an empty file, a non-regular file, a codec parameter
    /// out of range.
    Configuration { message: String },
    /// The projected memory use exceeds the configured ceiling.
    MemoryLimit { requested: usize, limit: usize },
    /// The requested capability is not available.
    FeatureUnavailable { feature: String },
}

/// The mathematical value of a [`CompressionError`]: strings become
/// sequences of characters.
pub enum ErrorView {
    FileRead { path: Seq<char>, message: Seq<char> },
    FileWrite { path: Seq<char>, message: Seq<char> },
    AlgorithmError { codec: Seq<char>, message: Seq<char>, chunk_id: Option<u32> },
    InvalidFormat { message: Seq<char> },
    IntegrityViolation { expected: u32, actual: u32 },
    Configuration { message: Seq<char> },
    MemoryLimit { requested: usize, limit: usize },
    FeatureUnavailable { feature: Seq<char> },
}

impl View for CompressionError {
    type V = ErrorView;

    open spec fn view(&self) -> ErrorView {
        match self {
            CompressionError::FileRead { path, message } => ErrorView::FileRead {
                path: path@,
                message: message@,
            },
            CompressionError::FileWrite { path, message } => ErrorView::FileWrite {
                path: path@,
                message: message@,
            },
            CompressionError::AlgorithmError { codec, message, chunk_id } => {
                ErrorView::AlgorithmError { codec: codec@, message: message@, chunk_id: *chunk_id }
            },
            CompressionError::InvalidFormat { message } => ErrorView::InvalidFormat {
                message: message@,
            },
            CompressionError::IntegrityViolation { expected, actual } => {
                ErrorView::IntegrityViolation { expected: *expected, actual: *actual }
            },
            CompressionError::Configuration { message } => ErrorView::Configuration {
                message: message@,
            },
            CompressionError::MemoryLimit { requested, limit } => ErrorView::MemoryLimit {
                requested: *requested,
                limit: *limit,
            },
            CompressionError::FeatureUnavailable { feature } => ErrorView::FeatureUnavailable {
                feature: feature@,
            },
        }
    }
}

/// The name of the kind of an error, as user interfaces print it.
pub open spec fn kind_name(e: ErrorView) -> Seq<char> {
    match e {
        ErrorView::FileRead { .. } => "FileRead"@,
        ErrorView::FileWrite { .. } => "FileWrite"@,
        ErrorView::AlgorithmError { .. } => "AlgorithmError"@,
        ErrorView::InvalidFormat { .. } => "InvalidFormat"@,
        ErrorView::IntegrityViolation { .. } => "IntegrityViolation"@,
        ErrorView::Configuration { .. } => "Configuration"@,
        ErrorView::MemoryLimit { .. } => "MemoryLimit"@,
        ErrorView::FeatureUnavailable { .. } => "FeatureUnavailable"@,
    }
}

impl CompressionError {
    /// The name of this error's kind.
    pub fn kind(&self) -> (name: &'static str)
        ensures
            name@ == kind_name(self@),
    {
        match self {
            CompressionError::FileRead { .. } => "FileRead",
            CompressionError::FileWrite { .. } => "FileWrite",
            CompressionError::AlgorithmError { .. } => "AlgorithmError",
            CompressionError::InvalidFormat { .. } => "InvalidFormat",
            CompressionError::IntegrityViolation { .. } => "IntegrityViolation",
            CompressionError::Configuration { .. } => "Configuration",
            CompressionError::MemoryLimit { .. } => "MemoryLimit",
            CompressionError::FeatureUnavailable { .. } => "FeatureUnavailable",
        }
    }
}

/// The mathematical value of a result that carries bytes.
pub open spec fn bytes_result_view(r: Result<Vec<u8>, CompressionError>) -> Result<
    Seq<u8>,
    ErrorView,
> {
    match r {
        Ok(v) => Ok(v@),
        Err(e) => Err(e@),
    }
}

/// An `InvalidFormat` error with the given diagnostic.
pub fn invalid_format(message: &str) -> (e: CompressionError)
    ensures
        e@ == (ErrorView::InvalidFormat { message: message@ }),
{
    CompressionError::InvalidFormat { message: message.to_string() }
}

/// A `Configuration` error with the given diagnostic.
pub fn configuration(message: &str) -> (e: CompressionError)
    ensures
        e@ == (ErrorView::Configuration { message: message@ }),
{
    CompressionError::Configuration { message: message.to_string() }
}

} // verus!
