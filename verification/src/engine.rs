//! The engine: configuration, the analysis cache, and the operations that
//! tie analyzer, selector and container together.

use crate::algorithm::{CompressionAlgorithm, OptimizationTarget};
use crate::analysis::{
    analyze_content_detailed, cut_sample, lemma_sample_idempotent, spec_analysis_of,
    ContentAnalysis, SCALE,
};
use crate::benchmark::{
    benchmark_algorithms, covers, distinct_algorithms, sorted_by_ratio, spec_candidates,
    BenchmarkResult,
};
use crate::clock::{clock_now, nanos_since};
use crate::codec::MAX_MEMORY_PER_THREAD;
use crate::container::{
    compress_internal, decompress_container, spec_compress_chunks, spec_compress_container,
    spec_decompress_container,
};
use crate::roundtrip::{codec_restores_pieces, lemma_container_roundtrip};
use crate::error::{bytes_result_view, configuration, CompressionError, ErrorView};
use crate::bytes::same_bytes;
use crate::hash::{blake3, crc32, crc32_of, sha256};
use crate::metadata::{create_metadata, FileMetadata};
use crate::options::{
    CompressionOptions, CHUNK_SIZE_LARGE, CHUNK_SIZE_MEDIUM, CHUNK_SIZE_SMALL,
};
use crate::selector::{select_algorithm, spec_select};
use dashmap::DashMap;
use vstd::prelude::*;

verus! {

/// The concurrent map of the `dashmap` crate.
#[verifier::external_type_specification]
#[verifier::external_body]
#[verifier::reject_recursive_types(K)]
#[verifier::reject_recursive_types(V)]
#[verifier::reject_recursive_types(S)]
pub struct ExDashMap<K, V, S>(DashMap<K, V, S>);

/// What the analysis cache holds.
pub uninterp spec fn cache_contents(
    cache: DashMap<u64, ContentAnalysis>,
) -> Map<u64, ContentAnalysis>;

/// A cache that holds nothing.
pub open spec fn empty_cache() -> Map<u64, ContentAnalysis> {
    Map::empty()
}

/// Calls `DashMap::new`, which gives an empty map.
#[verifier::external_body]
fn cache_new() -> (cache: DashMap<u64, ContentAnalysis>)
    ensures
        cache_contents(cache) == empty_cache(),
{
    DashMap::new()
}

/// Calls `DashMap::get` and copies the value out: the value that was last
/// inserted under `key`, if any.
#[verifier::external_body]
fn cache_get(cache: &DashMap<u64, ContentAnalysis>, key: u64) -> (found: Option<
    ContentAnalysis,
>)
    ensures
        found == if cache_contents(*cache).dom().contains(key) {
            Some(cache_contents(*cache)[key])
        } else {
            None
        },
{
    match cache.get(&key) {
        Some(entry) => Some(*entry),
        None => None,
    }
}

/// Calls `DashMap::insert`, which puts `value` under `key` and replaces
/// what was there.
#[verifier::external_body]
fn cache_insert(cache: &mut DashMap<u64, ContentAnalysis>, key: u64, value: ContentAnalysis)
    ensures
        cache_contents(*final(cache)) == cache_contents(*old(cache)).insert(key, value),
{
    cache.insert(key, value);
}

/// Inputs of at most this size are cut into small chunks.
pub const SMALL_FILE_THRESHOLD: u64 = 16 * 1024 * 1024;

/// Inputs of at most this size are cut into medium chunks.
pub const LARGE_FILE_THRESHOLD: u64 = 1024 * 1024 * 1024;

/// The memory ceiling of the default configuration, 2 GiB.
pub const DEFAULT_MEMORY_LIMIT: u64 = 2 * 1024 * 1024 * 1024;

/// The largest number of workers of the default configuration.
pub const DEFAULT_MAX_THREADS: usize = 8;

/// The configuration of an engine.
#[derive(Debug, Clone, Copy, PartialEq, Eq, Structural)]
pub struct EngineConfig {
    /// The number of workers where the options name none.
    pub max_threads: usize,
    /// The memory ceiling in bytes.
    pub memory_limit: u64,
    pub optimization_target: OptimizationTarget,
    pub auto_detect: bool,
}

/// Calls `num_cpus::get`. The number depends on the machine; nothing is
/// claimed of it.
#[verifier::external_body]
fn available_cpus() -> usize {
    num_cpus::get()
}

impl EngineConfig {
    /// The default configuration on a machine with `cpus` processors.
    pub open spec fn spec_for_cpus(cpus: usize) -> EngineConfig {
        EngineConfig {
            max_threads: if cpus < DEFAULT_MAX_THREADS {
                cpus
            } else {
                DEFAULT_MAX_THREADS
            },
            memory_limit: DEFAULT_MEMORY_LIMIT,
            optimization_target: OptimizationTarget::Balanced,
            auto_detect: true,
        }
    }

    /// The default configuration on a machine with `cpus` processors: as
    /// many workers as processors but no more than eight, a ceiling of
    /// 2 GiB, the balanced target.
    pub fn for_cpus(cpus: usize) -> (config: EngineConfig)
        ensures
            config == EngineConfig::spec_for_cpus(cpus),
    {
        EngineConfig {
            max_threads: if cpus < DEFAULT_MAX_THREADS {
                cpus
            } else {
                DEFAULT_MAX_THREADS
            },
            memory_limit: DEFAULT_MEMORY_LIMIT,
            optimization_target: OptimizationTarget::Balanced,
            auto_detect: true,
        }
    }
}

impl Default for EngineConfig {
    /// The default configuration on this machine.
    fn default() -> (config: EngineConfig)
        ensures
            exists|cpus: usize| config == EngineConfig::spec_for_cpus(cpus),
            config.max_threads <= DEFAULT_MAX_THREADS,
            config.memory_limit == DEFAULT_MEMORY_LIMIT,
    {
        EngineConfig::for_cpus(available_cpus())
    }
}

/// The chunk size for an input of `file_size` bytes.
pub open spec fn spec_chunk_size(file_size: u64) -> usize {
    if file_size <= SMALL_FILE_THRESHOLD {
        CHUNK_SIZE_SMALL
    } else if file_size <= LARGE_FILE_THRESHOLD {
        CHUNK_SIZE_MEDIUM
    } else {
        CHUNK_SIZE_LARGE
    }
}

/// The number of workers: the options' own, else the engine's.
pub open spec fn spec_threads(config: EngineConfig, options: CompressionOptions) -> usize {
    match options.thread_count {
        Some(count) => count,
        None => config.max_threads,
    }
}

/// The memory that a compression is projected to use: for each worker a
/// chunk of input, one of output and one to work in.
pub open spec fn estimated_memory(config: EngineConfig, options: CompressionOptions) -> int {
    options.chunk_size * spec_threads(config, options) * 3
}

/// `n` as a `usize`, or the largest `usize` if it does not fit.
pub open spec fn saturate(n: int) -> usize {
    if n > usize::MAX {
        usize::MAX
    } else {
        n as usize
    }
}

/// The fault that the memory ceiling finds with the options, if any: the
/// projected use exceeds the ceiling, or one chunk exceeds what a worker
/// may hold.
pub open spec fn spec_memory_fault(config: EngineConfig, options: CompressionOptions) -> Option<
    ErrorView,
> {
    if estimated_memory(config, options) > config.memory_limit {
        Some(
            ErrorView::MemoryLimit {
                requested: saturate(estimated_memory(config, options)),
                limit: saturate(config.memory_limit as int),
            },
        )
    } else if options.chunk_size > MAX_MEMORY_PER_THREAD {
        Some(
            ErrorView::MemoryLimit {
                requested: options.chunk_size,
                limit: MAX_MEMORY_PER_THREAD,
            },
        )
    } else {
        None
    }
}

/// The fault that validation finds with an input, if any.
pub open spec fn spec_input_fault(path: Seq<char>, exists: bool, is_file: bool, size: u64)
    -> Option<ErrorView> {
    if !exists {
        Some(ErrorView::FileRead { path, message: "File not found"@ })
    } else if !is_file {
        Some(ErrorView::Configuration { message: "Not a regular file"@ })
    } else if size == 0 {
        Some(ErrorView::Configuration { message: "Cannot compress empty file"@ })
    } else {
        None
    }
}

/// The analysis of `data`, given the entropy of its sample.
pub open spec fn spec_analysis(data: Seq<u8>, entropy: u32) -> ContentAnalysis {
    spec_analysis_of(data, entropy)
}

/// The codec that the engine uses for `data`.
pub open spec fn spec_choice(data: Seq<u8>, entropy: u32, options: CompressionOptions)
    -> CompressionAlgorithm {
    spec_select(spec_analysis(data, entropy), options)
}

/// What the engine decides before it compresses: the codec, the chunk size
/// and the analysis that the codec was chosen by.
#[derive(Debug, Clone, Copy, PartialEq, Eq, Structural)]
pub struct CompressionPlan {
    pub algorithm: CompressionAlgorithm,
    pub chunk_size: usize,
    pub analysis: ContentAnalysis,
}

/// The plan for an input of `file_size` bytes that begins with `sample`,
/// or the fault that stops the engine: an empty input, or the memory
/// ceiling.
pub open spec fn spec_plan(
    config: EngineConfig,
    file_size: u64,
    sample: Seq<u8>,
    entropy: u32,
    options: CompressionOptions,
) -> Result<CompressionPlan, ErrorView> {
    if file_size == 0 {
        Err(ErrorView::Configuration { message: "Cannot compress empty file"@ })
    } else if spec_memory_fault(config, options) is Some {
        Err(spec_memory_fault(config, options)->Some_0)
    } else {
        let analysis = spec_analysis_of(sample, entropy);
        Ok(
            CompressionPlan {
                algorithm: spec_select(analysis, options),
                chunk_size: spec_chunk_size(file_size),
                analysis,
            },
        )
    }
}

/// The fault that verification finds with a container for `data`, if any:
/// the container does not decode, or it decodes to other bytes.
pub open spec fn spec_verification_fault(container: Seq<u8>, data: Seq<u8>) -> Option<ErrorView> {
    match spec_decompress_container(container) {
        Err(e) => Some(e),
        Ok(plaintext) => if plaintext == data {
            None
        } else {
            Some(ErrorView::IntegrityViolation { expected: crc32(data), actual: crc32(plaintext) })
        },
    }
}

/// The container that the engine makes of `data`, or the fault that stops
/// it: an empty input, the memory ceiling, what compressing reports, or,
/// where the options ask for verification, what verification finds.
pub open spec fn spec_compress_file(
    config: EngineConfig,
    data: Seq<u8>,
    entropy: u32,
    options: CompressionOptions,
) -> Result<Seq<u8>, ErrorView> {
    match spec_plan(config, data.len() as u64, data, entropy, options) {
        Err(e) => Err(e),
        Ok(plan) => match spec_compress_container(data, plan.chunk_size as int, plan.algorithm) {
            Err(e) => Err(e),
            Ok(container) => if options.verify && spec_verification_fault(container, data)
                is Some {
                Err(spec_verification_fault(container, data)->Some_0)
            } else {
                Ok(container)
            },
        },
    }
}

/// Checks an input before anything is read: it must exist, be a regular
/// file and not be empty.
pub fn validate_inputs(path: &str, exists: bool, is_file: bool, size: u64) -> (r: Result<
    (),
    CompressionError,
>)
    ensures
        match r {
            Ok(()) => spec_input_fault(path@, exists, is_file, size) is None,
            Err(e) => spec_input_fault(path@, exists, is_file, size) == Some(e@),
        },
{
    if !exists {
        return Err(
            CompressionError::FileRead {
                path: path.to_string(),
                message: "File not found".to_string(),
            },
        );
    }
    if !is_file {
        return Err(configuration("Not a regular file"));
    }
    if size == 0 {
        return Err(configuration("Cannot compress empty file"));
    }
    Ok(())
}

/// Verifies a container against the input it was made of: decodes it and
/// compares the plaintext with `data`, byte for byte.
pub fn verify_compression(container: &[u8], data: &[u8]) -> (r: Result<(), CompressionError>)
    ensures
        match r {
            Ok(()) => spec_decompress_container(container@) == Ok::<Seq<u8>, ErrorView>(data@),
            Err(e) => spec_verification_fault(container@, data@) == Some(e@),
        },
{
    match decompress_container(container) {
        Err(e) => Err(e),
        Ok(plaintext) => {
            if same_bytes(plaintext.as_slice(), data) {
                Ok(())
            } else {
                Err(
                    CompressionError::IntegrityViolation {
                        expected: crc32_of(data),
                        actual: crc32_of(plaintext.as_slice()),
                    },
                )
            }
        },
    }
}

/// The chunk size for an input of `file_size` bytes: 1 MiB up to 16 MiB of
/// input, 4 MiB up to 1 GiB, 16 MiB beyond.
pub fn determine_chunk_size(file_size: u64) -> (chunk_size: usize)
    ensures
        chunk_size == spec_chunk_size(file_size),
        chunk_size > 0,
{
    if file_size <= SMALL_FILE_THRESHOLD {
        CHUNK_SIZE_SMALL
    } else if file_size <= LARGE_FILE_THRESHOLD {
        CHUNK_SIZE_MEDIUM
    } else {
        CHUNK_SIZE_LARGE
    }
}

/// Holds the configuration and the analysis cache.
pub struct CompressionEngine {
    config: EngineConfig,
    content_cache: DashMap<u64, ContentAnalysis>,
}

impl CompressionEngine {
    /// The engine's configuration.
    pub closed spec fn spec_config(&self) -> EngineConfig {
        self.config
    }

    /// The analyses that the engine remembers, by cache key.
    pub closed spec fn cache(&self) -> Map<u64, ContentAnalysis> {
        cache_contents(self.content_cache)
    }

    /// An engine with the default configuration of this machine and an
    /// empty cache.
    pub fn new() -> (r: Result<CompressionEngine, CompressionError>)
        ensures
            r matches Ok(engine) && engine.cache() == empty_cache() && engine.spec_config().max_threads
                <= DEFAULT_MAX_THREADS && engine.spec_config().memory_limit
                == DEFAULT_MEMORY_LIMIT,
    {
        CompressionEngine::with_config(EngineConfig::default())
    }

    /// An engine with the given configuration and an empty cache.
    pub fn with_config(config: EngineConfig) -> (r: Result<CompressionEngine, CompressionError>)
        ensures
            r matches Ok(engine) && engine.spec_config() == config && engine.cache()
                == empty_cache(),
    {
        Ok(CompressionEngine { config, content_cache: cache_new() })
    }

    /// The engine's configuration.
    pub fn config(&self) -> (config: EngineConfig)
        ensures
            config == self.spec_config(),
    {
        self.config
    }

    /// Holds the options against the memory ceiling: refuses them when
    /// chunk size times workers times three exceeds the ceiling, and when
    /// one chunk exceeds what a worker may hold.
    pub fn check_memory_requirements(&self, options: &CompressionOptions) -> (r: Result<
        (),
        CompressionError,
    >)
        ensures
            match r {
                Ok(()) => spec_memory_fault(self.spec_config(), *options) is None,
                Err(e) => spec_memory_fault(self.spec_config(), *options) == Some(e@),
            },
    {
        let chunk_size = options.chunk_size;
        let thread_count = match options.thread_count {
            Some(count) => count,
            None => self.config.max_threads,
        };
        assert(chunk_size * thread_count <= 0xFFFF_FFFF_FFFF_FFFF * 0xFFFF_FFFF_FFFF_FFFF)
            by (nonlinear_arith)
            requires
                chunk_size <= 0xFFFF_FFFF_FFFF_FFFF,
                thread_count <= 0xFFFF_FFFF_FFFF_FFFF,
        ;
        let per_buffer: u128 = chunk_size as u128 * thread_count as u128;
        assert(estimated_memory(self.config, *options) == per_buffer * 3) by (nonlinear_arith)
            requires
                estimated_memory(self.config, *options) == chunk_size * thread_count * 3,
                per_buffer == chunk_size * thread_count,
        ;
        let limit = self.config.memory_limit;
        if per_buffer > (limit / 3) as u128 {
            let requested = if per_buffer > (usize::MAX / 3) as u128 {
                usize::MAX
            } else {
                (per_buffer * 3) as usize
            };
            let limit = if limit > usize::MAX as u64 {
                usize::MAX
            } else {
                limit as usize
            };
            return Err(CompressionError::MemoryLimit { requested, limit });
        }
        if chunk_size > MAX_MEMORY_PER_THREAD {
            return Err(
                CompressionError::MemoryLimit {
                    requested: chunk_size,
                    limit: MAX_MEMORY_PER_THREAD,
                },
            );
        }
        Ok(())
    }

    /// Decides how an input of `file_size` bytes is compressed. `sample` is
    /// the first 64 KiB of the input (all of it, if it is shorter) and
    /// `entropy` the entropy of the sample in millionths. An empty input is
    /// refused with `Configuration`, options beyond the memory ceiling with
    /// `MemoryLimit`; then the sample is analyzed, the codec is the options'
    /// own or the selector's choice, and the chunk size follows from the
    /// size of the input.
    pub fn plan(&self, file_size: u64, sample: &[u8], entropy: u32, options: &CompressionOptions)
        -> (r: Result<CompressionPlan, CompressionError>)
        requires
            entropy <= SCALE,
        ensures
            match r {
                Ok(plan) => spec_plan(self.spec_config(), file_size, sample@, entropy, *options)
                    == Ok::<CompressionPlan, ErrorView>(plan) && plan.chunk_size > 0
                    && plan.analysis.wf(),
                Err(e) => spec_plan(self.spec_config(), file_size, sample@, entropy, *options)
                    == Err::<CompressionPlan, ErrorView>(e@),
            },
            file_size == 0 ==> (r matches Err(e) && e is Configuration),
            file_size > 0 && estimated_memory(self.spec_config(), *options)
                > self.spec_config().memory_limit ==> (r matches Err(e) && e is MemoryLimit),
    {
        if file_size == 0 {
            return Err(configuration("Cannot compress empty file"));
        }
        match self.check_memory_requirements(options) {
            Err(e) => {
                return Err(e);
            },
            Ok(()) => {},
        }
        let analysis = analyze_content_detailed(sample, entropy);
        let algorithm = select_algorithm(&analysis, options);
        let chunk_size = determine_chunk_size(file_size);
        Ok(CompressionPlan { algorithm, chunk_size, analysis })
    }

    /// Compresses `data` into a container.
    ///
    /// `entropy` is the entropy of the first 64 KiB of `data` (of all of it,
    /// if it is shorter) in millionths, and `created_at` the caller's time
    /// in seconds since the Unix epoch. An empty input is refused with
    /// `Configuration`, options beyond the memory ceiling with
    /// `MemoryLimit`, both before anything is analysed or compressed. The
    /// codec is the options' own or the selector's choice; the chunk size
    /// follows from the size of the input. Where the options ask for
    /// verification, the container is decoded again and handed out only if
    /// it gives `data` back.
    pub fn compress_file(
        &self,
        data: &[u8],
        entropy: u32,
        created_at: u64,
        options: &CompressionOptions,
    ) -> (r: Result<(Vec<u8>, FileMetadata), CompressionError>)
        requires
            entropy <= SCALE,
        ensures
            match r {
                Ok((container, metadata)) => {
                    &&& spec_compress_file(self.spec_config(), data@, entropy, *options) == Ok::<
                        Seq<u8>,
                        ErrorView,
                    >(container@)
                    &&& metadata.format_version == crate::container::VERSION
                    &&& metadata.created_at == created_at
                    &&& metadata.algorithm == spec_choice(data@, entropy, *options)
                    &&& metadata.analysis == spec_analysis(data@, entropy)
                    &&& metadata.metrics.original_size == data@.len()
                    &&& metadata.metrics.compressed_size + crate::container::header_bytes(
                        metadata.algorithm,
                    ).len() == container@.len()
                    &&& spec_compress_chunks(
                        data@,
                        spec_chunk_size(data@.len() as u64) as int,
                        metadata.algorithm,
                    ) matches Ok(frames) && metadata.metrics.chunk_count == frames.len()
                    &&& metadata.metrics.decompression_time_ms is None
                    &&& metadata.file_hash.sha256@ == sha256(data@)
                    &&& metadata.file_hash.blake3@ == blake3(data@)
                    &&& metadata.file_hash.crc32 == crc32(data@)
                },
                Err(e) => spec_compress_file(self.spec_config(), data@, entropy, *options) == Err::<
                    Seq<u8>,
                    ErrorView,
                >(e@),
            },
            options.verify ==> (r matches Ok(made) ==> spec_decompress_container(made.0@) == Ok::<
                Seq<u8>,
                ErrorView,
            >(data@)),
            data@.len() == 0 ==> (r matches Err(e) && e is Configuration),
            data@.len() > 0 && estimated_memory(self.spec_config(), *options)
                > self.spec_config().memory_limit ==> (r matches Err(e) && e is MemoryLimit),
    {
        let start = clock_now();
        let sample = cut_sample(data);
        proof {
            lemma_sample_idempotent(data@);
        }
        let plan = match self.plan(data.len() as u64, sample, entropy, options) {
            Ok(plan) => plan,
            Err(e) => {
                return Err(e);
            },
        };
        let analysis = plan.analysis;
        let algorithm = plan.algorithm;
        match compress_internal(data, plan.chunk_size, &algorithm) {
            Err(e) => Err(e),
            Ok((container, sizes)) => {
                if options.verify {
                    match verify_compression(container.as_slice(), data) {
                        Err(e) => {
                            return Err(e);
                        },
                        Ok(()) => {},
                    }
                }
                let elapsed_ms = nanos_since(&start) / 1_000_000;
                let metadata = create_metadata(
                    data,
                    &sizes,
                    &analysis,
                    &algorithm,
                    elapsed_ms,
                    created_at,
                );
                Ok((container, metadata))
            },
        }
    }

    /// Decompresses a container into its plaintext. The first fault in the
    /// header, the framing, a codec or a checksum ends the decoding.
    pub fn decompress_file(&self, container: &[u8]) -> (r: Result<Vec<u8>, CompressionError>)
        ensures
            bytes_result_view(r) == spec_decompress_container(container@),
    {
        decompress_container(container)
    }

    /// Runs every candidate codec on `data` and ranks the rows by
    /// compression ratio, the highest first.
    pub fn benchmark_algorithms(&self, data: &[u8]) -> (results: Vec<BenchmarkResult>)
        ensures
            sorted_by_ratio(results@),
            results@.len() <= spec_candidates().len(),
            covers(results@, data@, spec_candidates().len() as int),
            distinct_algorithms(results@),
    {
        benchmark_algorithms(data)
    }

    /// The analysis remembered under `key`, if any.
    pub fn cached_analysis(&self, key: u64) -> (found: Option<ContentAnalysis>)
        ensures
            found == if self.cache().dom().contains(key) {
                Some(self.cache()[key])
            } else {
                None
            },
    {
        cache_get(&self.content_cache, key)
    }

    /// The analysis of a file whose cache key is `key`: the remembered one
    /// where there is one, else the analysis of `sample` with the given
    /// entropy, which is then remembered under `key`.
    pub fn analyze_file(&mut self, key: u64, sample: &[u8], entropy: u32) -> (analysis:
        ContentAnalysis)
        requires
            entropy <= SCALE,
        ensures
            final(self).spec_config() == old(self).spec_config(),
            old(self).cache().dom().contains(key) ==> analysis == old(self).cache()[key]
                && final(self).cache() == old(self).cache(),
            !old(self).cache().dom().contains(key) ==> analysis == spec_analysis_of(
                sample@,
                entropy,
            ) && final(self).cache() == old(self).cache().insert(key, analysis),
    {
        match cache_get(&self.content_cache, key) {
            Some(cached) => cached,
            None => {
                let analysis = analyze_content_detailed(sample, entropy);
                cache_insert(&mut self.content_cache, key, analysis);
                analysis
            },
        }
    }
}

/// Round trip through the engine: where `compress_file` succeeds, and the
/// options asked for verification or the codec restores each chunk,
/// `decompress_file` gives the input back, byte for byte.
pub proof fn lemma_file_roundtrip(
    config: EngineConfig,
    data: Seq<u8>,
    entropy: u32,
    options: CompressionOptions,
)
    requires
        spec_compress_file(config, data, entropy, options) is Ok,
        options.verify || codec_restores_pieces(spec_choice(data, entropy, options), data),
    ensures
        spec_decompress_container(spec_compress_file(config, data, entropy, options)->Ok_0)
            == Ok::<Seq<u8>, ErrorView>(data),
{
    if !options.verify {
        lemma_container_roundtrip(
            data,
            spec_chunk_size(data.len() as u64) as int,
            spec_choice(data, entropy, options),
        );
    }
}

} // verus!
