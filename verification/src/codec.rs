//! The codec adapter: one pair of functions, `compress_payload` and
//! `decompress_payload`, over the codecs that the container knows.
//!
//! The codecs themselves are outside crates. Each call into one stands in a
//! small function of its own whose contract is believed, not proved; what a
//! codec returns is named by a function without a body.

use crate::algorithm::CompressionAlgorithm;
use crate::bytes::{from_le32, read_le32};
use crate::error::{CompressionError, ErrorView};
use vstd::prelude::*;

verus! {

/// What `zstd::bulk::compress` returns for `data` at `level`: the payload,
/// or the text of its error.
pub uninterp spec fn zstd_compress_outcome(data: Seq<u8>, level: int) -> Result<Seq<u8>, Seq<char>>;

/// What `zstd::bulk::decompress_to_buffer` writes for `payload` into a
/// buffer of exactly `capacity` bytes, or the text of its error.
pub uninterp spec fn zstd_decompress_outcome(payload: Seq<u8>, capacity: int) -> Result<
    Seq<u8>,
    Seq<char>,
>;

/// What `lz4_flex::compress_prepend_size` returns for `data`.
pub uninterp spec fn lz4_compress_output(data: Seq<u8>) -> Seq<u8>;

/// What `lz4_flex::decompress_size_prepended` returns for `payload`.
pub uninterp spec fn lz4_decompress_outcome(payload: Seq<u8>) -> Result<Seq<u8>, Seq<char>>;

/// What `snap::raw::Encoder::compress_vec` returns for `data`.
pub uninterp spec fn snappy_compress_outcome(data: Seq<u8>) -> Result<Seq<u8>, Seq<char>>;

/// What `snap::raw::decompress_len` returns for `payload`: the plaintext
/// size that the payload's header declares.
pub uninterp spec fn snappy_declared_len(payload: Seq<u8>) -> Result<int, Seq<char>>;

/// What `snap::raw::Decoder::decompress_vec` returns for `payload`.
pub uninterp spec fn snappy_decompress_outcome(payload: Seq<u8>) -> Result<Seq<u8>, Seq<char>>;

/// What a `brotli::CompressorWriter` with a 4096-byte buffer, the given
/// quality and a window of 2^22 bytes writes for `data`.
pub uninterp spec fn brotli_compress_outcome(data: Seq<u8>, quality: int) -> Result<
    Seq<u8>,
    Seq<char>,
>;

/// What a `brotli::Decompressor` with a 4096-byte buffer reads from
/// `payload`.
pub uninterp spec fn brotli_decompress_outcome(payload: Seq<u8>) -> Result<Seq<u8>, Seq<char>>;

/// What a `flate2::write::DeflateEncoder` at `level` writes for `data`.
pub uninterp spec fn deflate_compress_outcome(data: Seq<u8>, level: int) -> Result<
    Seq<u8>,
    Seq<char>,
>;

/// What a `flate2::read::DeflateDecoder` reads from `payload`.
pub uninterp spec fn deflate_decompress_outcome(payload: Seq<u8>) -> Result<Seq<u8>, Seq<char>>;

/// The mathematical value of what a codec call hands back.
pub open spec fn outcome_view(r: Result<Vec<u8>, String>) -> Result<Seq<u8>, Seq<char>> {
    match r {
        Ok(v) => Ok(v@),
        Err(m) => Err(m@),
    }
}

/// The largest chunk that one worker may hold, 64 MiB. No plaintext beyond
/// it is encoded, and no payload is decoded that declares more.
pub const MAX_MEMORY_PER_THREAD: usize = 64 * 1024 * 1024;

/// The mathematical value of what `snap::raw::decompress_len` hands back.
pub open spec fn len_outcome_view(r: Result<usize, String>) -> Result<int, Seq<char>> {
    match r {
        Ok(n) => Ok(n as int),
        Err(m) => Err(m@),
    }
}

/// The number of bytes `0xFF` in a row that no LZ4 payload may reach. A
/// length in an LZ4 block is the sum of the bytes of its field, which goes
/// on while the bytes are `0xFF`; a length within the chunk limit needs
/// fewer than 263,172 of them. A run below this limit keeps the sum, and the
/// sum added to a position in the output, within 32 bits.
pub const LZ4_LENGTH_RUN_LIMIT: usize = 1024 * 1024;

/// From `start` on, `s` holds `n` bytes `0xFF` in a row.
pub open spec fn ff_run_at(s: Seq<u8>, start: int, n: int) -> bool {
    &&& 0 <= start
    &&& start + n <= s.len()
    &&& forall|j: int| start <= j < start + n ==> s[j] == 0xff
}

/// Somewhere `s` holds `n` bytes `0xFF` in a row.
pub open spec fn has_ff_run(s: Seq<u8>, n: int) -> bool {
    exists|start: int| #[trigger] ff_run_at(s, start, n)
}

/// The plaintext size that an LZ4 payload declares in its first four
/// bytes; 0 for a payload too short to declare one.
pub open spec fn lz4_declared_len(payload: Seq<u8>) -> int {
    if payload.len() < 4 {
        0
    } else {
        from_le32(payload.subrange(0, 4)) as int
    }
}

/// Calls `zstd::bulk::compress(data, level)`, which allocates a buffer
/// somewhat larger than the data. Believed: the outcome is a function of
/// the data and the level alone. The level is kept to the documented range.
#[verifier::external_body]
fn zstd_compress(data: &[u8], level: i32) -> (r: Result<Vec<u8>, String>)
    requires
        data@.len() <= MAX_MEMORY_PER_THREAD,
        1 <= level <= 22,
    ensures
        outcome_view(r) == zstd_compress_outcome(data@, level as int),
{
    zstd::bulk::compress(data, level).map_err(|e| e.to_string())
}

/// Calls `zstd::bulk::decompress_to_buffer` on `payload` and a buffer of
/// exactly `capacity` bytes, and hands out the bytes that were written; the
/// call fails if the decoded data is longer. Believed: the outcome is a
/// function of the payload and the capacity alone.
#[verifier::external_body]
fn zstd_decompress(payload: &[u8], capacity: usize) -> (r: Result<Vec<u8>, String>)
    requires
        capacity <= MAX_MEMORY_PER_THREAD,
    ensures
        outcome_view(r) == zstd_decompress_outcome(payload@, capacity as int),
{
    let mut buffer = vec![0u8; capacity];
    let written = zstd::bulk::decompress_to_buffer(payload, &mut buffer[..])
        .map_err(|e| e.to_string())?;
    buffer.truncate(written);
    Ok(buffer)
}

/// Calls `lz4_flex::compress_prepend_size(data)`, which cannot fail and
/// allocates a buffer somewhat larger than the data. Believed: the output is
/// a function of the data alone.
#[verifier::external_body]
fn lz4_compress(data: &[u8]) -> (r: Vec<u8>)
    requires
        data@.len() <= MAX_MEMORY_PER_THREAD,
    ensures
        r@ == lz4_compress_output(data@),
{
    lz4_flex::compress_prepend_size(data)
}

/// Calls `lz4_flex::decompress_size_prepended(payload)`, which allocates the
/// size that the first four bytes declare and sums the bytes of each length
/// field in 32 bits. Believed: the outcome is a function of the payload
/// alone. The declared size is kept to the chunk limit and the runs of
/// `0xFF` to what the sums can hold.
#[verifier::external_body]
fn lz4_decompress(payload: &[u8]) -> (r: Result<Vec<u8>, String>)
    requires
        lz4_declared_len(payload@) <= MAX_MEMORY_PER_THREAD,
        !has_ff_run(payload@, LZ4_LENGTH_RUN_LIMIT as int),
    ensures
        outcome_view(r) == lz4_decompress_outcome(payload@),
{
    lz4_flex::decompress_size_prepended(payload).map_err(|e| e.to_string())
}

/// Calls `compress_vec` on a fresh `snap::raw::Encoder`, which allocates a
/// buffer somewhat larger than the data. Believed: the outcome is a function
/// of the data alone.
#[verifier::external_body]
fn snappy_compress(data: &[u8]) -> (r: Result<Vec<u8>, String>)
    requires
        data@.len() <= MAX_MEMORY_PER_THREAD,
    ensures
        outcome_view(r) == snappy_compress_outcome(data@),
{
    snap::raw::Encoder::new().compress_vec(data).map_err(|e| e.to_string())
}

/// Calls `snap::raw::decompress_len(payload)`, which reads the payload's
/// header and allocates nothing. Believed: the outcome is a function of the
/// payload alone.
#[verifier::external_body]
fn snappy_len(payload: &[u8]) -> (r: Result<usize, String>)
    ensures
        len_outcome_view(r) == snappy_declared_len(payload@),
{
    snap::raw::decompress_len(payload).map_err(|e| e.to_string())
}

/// Calls `decompress_vec` on a fresh `snap::raw::Decoder`, which allocates
/// the size that the payload's header declares. Believed: the outcome is a
/// function of the payload alone.
#[verifier::external_body]
fn snappy_decompress(payload: &[u8]) -> (r: Result<Vec<u8>, String>)
    requires
        snappy_declared_len(payload@) matches Ok(n) && n <= MAX_MEMORY_PER_THREAD,
    ensures
        outcome_view(r) == snappy_decompress_outcome(payload@),
{
    snap::raw::Decoder::new().decompress_vec(payload).map_err(|e| e.to_string())
}

/// Writes `data` through a `brotli::CompressorWriter` (buffer 4096, window
/// 2^22) into a vector; dropping the writer ends the stream. Believed: the
/// outcome is a function of the data and the quality alone.
#[verifier::external_body]
fn brotli_compress(data: &[u8], quality: u32) -> (r: Result<Vec<u8>, String>)
    requires
        quality <= 11,
    ensures
        outcome_view(r) == brotli_compress_outcome(data@, quality as int),
{
    let mut output = Vec::new();
    {
        let mut encoder = brotli::CompressorWriter::new(&mut output, 4096, quality, 22);
        std::io::Write::write_all(&mut encoder, data).map_err(|e| e.to_string())?;
    }
    Ok(output)
}

/// Reads `payload` to its end through a `brotli::Decompressor` (buffer
/// 4096). Believed: the outcome is a function of the payload alone.
#[verifier::external_body]
fn brotli_decompress(payload: &[u8]) -> (r: Result<Vec<u8>, String>)
    ensures
        outcome_view(r) == brotli_decompress_outcome(payload@),
{
    let mut output = Vec::new();
    let mut decoder = brotli::Decompressor::new(payload, 4096);
    std::io::Read::read_to_end(&mut decoder, &mut output).map_err(|e| e.to_string())?;
    Ok(output)
}

/// Writes `data` through a `flate2::write::DeflateEncoder` at `level` and
/// finishes the stream. Believed: the outcome is a function of the data and
/// the level alone. The level is kept to the documented range.
#[verifier::external_body]
fn deflate_compress(data: &[u8], level: u32) -> (r: Result<Vec<u8>, String>)
    requires
        level <= 9,
    ensures
        outcome_view(r) == deflate_compress_outcome(data@, level as int),
{
    let mut encoder = flate2::write::DeflateEncoder::new(
        Vec::new(),
        flate2::Compression::new(level),
    );
    std::io::Write::write_all(&mut encoder, data).map_err(|e| e.to_string())?;
    encoder.finish().map_err(|e| e.to_string())
}

/// Reads `payload` to its end through a `flate2::read::DeflateDecoder`.
/// Believed: the outcome is a function of the payload alone.
#[verifier::external_body]
fn deflate_decompress(payload: &[u8]) -> (r: Result<Vec<u8>, String>)
    ensures
        outcome_view(r) == deflate_decompress_outcome(payload@),
{
    let mut decoder = flate2::read::DeflateDecoder::new(payload);
    let mut output = Vec::new();
    std::io::Read::read_to_end(&mut decoder, &mut output).map_err(|e| e.to_string())?;
    Ok(output)
}

/// What the codec of `a` makes of a non-empty plaintext.
pub open spec fn encode_outcome(a: CompressionAlgorithm, data: Seq<u8>) -> Result<
    Seq<u8>,
    Seq<char>,
> {
    match a {
        CompressionAlgorithm::Store => Ok(data),
        CompressionAlgorithm::Zstd { level } => zstd_compress_outcome(data, level as int),
        CompressionAlgorithm::Lz4 { .. } => Ok(lz4_compress_output(data)),
        CompressionAlgorithm::Snappy => snappy_compress_outcome(data),
        CompressionAlgorithm::Brotli { quality } => brotli_compress_outcome(data, quality as int),
        CompressionAlgorithm::Deflate { level } => deflate_compress_outcome(data, level as int),
    }
}

/// The diagnostic for a payload that declares more plaintext than a worker
/// may hold.
pub open spec fn declared_too_large() -> Seq<char> {
    "Declared size exceeds the chunk limit"@
}

/// The diagnostic for an LZ4 payload with a run of `0xFF` that no length
/// within the chunk limit needs.
pub open spec fn length_run_too_long() -> Seq<char> {
    "Length field exceeds the chunk limit"@
}

/// What the codec of `a` makes of a payload. Zstd decodes into a buffer of
/// the expected plaintext size. LZ4 and Snappy payloads declare their
/// plaintext size themselves; one that declares more than a worker may hold
/// is refused before the codec allocates it, and so is an LZ4 payload with
/// a run of `0xFF` that would carry a length field beyond 32 bits.
pub open spec fn decode_outcome(a: CompressionAlgorithm, payload: Seq<u8>, expected_size: u32)
    -> Result<Seq<u8>, Seq<char>> {
    match a {
        CompressionAlgorithm::Store => Ok(payload),
        CompressionAlgorithm::Zstd { .. } => zstd_decompress_outcome(payload, expected_size as int),
        CompressionAlgorithm::Lz4 { .. } => if lz4_declared_len(payload) > MAX_MEMORY_PER_THREAD {
            Err(declared_too_large())
        } else if has_ff_run(payload, LZ4_LENGTH_RUN_LIMIT as int) {
            Err(length_run_too_long())
        } else {
            lz4_decompress_outcome(payload)
        },
        CompressionAlgorithm::Snappy => match snappy_declared_len(payload) {
            Err(message) => Err(message),
            Ok(n) => if n > MAX_MEMORY_PER_THREAD {
                Err(declared_too_large())
            } else {
                snappy_decompress_outcome(payload)
            },
        },
        CompressionAlgorithm::Brotli { .. } => brotli_decompress_outcome(payload),
        CompressionAlgorithm::Deflate { .. } => deflate_decompress_outcome(payload),
    }
}

/// The diagnostic for a descriptor whose parameter is out of range.
pub open spec fn out_of_range_message() -> Seq<char> {
    "Codec parameter out of range"@
}

/// A codec's outcome as the library reports it: a codec error becomes an
/// `AlgorithmError` with the codec's name and the codec's own message.
pub open spec fn spec_codec_result(
    r: Result<Seq<u8>, Seq<char>>,
    a: CompressionAlgorithm,
    chunk_id: Option<u32>,
) -> Result<Seq<u8>, ErrorView> {
    match r {
        Ok(bytes) => Ok(bytes),
        Err(message) => Err(
            ErrorView::AlgorithmError { codec: a.spec_name(), message, chunk_id },
        ),
    }
}

/// The payload for `data` under `a`.
pub open spec fn spec_compress_payload(data: Seq<u8>, a: CompressionAlgorithm, chunk_id: u32)
    -> Result<Seq<u8>, ErrorView> {
    if !a.valid() {
        Err(ErrorView::Configuration { message: out_of_range_message() })
    } else if data.len() > MAX_MEMORY_PER_THREAD {
        Err(
            ErrorView::MemoryLimit {
                requested: data.len() as usize,
                limit: MAX_MEMORY_PER_THREAD,
            },
        )
    } else if data.len() == 0 {
        Ok(Seq::empty())
    } else {
        spec_codec_result(encode_outcome(a, data), a, Some(chunk_id))
    }
}

/// The plaintext for `payload` under `a`.
pub open spec fn spec_decompress_payload(
    payload: Seq<u8>,
    a: CompressionAlgorithm,
    expected_size: u32,
) -> Result<Seq<u8>, ErrorView> {
    if expected_size > MAX_MEMORY_PER_THREAD {
        Err(ErrorView::InvalidFormat { message: "Chunk size exceeds the limit"@ })
    } else {
        spec_codec_result(decode_outcome(a, payload, expected_size), a, None)
    }
}

/// Turns what a codec handed back into the library's result: the bytes
/// unchanged, or an `AlgorithmError` that carries the codec's name, the
/// codec's message and the chunk's number where there is one.
pub fn codec_result(
    outcome: Result<Vec<u8>, String>,
    algorithm: &CompressionAlgorithm,
    chunk_id: Option<u32>,
) -> (r: Result<Vec<u8>, CompressionError>)
    ensures
        crate::error::bytes_result_view(r) == spec_codec_result(
            outcome_view(outcome),
            *algorithm,
            chunk_id,
        ),
{
    match outcome {
        Ok(bytes) => Ok(bytes),
        Err(message) => Err(
            CompressionError::AlgorithmError {
                codec: algorithm.name().to_string(),
                message,
                chunk_id,
            },
        ),
    }
}

/// Compresses `data` with the codec of `algorithm`.
///
/// A descriptor out of range is refused with `Configuration`, a plaintext
/// of more than 64 MiB with `MemoryLimit`. An empty plaintext gives an empty
/// payload and no codec runs. `Store` copies. A codec error comes back as
/// `AlgorithmError`.
pub fn compress_payload(data: &[u8], algorithm: &CompressionAlgorithm, chunk_id: u32) -> (r:
    Result<Vec<u8>, CompressionError>)
    ensures
        crate::error::bytes_result_view(r) == spec_compress_payload(data@, *algorithm, chunk_id),
{
    if !algorithm.is_valid() {
        return Err(crate::error::configuration("Codec parameter out of range"));
    }
    if data.len() > MAX_MEMORY_PER_THREAD {
        return Err(
            CompressionError::MemoryLimit { requested: data.len(), limit: MAX_MEMORY_PER_THREAD },
        );
    }
    if data.len() == 0 {
        return Ok(Vec::new());
    }
    let outcome = match algorithm {
        CompressionAlgorithm::Store => Ok(copy_of(data)),
        CompressionAlgorithm::Zstd { level } => zstd_compress(data, *level),
        CompressionAlgorithm::Lz4 { .. } => Ok(lz4_compress(data)),
        CompressionAlgorithm::Snappy => snappy_compress(data),
        CompressionAlgorithm::Brotli { quality } => brotli_compress(data, *quality),
        CompressionAlgorithm::Deflate { level } => deflate_compress(data, *level),
    };
    codec_result(outcome, algorithm, Some(chunk_id))
}

/// Decompresses `payload` with the codec of `algorithm`. `expected_size` is
/// the plaintext size that the frame recorded; one beyond 64 MiB is refused
/// with `InvalidFormat`. A codec error, and a payload that declares more
/// than 64 MiB of plaintext, come back as `AlgorithmError`.
pub fn decompress_payload(payload: &[u8], algorithm: &CompressionAlgorithm, expected_size: u32)
    -> (r: Result<Vec<u8>, CompressionError>)
    ensures
        crate::error::bytes_result_view(r) == spec_decompress_payload(
            payload@,
            *algorithm,
            expected_size,
        ),
{
    if expected_size as usize > MAX_MEMORY_PER_THREAD {
        return Err(crate::error::invalid_format("Chunk size exceeds the limit"));
    }
    let outcome = match algorithm {
        CompressionAlgorithm::Store => Ok(copy_of(payload)),
        CompressionAlgorithm::Zstd { .. } => zstd_decompress(payload, expected_size as usize),
        CompressionAlgorithm::Lz4 { .. } => {
            if payload.len() >= 4 && read_le32(payload, 0) as usize > MAX_MEMORY_PER_THREAD {
                Err("Declared size exceeds the chunk limit".to_string())
            } else if holds_ff_run(payload, LZ4_LENGTH_RUN_LIMIT) {
                Err("Length field exceeds the chunk limit".to_string())
            } else {
                lz4_decompress(payload)
            }
        },
        CompressionAlgorithm::Snappy => match snappy_len(payload) {
            Err(message) => Err(message),
            Ok(declared) => if declared > MAX_MEMORY_PER_THREAD {
                Err("Declared size exceeds the chunk limit".to_string())
            } else {
                snappy_decompress(payload)
            },
        },
        CompressionAlgorithm::Brotli { .. } => brotli_decompress(payload),
        CompressionAlgorithm::Deflate { .. } => deflate_decompress(payload),
    };
    codec_result(outcome, algorithm, None)
}

/// Whether `data` holds `n` bytes `0xFF` in a row.
pub fn holds_ff_run(data: &[u8], n: usize) -> (found: bool)
    ensures
        found == has_ff_run(data@, n as int),
{
    if n == 0 {
        assert(ff_run_at(data@, 0, 0));
        return true;
    }
    let mut run: usize = 0;
    let mut i: usize = 0;
    while i < data.len()
        invariant
            n > 0,
            i <= data@.len(),
            run <= i,
            run < n,
            forall|j: int| i - run <= j < i ==> data@[j] == 0xff,
            run < i ==> data@[i - run - 1] != 0xff,
            forall|start: int| start + n <= i ==> !#[trigger] ff_run_at(data@, start, n as int),
        decreases data@.len() - i,
    {
        if data[i] == 0xff {
            run += 1;
            if run >= n {
                assert(ff_run_at(data@, i + 1 - n, n as int));
                return true;
            }
        } else {
            run = 0;
        }
        proof {
            assert forall|start: int| start + n <= i + 1 implies !#[trigger] ff_run_at(
                data@,
                start,
                n as int,
            ) by {
                if start + n == i + 1 && 0 <= start {
                    if data@[i as int] == 0xff {
                        // The run that ends here began behind `start`.
                        assert(start <= i - run < i + 1);
                        assert(data@[i - run] != 0xff);
                    }
                }
            }
        }
        i += 1;
    }
    assert forall|start: int| !#[trigger] ff_run_at(data@, start, n as int) by {
        if 0 <= start && start + n <= data@.len() {
            assert(start + n <= i);
        }
    }
    false
}

/// A copy of `bytes`.
fn copy_of(bytes: &[u8]) -> (copy: Vec<u8>)
    ensures
        copy@ == bytes@,
{
    let mut copy: Vec<u8> = Vec::new();
    crate::bytes::push_range(&mut copy, bytes, 0, bytes.len());
    assert(bytes@.subrange(0, bytes@.len() as int) =~= bytes@);
    copy
}

} // verus!
