//! Chunk-by-chunk compression for a writer that the caller owns: each call
//! hands back the bytes to write next, and the compressor keeps the count.

use crate::algorithm::CompressionAlgorithm;
use crate::bytes::{push_le32, push_range};
use crate::chunk::{compress_chunk, spec_compress_chunk};
use crate::container::framed;
use crate::error::{invalid_format, CompressionError, ErrorView};
use crate::metadata::CompressionMetrics;
use vstd::prelude::*;

verus! {

/// The state of a streaming compression.
pub struct StreamingCompressor {
    algorithm: CompressionAlgorithm,
    chunk_id: u32,
    bytes_processed: u64,
    bytes_written: u64,
}

/// `a + b`, or the largest `u64` if the sum does not fit.
pub open spec fn saturating_sum(a: u64, b: int) -> u64 {
    if a + b > u64::MAX {
        u64::MAX
    } else {
        (a + b) as u64
    }
}

/// The number after `id`; the number after the largest is 0.
pub open spec fn next_id(id: u32) -> u32 {
    if id == u32::MAX {
        0
    } else {
        (id + 1) as u32
    }
}

/// What the next call hands back for `data`: the frame behind its length,
/// or the fault.
pub open spec fn spec_stream_chunk(data: Seq<u8>, a: CompressionAlgorithm, id: u32) -> Result<
    Seq<u8>,
    ErrorView,
> {
    match spec_compress_chunk(data, a, id) {
        Err(e) => Err(e),
        Ok(frame) => if frame.len() > u32::MAX {
            Err(ErrorView::InvalidFormat { message: "Chunk too large"@ })
        } else {
            Ok(framed(frame))
        },
    }
}

impl StreamingCompressor {
    /// The codec of the stream.
    pub closed spec fn algorithm(&self) -> CompressionAlgorithm {
        self.algorithm
    }

    /// The number that the next chunk gets.
    pub closed spec fn chunk_id(&self) -> u32 {
        self.chunk_id
    }

    /// The number of plaintext bytes taken so far.
    pub closed spec fn bytes_processed(&self) -> u64 {
        self.bytes_processed
    }

    /// The number of frame bytes handed out so far, the lengths in front of
    /// the frames not counted.
    pub closed spec fn bytes_written(&self) -> u64 {
        self.bytes_written
    }

    /// A compressor for `algorithm` that has seen nothing yet.
    pub fn new(algorithm: CompressionAlgorithm) -> (s: StreamingCompressor)
        ensures
            s.algorithm() == algorithm,
            s.chunk_id() == 0,
            s.bytes_processed() == 0,
            s.bytes_written() == 0,
    {
        StreamingCompressor { algorithm, chunk_id: 0, bytes_processed: 0, bytes_written: 0 }
    }

    /// Encodes the next chunk and returns the bytes to write: the length of
    /// the frame, then the frame. The chunk takes the next number whether
    /// or not it can be encoded; the byte counts move only when it can.
    pub fn write_chunk(&mut self, data: &[u8]) -> (r: Result<Vec<u8>, CompressionError>)
        ensures
            crate::error::bytes_result_view(r) == spec_stream_chunk(
                data@,
                old(self).algorithm(),
                old(self).chunk_id(),
            ),
            final(self).algorithm() == old(self).algorithm(),
            final(self).chunk_id() == next_id(old(self).chunk_id()),
            r is Ok ==> final(self).bytes_processed() == saturating_sum(
                old(self).bytes_processed(),
                data@.len() as int,
            ) && final(self).bytes_written() == saturating_sum(
                old(self).bytes_written(),
                spec_compress_chunk(data@, old(self).algorithm(), old(self).chunk_id())->Ok_0.len() as int,
            ),
            r is Err ==> final(self).bytes_processed() == old(self).bytes_processed()
                && final(self).bytes_written() == old(self).bytes_written(),
    {
        let id = self.chunk_id;
        self.chunk_id = if id == u32::MAX {
            0
        } else {
            id + 1
        };
        let frame = match compress_chunk(data, &self.algorithm, id) {
            Ok(frame) => frame,
            Err(e) => {
                return Err(e);
            },
        };
        if frame.len() > u32::MAX as usize {
            return Err(invalid_format("Chunk too large"));
        }
        let mut out: Vec<u8> = Vec::new();
        push_le32(&mut out, frame.len() as u32);
        push_range(&mut out, frame.as_slice(), 0, frame.len());
        assert(frame@.subrange(0, frame@.len() as int) =~= frame@);
        assert(out@ =~= framed(frame@));
        self.bytes_processed = add_saturating(self.bytes_processed, data.len());
        self.bytes_written = add_saturating(self.bytes_written, frame.len());
        Ok(out)
    }

    /// Ends the stream and reports its sizes. No time is taken: the time
    /// fields are 0 and empty.
    pub fn finish(self) -> (metrics: CompressionMetrics)
        ensures
            metrics == (CompressionMetrics {
                compression_time_ms: 0,
                decompression_time_ms: None,
                original_size: self.bytes_processed(),
                compressed_size: self.bytes_written(),
                chunk_count: self.chunk_id(),
            }),
    {
        CompressionMetrics {
            compression_time_ms: 0,
            decompression_time_ms: None,
            original_size: self.bytes_processed,
            compressed_size: self.bytes_written,
            chunk_count: self.chunk_id,
        }
    }
}

/// Adds a length to a byte count and stops at the largest `u64`.
fn add_saturating(count: u64, len: usize) -> (sum: u64)
    ensures
        sum == saturating_sum(count, len as int),
{
    match count.checked_add(len as u64) {
        Some(sum) => sum,
        None => u64::MAX,
    }
}

} // verus!
