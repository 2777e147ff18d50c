//! The chunk codec: a frame is the plaintext size, the payload size and the
//! CRC-32 of the plaintext, each as four little-endian bytes, followed by
//! the payload.

use crate::algorithm::CompressionAlgorithm;
use crate::bytes::{from_le32, le32, lemma_le32_roundtrip, push_le32, push_range, read_le32};
use crate::codec::{
    compress_payload, decompress_payload, spec_compress_payload, spec_decompress_payload,
    MAX_MEMORY_PER_THREAD,
};
use crate::error::{bytes_result_view, invalid_format, CompressionError, ErrorView};
use crate::hash::{crc32, crc32_of};
use vstd::prelude::*;
use vstd::slice::slice_subrange;

verus! {

/// The number of bytes in front of a frame's payload.
pub const FRAME_HEADER_LEN: usize = 12;

/// The bytes of a frame.
pub open spec fn frame_bytes(orig_len: u32, crc: u32, payload: Seq<u8>) -> Seq<u8> {
    le32(orig_len) + le32(payload.len() as u32) + le32(crc) + payload
}

/// The plaintext size that a frame records.
pub open spec fn frame_orig_len(frame: Seq<u8>) -> u32 {
    from_le32(frame.subrange(0, 4))
}

/// The payload size that a frame records.
pub open spec fn frame_comp_len(frame: Seq<u8>) -> u32 {
    from_le32(frame.subrange(4, 8))
}

/// The checksum that a frame records.
pub open spec fn frame_crc(frame: Seq<u8>) -> u32 {
    from_le32(frame.subrange(8, 12))
}

/// The payload of a frame.
pub open spec fn frame_payload(frame: Seq<u8>) -> Seq<u8> {
    frame.subrange(12, frame.len() as int)
}

/// The frame for a plaintext of `plain_len` bytes with checksum `crc` and
/// the given payload; refused when a size does not fit its field.
pub open spec fn spec_frame_chunk(plain_len: nat, crc: u32, payload: Seq<u8>) -> Result<
    Seq<u8>,
    ErrorView,
> {
    if plain_len > u32::MAX || payload.len() > u32::MAX {
        Err(ErrorView::InvalidFormat { message: "Chunk too large"@ })
    } else {
        Ok(frame_bytes(plain_len as u32, crc, payload))
    }
}

/// The frame for `data` under `a`.
pub open spec fn spec_compress_chunk(data: Seq<u8>, a: CompressionAlgorithm, chunk_id: u32)
    -> Result<Seq<u8>, ErrorView> {
    match spec_compress_payload(data, a, chunk_id) {
        Err(e) => Err(e),
        Ok(payload) => spec_frame_chunk(data.len(), crc32(data), payload),
    }
}

/// The decoded plaintext if its checksum is the stored one.
pub open spec fn spec_check_integrity(plaintext: Seq<u8>, stored: u32, computed: u32) -> Result<
    Seq<u8>,
    ErrorView,
> {
    if stored == computed {
        Ok(plaintext)
    } else {
        Err(ErrorView::IntegrityViolation { expected: stored, actual: computed })
    }
}

/// The decoded plaintext if it is as long as the frame recorded.
pub open spec fn spec_check_size(plaintext: Seq<u8>, recorded: u32) -> Result<Seq<u8>, ErrorView> {
    if plaintext.len() == recorded {
        Ok(plaintext)
    } else {
        Err(ErrorView::InvalidFormat { message: "Plaintext size mismatch"@ })
    }
}

/// The plaintext of `frame` under `a`: the framing is checked first, then
/// the payload is decoded, then the checksum of the plaintext is compared
/// with the stored one, and last its length with the recorded one.
pub open spec fn spec_decompress_chunk(frame: Seq<u8>, a: CompressionAlgorithm) -> Result<
    Seq<u8>,
    ErrorView,
> {
    if frame.len() < 12 {
        Err(ErrorView::InvalidFormat { message: "Chunk too small"@ })
    } else if frame.len() - 12 != frame_comp_len(frame) {
        Err(ErrorView::InvalidFormat { message: "Compressed size mismatch"@ })
    } else {
        match spec_decompress_payload(frame_payload(frame), a, frame_orig_len(frame)) {
            Err(e) => Err(e),
            Ok(plaintext) => match spec_check_integrity(
                plaintext,
                frame_crc(frame),
                crc32(plaintext),
            ) {
                Err(e) => Err(e),
                Ok(checked) => spec_check_size(checked, frame_orig_len(frame)),
            },
        }
    }
}

/// The fields of a frame are those it was built from.
pub proof fn lemma_frame_fields(orig_len: u32, crc: u32, payload: Seq<u8>)
    requires
        payload.len() <= u32::MAX,
    ensures
        frame_bytes(orig_len, crc, payload).len() == 12 + payload.len(),
        frame_orig_len(frame_bytes(orig_len, crc, payload)) == orig_len,
        frame_comp_len(frame_bytes(orig_len, crc, payload)) == payload.len(),
        frame_crc(frame_bytes(orig_len, crc, payload)) == crc,
        frame_payload(frame_bytes(orig_len, crc, payload)) == payload,
{
    let frame = frame_bytes(orig_len, crc, payload);
    lemma_le32_roundtrip(orig_len);
    lemma_le32_roundtrip(payload.len() as u32);
    lemma_le32_roundtrip(crc);
    assert(frame.subrange(0, 4) =~= le32(orig_len));
    assert(frame.subrange(4, 8) =~= le32(payload.len() as u32));
    assert(frame.subrange(8, 12) =~= le32(crc));
    assert(frame_payload(frame) =~= payload);
}

/// Builds the frame for a plaintext of `plain_len` bytes whose CRC-32 is
/// `crc` and whose payload is `payload`. A size that does not fit its
/// 32-bit field is refused with `InvalidFormat`.
pub fn frame_chunk(plain_len: usize, crc: u32, payload: &[u8]) -> (r: Result<
    Vec<u8>,
    CompressionError,
>)
    ensures
        bytes_result_view(r) == spec_frame_chunk(plain_len as nat, crc, payload@),
{
    if plain_len > u32::MAX as usize || payload.len() > u32::MAX as usize {
        return Err(invalid_format("Chunk too large"));
    }
    let mut frame: Vec<u8> = Vec::new();
    push_le32(&mut frame, plain_len as u32);
    push_le32(&mut frame, payload.len() as u32);
    push_le32(&mut frame, crc);
    push_range(&mut frame, payload, 0, payload.len());
    assert(frame@ =~= frame_bytes(plain_len as u32, crc, payload@)) by {
        assert(payload@.subrange(0, payload@.len() as int) =~= payload@);
    }
    Ok(frame)
}

/// Hands the decoded plaintext on if the CRC-32 computed over it is the one
/// that the frame stored, and reports an `IntegrityViolation` otherwise.
pub fn check_integrity(plaintext: Vec<u8>, stored: u32, computed: u32) -> (r: Result<
    Vec<u8>,
    CompressionError,
>)
    ensures
        bytes_result_view(r) == spec_check_integrity(plaintext@, stored, computed),
{
    if stored == computed {
        Ok(plaintext)
    } else {
        Err(CompressionError::IntegrityViolation { expected: stored, actual: computed })
    }
}

/// Hands the decoded plaintext on if it is as long as the frame recorded,
/// and reports `InvalidFormat` otherwise.
pub fn check_size(plaintext: Vec<u8>, recorded: u32) -> (r: Result<Vec<u8>, CompressionError>)
    ensures
        bytes_result_view(r) == spec_check_size(plaintext@, recorded),
{
    if plaintext.len() == recorded as usize {
        Ok(plaintext)
    } else {
        Err(invalid_format("Plaintext size mismatch"))
    }
}

/// Encodes one chunk: compresses `data` with the codec of `algorithm` and
/// frames the payload with the plaintext's size and CRC-32. `chunk_id`
/// appears only in a codec's error.
pub fn compress_chunk(data: &[u8], algorithm: &CompressionAlgorithm, chunk_id: u32) -> (r: Result<
    Vec<u8>,
    CompressionError,
>)
    ensures
        bytes_result_view(r) == spec_compress_chunk(data@, *algorithm, chunk_id),
        r matches Ok(frame) ==> frame@.len() >= 12 && frame_comp_len(frame@) == frame@.len() - 12
            && frame_orig_len(frame@) == data@.len() && frame_crc(frame@) == crc32(data@),
{
    let checksum = crc32_of(data);
    match compress_payload(data, algorithm, chunk_id) {
        Err(e) => Err(e),
        Ok(payload) => {
            proof {
                if data@.len() <= u32::MAX && payload@.len() <= u32::MAX {
                    lemma_frame_fields(data@.len() as u32, checksum, payload@);
                }
            }
            frame_chunk(data.len(), checksum, payload.as_slice())
        },
    }
}

/// Decodes one frame: checks the framing, decompresses the payload with the
/// codec of `algorithm`, compares the CRC-32 of the plaintext with the
/// stored one and the length of the plaintext with the recorded one.
pub fn decompress_chunk(chunk_data: &[u8], algorithm: &CompressionAlgorithm) -> (r: Result<
    Vec<u8>,
    CompressionError,
>)
    ensures
        bytes_result_view(r) == spec_decompress_chunk(chunk_data@, *algorithm),
{
    if chunk_data.len() < FRAME_HEADER_LEN {
        return Err(invalid_format("Chunk too small"));
    }
    let original_size = read_le32(chunk_data, 0);
    let compressed_size = read_le32(chunk_data, 4);
    let stored_crc = read_le32(chunk_data, 8);
    if chunk_data.len() - FRAME_HEADER_LEN != compressed_size as usize {
        return Err(invalid_format("Compressed size mismatch"));
    }
    let payload = slice_subrange(chunk_data, FRAME_HEADER_LEN, chunk_data.len());
    match decompress_payload(payload, algorithm, original_size) {
        Err(e) => Err(e),
        Ok(plaintext) => {
            let computed = crc32_of(plaintext.as_slice());
            match check_integrity(plaintext, stored_crc, computed) {
                Err(e) => Err(e),
                Ok(checked) => check_size(checked, original_size),
            }
        },
    }
}

/// Every frame that `compress_chunk` builds is at least twelve bytes long,
/// and its second field is the number of bytes that follow the header; its
/// first field is the plaintext's size and its third the plaintext's CRC-32.
pub proof fn lemma_frame_layout(data: Seq<u8>, a: CompressionAlgorithm, chunk_id: u32)
    requires
        spec_compress_chunk(data, a, chunk_id) is Ok,
    ensures
        ({
            let frame = spec_compress_chunk(data, a, chunk_id)->Ok_0;
            &&& frame.len() >= 12
            &&& frame_comp_len(frame) == frame.len() - 12
            &&& frame_orig_len(frame) == data.len()
            &&& frame_crc(frame) == crc32(data)
        }),
{
    let payload = spec_compress_payload(data, a, chunk_id)->Ok_0;
    lemma_frame_fields(data.len() as u32, crc32(data), payload);
}

/// The frame of an empty plaintext is twelve zero bytes, whatever the
/// codec: no size, no payload, and the checksum of nothing.
pub proof fn lemma_empty_frame(a: CompressionAlgorithm, chunk_id: u32)
    requires
        a.valid(),
    ensures
        spec_compress_chunk(Seq::<u8>::empty(), a, chunk_id) == Ok::<Seq<u8>, ErrorView>(
            Seq::new(12, |i: int| 0u8),
        ),
{
    crate::hash::lemma_crc32_of_nothing();
    assert(frame_bytes(0, 0, Seq::<u8>::empty()) =~= Seq::new(12, |i: int| 0u8));
}

/// Whenever a frame decodes, the CRC-32 of the plaintext is the number in
/// the frame's bytes 8 to 12.
pub proof fn lemma_decoded_crc(frame: Seq<u8>, a: CompressionAlgorithm)
    requires
        spec_decompress_chunk(frame, a) is Ok,
    ensures
        crc32(spec_decompress_chunk(frame, a)->Ok_0) == frame_crc(frame),
{
}

/// Whenever a frame decodes, the plaintext is as long as the frame's first
/// field says.
pub proof fn lemma_decoded_size(frame: Seq<u8>, a: CompressionAlgorithm)
    requires
        spec_decompress_chunk(frame, a) is Ok,
    ensures
        spec_decompress_chunk(frame, a)->Ok_0.len() == frame_orig_len(frame),
{
}

/// The codec of `a` restores `data`: what the adapter decodes from the
/// payload that it made of `data` is `data` again.
pub open spec fn codec_restores(a: CompressionAlgorithm, data: Seq<u8>) -> bool {
    spec_compress_payload(data, a, 0) matches Ok(payload) ==> spec_decompress_payload(
        payload,
        a,
        data.len() as u32,
    ) == Ok::<Seq<u8>, ErrorView>(data)
}

/// `Store` restores every plaintext.
pub proof fn lemma_store_restores(data: Seq<u8>)
    ensures
        codec_restores(CompressionAlgorithm::Store, data),
{
    if data.len() == 0 {
        assert(data =~= Seq::<u8>::empty());
    }
}

/// A chunk survives framing: where encoding a plaintext succeeds and the
/// codec restores it, decoding the frame gives the plaintext back. The
/// framing and the checksum add no failure of their own.
pub proof fn lemma_chunk_roundtrip(data: Seq<u8>, a: CompressionAlgorithm, chunk_id: u32)
    requires
        spec_compress_chunk(data, a, chunk_id) is Ok,
        codec_restores(a, data),
    ensures
        spec_decompress_chunk(spec_compress_chunk(data, a, chunk_id)->Ok_0, a) == Ok::<
            Seq<u8>,
            ErrorView,
        >(data),
{
    let payload = spec_compress_payload(data, a, chunk_id)->Ok_0;
    lemma_frame_fields(data.len() as u32, crc32(data), payload);
}

/// Tampering is detected: a frame that was written (its header is sound and
/// its plaintext size within the limit) and whose payload was altered
/// decodes to `IntegrityViolation` or `AlgorithmError`, unless the codec
/// accepts the altered payload and the bytes it decodes carry the recorded
/// CRC-32.
pub proof fn lemma_tamper_detection(frame: Seq<u8>, tampered: Seq<u8>, a: CompressionAlgorithm)
    requires
        frame.len() >= 12,
        frame_comp_len(frame) == frame.len() - 12,
        frame_orig_len(frame) <= MAX_MEMORY_PER_THREAD,
        tampered.len() == frame.len(),
        tampered.subrange(0, 12) == frame.subrange(0, 12),
        !(spec_decompress_payload(frame_payload(tampered), a, frame_orig_len(frame)) matches Ok(p)
            && crc32(p) == frame_crc(frame)),
    ensures
        spec_decompress_chunk(tampered, a) matches Err(e) && (e is IntegrityViolation
            || e is AlgorithmError),
{
    assert(tampered.subrange(0, 4) =~= tampered.subrange(0, 12).subrange(0, 4));
    assert(tampered.subrange(4, 8) =~= tampered.subrange(0, 12).subrange(4, 8));
    assert(tampered.subrange(8, 12) =~= tampered.subrange(0, 12).subrange(8, 12));
    assert(frame.subrange(0, 4) =~= frame.subrange(0, 12).subrange(0, 4));
    assert(frame.subrange(4, 8) =~= frame.subrange(0, 12).subrange(4, 8));
    assert(frame.subrange(8, 12) =~= frame.subrange(0, 12).subrange(8, 12));
}

} // verus!
