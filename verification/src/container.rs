//! The ENCS container: a header that names the codec, the number of
//! chunks, and the framed chunks, each behind its length.
//!
//! All integers are four little-endian bytes.

use crate::algorithm::{
    descriptor_bytes, lemma_descriptor_len, parse_descriptor, CompressionAlgorithm,
};
use crate::bytes::{from_le32, le32, lemma_le32_roundtrip, push_le32, push_range, read_le32};
use crate::chunk::{compress_chunk, decompress_chunk, spec_compress_chunk, spec_decompress_chunk};
use crate::error::{bytes_result_view, configuration, invalid_format, CompressionError, ErrorView};
use vstd::prelude::*;

verus! {

/// The format version that this library writes and reads.
pub const VERSION: u32 = 5;

/// The magic bytes, ASCII `ENCS`.
pub open spec fn magic() -> Seq<u8> {
    seq![0x45u8, 0x4e, 0x43, 0x53]
}

/// What the reader learns from a container's header.
#[derive(Debug, Clone, Copy, PartialEq, Eq, Structural)]
pub struct FileHeader {
    pub version: u32,
    pub algorithm: CompressionAlgorithm,
}

/// The sizes that a compression ends with. `compressed_size` counts the
/// chunk count and the framed chunks, not the header.
#[derive(Debug, Clone, Copy, PartialEq, Eq, Structural)]
pub struct InternalCompressionResult {
    pub original_size: u64,
    pub compressed_size: u64,
    pub chunk_count: u32,
}

/// The bytes of the header for codec `a`.
pub open spec fn header_bytes(a: CompressionAlgorithm) -> Seq<u8> {
    magic() + le32(VERSION) + le32(descriptor_bytes(a).len() as u32) + descriptor_bytes(a)
}

/// A frame behind its length.
pub open spec fn framed(frame: Seq<u8>) -> Seq<u8> {
    le32(frame.len() as u32) + frame
}

/// The frames one after the other, each behind its length.
pub open spec fn framed_chunks(frames: Seq<Seq<u8>>) -> Seq<u8>
    decreases frames.len(),
{
    if frames.len() == 0 {
        Seq::empty()
    } else {
        framed(frames.first()) + framed_chunks(frames.drop_first())
    }
}

/// The chunk count and the framed chunks.
pub open spec fn chunk_section(frames: Seq<Seq<u8>>) -> Seq<u8> {
    le32(frames.len() as u32) + framed_chunks(frames)
}

/// The bytes of a whole container.
pub open spec fn container_bytes(a: CompressionAlgorithm, frames: Seq<Seq<u8>>) -> Seq<u8> {
    header_bytes(a) + chunk_section(frames)
}

/// The count of the frames and the length of each fit their 32-bit fields.
pub open spec fn chunks_fit(frames: Seq<Seq<u8>>) -> bool {
    &&& frames.len() <= u32::MAX
    &&& forall|i: int| 0 <= i < frames.len() ==> (#[trigger] frames[i]).len() <= u32::MAX
}

/// The values of a vector of byte vectors.
pub open spec fn frames_view(chunks: Seq<Vec<u8>>) -> Seq<Seq<u8>> {
    Seq::new(chunks.len(), |i: int| chunks[i]@)
}

/// The diagnostic for input that ends too early.
pub open spec fn truncated() -> ErrorView {
    ErrorView::InvalidFormat { message: "Unexpected end of input"@ }
}

/// The diagnostic for a chunk section that does not fit its fields.
pub open spec fn oversized(frames: Seq<Seq<u8>>) -> ErrorView {
    if frames.len() > u32::MAX {
        ErrorView::InvalidFormat { message: "Too many chunks"@ }
    } else {
        ErrorView::InvalidFormat { message: "Chunk too large"@ }
    }
}

/// What the reader makes of the start of `s`: the header and the position
/// behind it, or the first fault it meets.
pub open spec fn spec_read_header(s: Seq<u8>) -> Result<(FileHeader, int), ErrorView> {
    if s.len() < 4 {
        Err(truncated())
    } else if s.subrange(0, 4) != magic() {
        Err(ErrorView::InvalidFormat { message: "Invalid magic bytes"@ })
    } else if s.len() < 8 {
        Err(truncated())
    } else if from_le32(s.subrange(4, 8)) != VERSION {
        Err(ErrorView::InvalidFormat { message: "Unsupported version"@ })
    } else if s.len() < 12 {
        Err(truncated())
    } else {
        let n = from_le32(s.subrange(8, 12)) as int;
        if s.len() < 12 + n {
            Err(truncated())
        } else {
            match parse_descriptor(s.subrange(12, 12 + n)) {
                None => Err(ErrorView::InvalidFormat { message: "Invalid codec descriptor"@ }),
                Some(a) => Ok((FileHeader { version: VERSION, algorithm: a }, 12 + n)),
            }
        }
    }
}

/// What the reader makes of `s` at `pos`: the frame behind the length
/// there and the position behind the frame.
pub open spec fn spec_read_chunk(s: Seq<u8>, pos: int) -> Result<(Seq<u8>, int), ErrorView> {
    if pos < 0 || s.len() < pos + 4 {
        Err(truncated())
    } else {
        let n = from_le32(s.subrange(pos, pos + 4)) as int;
        if s.len() < pos + 4 + n {
            Err(truncated())
        } else {
            Ok((s.subrange(pos + 4, pos + 4 + n), pos + 4 + n))
        }
    }
}

/// `acc` in front of what `r` holds.
pub open spec fn prepend(acc: Seq<u8>, r: Result<Seq<u8>, ErrorView>) -> Result<
    Seq<u8>,
    ErrorView,
> {
    match r {
        Ok(rest) => Ok(acc + rest),
        Err(e) => Err(e),
    }
}

/// The plaintext of `remaining` framed chunks of `s` from `pos` on, or the
/// first fault.
pub open spec fn spec_decode_chunks(
    s: Seq<u8>,
    pos: int,
    remaining: nat,
    a: CompressionAlgorithm,
) -> Result<Seq<u8>, ErrorView>
    decreases remaining,
{
    if remaining == 0 {
        Ok(Seq::empty())
    } else {
        match spec_read_chunk(s, pos) {
            Err(e) => Err(e),
            Ok((frame, next)) => match spec_decompress_chunk(frame, a) {
                Err(e) => Err(e),
                Ok(plaintext) => prepend(
                    plaintext,
                    spec_decode_chunks(s, next, (remaining - 1) as nat, a),
                ),
            },
        }
    }
}

/// The plaintext of a container, or the first fault. Bytes behind the last
/// chunk are not looked at.
pub open spec fn spec_decompress_container(s: Seq<u8>) -> Result<Seq<u8>, ErrorView> {
    match spec_read_header(s) {
        Err(e) => Err(e),
        Ok((header, pos)) => if s.len() < pos + 4 {
            Err(truncated())
        } else {
            spec_decode_chunks(
                s,
                pos + 4,
                from_le32(s.subrange(pos, pos + 4)) as nat,
                header.algorithm,
            )
        },
    }
}

/// `frames` in front of what `r` holds.
pub open spec fn prepend_frames(frames: Seq<Seq<u8>>, r: Result<Seq<Seq<u8>>, ErrorView>)
    -> Result<Seq<Seq<u8>>, ErrorView> {
    match r {
        Ok(rest) => Ok(frames + rest),
        Err(e) => Err(e),
    }
}

/// The end of the chunk that starts at `pos`.
pub open spec fn chunk_end(len: int, pos: int, chunk_size: int) -> int {
    if len - pos < chunk_size {
        len
    } else {
        pos + chunk_size
    }
}

/// The frames of `data` from `pos` on, cut into chunks of `chunk_size`
/// bytes (the last one shorter) and numbered from `id`; or the first fault.
pub open spec fn spec_compress_from(
    data: Seq<u8>,
    pos: int,
    chunk_size: int,
    a: CompressionAlgorithm,
    id: nat,
) -> Result<Seq<Seq<u8>>, ErrorView>
    decreases data.len() - pos,
{
    if pos < 0 || pos >= data.len() || chunk_size <= 0 {
        Ok(Seq::empty())
    } else if id > u32::MAX {
        Err(ErrorView::InvalidFormat { message: "Too many chunks"@ })
    } else {
        let end = chunk_end(data.len() as int, pos, chunk_size);
        match spec_compress_chunk(data.subrange(pos, end), a, id as u32) {
            Err(e) => Err(e),
            Ok(frame) => prepend_frames(
                seq![frame],
                spec_compress_from(data, end, chunk_size, a, id + 1),
            ),
        }
    }
}

/// The frames of `data`.
pub open spec fn spec_compress_chunks(data: Seq<u8>, chunk_size: int, a: CompressionAlgorithm)
    -> Result<Seq<Seq<u8>>, ErrorView> {
    if chunk_size <= 0 {
        Err(ErrorView::Configuration { message: "Chunk size must be positive"@ })
    } else {
        spec_compress_from(data, 0, chunk_size, a, 0)
    }
}

/// The container for `data`.
pub open spec fn spec_compress_container(data: Seq<u8>, chunk_size: int, a: CompressionAlgorithm)
    -> Result<Seq<u8>, ErrorView> {
    match spec_compress_chunks(data, chunk_size, a) {
        Err(e) => Err(e),
        Ok(frames) => if chunks_fit(frames) {
            Ok(container_bytes(a, frames))
        } else {
            Err(oversized(frames))
        },
    }
}

/// Appending a frame appends its framed bytes.
pub proof fn lemma_framed_chunks_push(frames: Seq<Seq<u8>>, frame: Seq<u8>)
    ensures
        framed_chunks(frames.push(frame)) == framed_chunks(frames) + framed(frame),
    decreases frames.len(),
{
    if frames.len() == 0 {
        assert(frames.push(frame).drop_first() =~= Seq::<Seq<u8>>::empty());
        assert(framed_chunks(Seq::<Seq<u8>>::empty()) =~= Seq::<u8>::empty());
        assert(frames =~= Seq::<Seq<u8>>::empty());
        assert(framed_chunks(frames.push(frame)) =~= framed(frame));
        assert(framed_chunks(frames) + framed(frame) =~= framed(frame));
    } else {
        assert(frames.push(frame).drop_first() =~= frames.drop_first().push(frame));
        lemma_framed_chunks_push(frames.drop_first(), frame);
        assert(framed_chunks(frames.push(frame)) =~= framed_chunks(frames) + framed(frame));
    }
}

/// Appends the header for `algorithm` to `out`: the magic bytes, the
/// version, the length of the encoded descriptor and the descriptor.
pub fn write_header(out: &mut Vec<u8>, algorithm: &CompressionAlgorithm)
    ensures
        final(out)@ == old(out)@ + header_bytes(*algorithm),
{
    out.push(0x45);
    out.push(0x4e);
    out.push(0x43);
    out.push(0x53);
    push_le32(out, VERSION);
    let mut descriptor: Vec<u8> = Vec::new();
    algorithm.encode(&mut descriptor);
    proof {
        lemma_descriptor_len(*algorithm);
    }
    assert(descriptor@ =~= descriptor_bytes(*algorithm));
    push_le32(out, descriptor.len() as u32);
    push_range(out, descriptor.as_slice(), 0, descriptor.len());
    assert(descriptor@.subrange(0, descriptor@.len() as int) =~= descriptor@);
    assert(out@ =~= old(out)@ + header_bytes(*algorithm));
}

/// Whether the count of the chunks and the length of each fit their
/// 32-bit fields.
pub fn check_chunks_fit(chunks: &Vec<Vec<u8>>) -> (fit: bool)
    ensures
        fit == chunks_fit(frames_view(chunks@)),
{
    if chunks.len() > u32::MAX as usize {
        return false;
    }
    let mut i: usize = 0;
    while i < chunks.len()
        invariant
            i <= chunks@.len(),
            forall|j: int| 0 <= j < i ==> (#[trigger] frames_view(chunks@)[j]).len() <= u32::MAX,
        decreases chunks@.len() - i,
    {
        if chunks[i].len() > u32::MAX as usize {
            assert(frames_view(chunks@)[i as int].len() > u32::MAX);
            return false;
        }
        i += 1;
    }
    true
}

/// Appends the chunk count and the framed chunks to `out` and returns the
/// number of bytes appended. Where the count or a length does not fit its
/// field, nothing is appended and the fault is reported.
pub fn write_chunks(out: &mut Vec<u8>, chunks: &Vec<Vec<u8>>) -> (r: Result<u64, CompressionError>)
    ensures
        match r {
            Ok(total) => {
                &&& chunks_fit(frames_view(chunks@))
                &&& final(out)@ == old(out)@ + chunk_section(frames_view(chunks@))
                &&& total == chunk_section(frames_view(chunks@)).len()
            },
            Err(e) => {
                &&& !chunks_fit(frames_view(chunks@))
                &&& final(out)@ == old(out)@
                &&& e@ == oversized(frames_view(chunks@))
            },
        },
{
    if !check_chunks_fit(chunks) {
        if chunks.len() > u32::MAX as usize {
            return Err(invalid_format("Too many chunks"));
        }
        return Err(invalid_format("Chunk too large"));
    }
    let ghost frames = frames_view(chunks@);
    let start = out.len();
    push_le32(out, chunks.len() as u32);
    let mut i: usize = 0;
    assert(frames.take(0) =~= Seq::<Seq<u8>>::empty());
    while i < chunks.len()
        invariant
            i <= chunks@.len(),
            frames == frames_view(chunks@),
            chunks_fit(frames),
            start == old(out)@.len(),
            out@ == old(out)@ + le32(frames.len() as u32) + framed_chunks(frames.take(i as int)),
        decreases chunks@.len() - i,
    {
        let chunk = &chunks[i];
        assert(chunk@ == frames[i as int]);
        push_le32(out, chunk.len() as u32);
        push_range(out, chunk.as_slice(), 0, chunk.len());
        proof {
            assert(chunk@.subrange(0, chunk@.len() as int) =~= chunk@);
            lemma_framed_chunks_push(frames.take(i as int), frames[i as int]);
            assert(frames.take(i as int).push(frames[i as int]) =~= frames.take(i + 1));
            assert(out@ =~= old(out)@ + le32(frames.len() as u32) + framed_chunks(
                frames.take(i + 1),
            ));
        }
        i += 1;
    }
    assert(frames.take(chunks@.len() as int) =~= frames);
    assert(out@ =~= old(out)@ + chunk_section(frames));
    let total = out.len() - start;
    Ok(total as u64)
}

/// Reads the header at the start of `input` and returns it with the
/// position behind it. Input that ends early, other magic bytes, another
/// version and a descriptor that does not parse are refused with
/// `InvalidFormat`.
pub fn read_header(input: &[u8]) -> (r: Result<(FileHeader, usize), CompressionError>)
    ensures
        match r {
            Ok((header, pos)) => spec_read_header(input@) == Ok::<(FileHeader, int), ErrorView>(
                (header, pos as int),
            ),
            Err(e) => spec_read_header(input@) == Err::<(FileHeader, int), ErrorView>(e@),
        },
{
    if input.len() < 4 {
        return Err(invalid_format("Unexpected end of input"));
    }
    if input[0] != 0x45 || input[1] != 0x4e || input[2] != 0x43 || input[3] != 0x53 {
        assert(input@.subrange(0, 4) != magic()) by {
            if input@.subrange(0, 4) == magic() {
                assert(input@.subrange(0, 4)[0] == magic()[0]);
                assert(input@.subrange(0, 4)[1] == magic()[1]);
                assert(input@.subrange(0, 4)[2] == magic()[2]);
                assert(input@.subrange(0, 4)[3] == magic()[3]);
            }
        }
        return Err(invalid_format("Invalid magic bytes"));
    }
    assert(input@.subrange(0, 4) =~= magic());
    if input.len() < 8 {
        return Err(invalid_format("Unexpected end of input"));
    }
    let version = read_le32(input, 4);
    if version != VERSION {
        return Err(invalid_format("Unsupported version"));
    }
    if input.len() < 12 {
        return Err(invalid_format("Unexpected end of input"));
    }
    let descriptor_len = read_le32(input, 8) as usize;
    if input.len() - 12 < descriptor_len {
        return Err(invalid_format("Unexpected end of input"));
    }
    let descriptor = vstd::slice::slice_subrange(input, 12, 12 + descriptor_len);
    match CompressionAlgorithm::decode(descriptor) {
        None => Err(invalid_format("Invalid codec descriptor")),
        Some(algorithm) => Ok((FileHeader { version, algorithm }, 12 + descriptor_len)),
    }
}

/// Reads the framed chunk at `pos`: its length, then that many bytes.
/// Returns the frame and the position behind it; input that ends early is
/// refused with `InvalidFormat`.
pub fn read_compressed_chunk(input: &[u8], pos: usize) -> (r: Result<
    (Vec<u8>, usize),
    CompressionError,
>)
    ensures
        match r {
            Ok((frame, next)) => spec_read_chunk(input@, pos as int) == Ok::<
                (Seq<u8>, int),
                ErrorView,
            >((frame@, next as int)),
            Err(e) => spec_read_chunk(input@, pos as int) == Err::<(Seq<u8>, int), ErrorView>(e@),
        },
{
    if input.len() < 4 || pos > input.len() - 4 {
        return Err(invalid_format("Unexpected end of input"));
    }
    let chunk_len = read_le32(input, pos) as usize;
    if input.len() - 4 - pos < chunk_len {
        return Err(invalid_format("Unexpected end of input"));
    }
    let mut frame: Vec<u8> = Vec::new();
    push_range(&mut frame, input, pos + 4, pos + 4 + chunk_len);
    assert(frame@ =~= input@.subrange(pos + 4, pos + 4 + chunk_len));
    Ok((frame, pos + 4 + chunk_len))
}

/// Decodes a whole container: reads the header, the chunk count and the
/// chunks in order, decodes each frame with the header's codec and joins
/// the plaintexts. The first fault ends the decoding.
pub fn decompress_container(input: &[u8]) -> (r: Result<Vec<u8>, CompressionError>)
    ensures
        bytes_result_view(r) == spec_decompress_container(input@),
{
    let (header, header_end) = match read_header(input) {
        Ok(parsed) => parsed,
        Err(e) => {
            return Err(e);
        },
    };
    if input.len() - header_end < 4 {
        return Err(invalid_format("Unexpected end of input"));
    }
    let chunk_count = read_le32(input, header_end);
    let algorithm = header.algorithm;
    let mut output: Vec<u8> = Vec::new();
    let mut pos: usize = header_end + 4;
    let mut remaining: u32 = chunk_count;
    assert(prepend(output@, spec_decode_chunks(input@, pos as int, remaining as nat, algorithm))
        == spec_decode_chunks(input@, pos as int, remaining as nat, algorithm)) by {
        let d = spec_decode_chunks(input@, pos as int, remaining as nat, algorithm);
        if d is Ok {
            assert(output@ + d->Ok_0 =~= d->Ok_0);
        }
    }
    while remaining > 0
        invariant
            spec_decompress_container(input@) == prepend(
                output@,
                spec_decode_chunks(input@, pos as int, remaining as nat, algorithm),
            ),
        decreases remaining,
    {
        let (frame, next) = match read_compressed_chunk(input, pos) {
            Ok(read) => read,
            Err(e) => {
                return Err(e);
            },
        };
        let plaintext = match decompress_chunk(frame.as_slice(), &algorithm) {
            Ok(plaintext) => plaintext,
            Err(e) => {
                return Err(e);
            },
        };
        proof {
            let rest = spec_decode_chunks(input@, next as int, (remaining - 1) as nat, algorithm);
            if rest is Ok {
                assert(output@ + (plaintext@ + rest->Ok_0) =~= (output@ + plaintext@)
                    + rest->Ok_0);
            }
        }
        push_range(&mut output, plaintext.as_slice(), 0, plaintext.len());
        assert(plaintext@.subrange(0, plaintext@.len() as int) =~= plaintext@);
        pos = next;
        remaining -= 1;
    }
    assert(output@ + Seq::<u8>::empty() =~= output@);
    Ok(output)
}

/// Cuts `data` into chunks of `chunk_size` bytes (the last one shorter) and
/// encodes each with `compress_chunk`, numbering them from 0 in the order
/// of the input. A chunk size of zero is refused with `Configuration`.
pub fn compress_chunks(data: &[u8], chunk_size: usize, algorithm: &CompressionAlgorithm) -> (r:
    Result<Vec<Vec<u8>>, CompressionError>)
    ensures
        match r {
            Ok(chunks) => spec_compress_chunks(data@, chunk_size as int, *algorithm) == Ok::<
                Seq<Seq<u8>>,
                ErrorView,
            >(frames_view(chunks@)),
            Err(e) => spec_compress_chunks(data@, chunk_size as int, *algorithm) == Err::<
                Seq<Seq<u8>>,
                ErrorView,
            >(e@),
        },
{
    if chunk_size == 0 {
        return Err(configuration("Chunk size must be positive"));
    }
    let mut chunks: Vec<Vec<u8>> = Vec::new();
    let mut pos: usize = 0;
    let mut chunk_id: u64 = 0;
    assert(prepend_frames(
        frames_view(chunks@),
        spec_compress_from(data@, 0, chunk_size as int, *algorithm, 0),
    ) == spec_compress_from(data@, 0, chunk_size as int, *algorithm, 0)) by {
        let c = spec_compress_from(data@, 0, chunk_size as int, *algorithm, 0);
        if c is Ok {
            assert(frames_view(chunks@) + c->Ok_0 =~= c->Ok_0);
        }
    }
    while pos < data.len()
        invariant
            pos <= data@.len(),
            chunk_size > 0,
            chunk_id <= u32::MAX + 1,
            spec_compress_chunks(data@, chunk_size as int, *algorithm) == prepend_frames(
                frames_view(chunks@),
                spec_compress_from(
                    data@,
                    pos as int,
                    chunk_size as int,
                    *algorithm,
                    chunk_id as nat,
                ),
            ),
        decreases data@.len() - pos,
    {
        if chunk_id > u32::MAX as u64 {
            return Err(invalid_format("Too many chunks"));
        }
        let end = if data.len() - pos < chunk_size {
            data.len()
        } else {
            pos + chunk_size
        };
        let piece = vstd::slice::slice_subrange(data, pos, end);
        let frame = match compress_chunk(piece, algorithm, chunk_id as u32) {
            Ok(frame) => frame,
            Err(e) => {
                return Err(e);
            },
        };
        proof {
            let rest = spec_compress_from(
                data@,
                end as int,
                chunk_size as int,
                *algorithm,
                (chunk_id + 1) as nat,
            );
            assert(frames_view(chunks@.push(frame)) =~= frames_view(chunks@) + seq![frame@]);
            if rest is Ok {
                assert(frames_view(chunks@) + (seq![frame@] + rest->Ok_0) =~= (frames_view(
                    chunks@,
                ) + seq![frame@]) + rest->Ok_0);
            }
        }
        chunks.push(frame);
        pos = end;
        chunk_id += 1;
    }
    assert(frames_view(chunks@) + Seq::<Seq<u8>>::empty() =~= frames_view(chunks@));
    Ok(chunks)
}

/// Builds the container from the frames of the chunks, which stand in the
/// order of the input: the header for `algorithm`, the chunk count, the
/// framed chunks. Returns the container and the number of bytes behind the
/// header.
pub fn assemble_container(algorithm: &CompressionAlgorithm, frames: &Vec<Vec<u8>>) -> (r: Result<
    (Vec<u8>, u64),
    CompressionError,
>)
    ensures
        match r {
            Ok((container, size)) => {
                &&& chunks_fit(frames_view(frames@))
                &&& container@ == container_bytes(*algorithm, frames_view(frames@))
                &&& size == chunk_section(frames_view(frames@)).len()
            },
            Err(e) => !chunks_fit(frames_view(frames@)) && e@ == oversized(frames_view(frames@)),
        },
{
    let mut container: Vec<u8> = Vec::new();
    write_header(&mut container, algorithm);
    assert(container@ =~= header_bytes(*algorithm));
    match write_chunks(&mut container, frames) {
        Err(e) => Err(e),
        Ok(size) => Ok((container, size)),
    }
}

/// Builds the container for `data`: the header for `algorithm`, then the
/// frames of the chunks in the order of the input. Returns the container
/// and its sizes.
pub fn compress_internal(data: &[u8], chunk_size: usize, algorithm: &CompressionAlgorithm) -> (r:
    Result<(Vec<u8>, InternalCompressionResult), CompressionError>)
    ensures
        match r {
            Ok((container, sizes)) => {
                &&& spec_compress_container(data@, chunk_size as int, *algorithm) == Ok::<
                    Seq<u8>,
                    ErrorView,
                >(container@)
                &&& container@.len() >= 8
                &&& container@.subrange(0, 4) == magic()
                &&& from_le32(container@.subrange(4, 8)) == VERSION
                &&& sizes.original_size == data@.len()
                &&& sizes.compressed_size == container@.len() - header_bytes(*algorithm).len()
                &&& spec_compress_chunks(data@, chunk_size as int, *algorithm) matches Ok(frames)
                    && sizes.chunk_count == frames.len()
            },
            Err(e) => spec_compress_container(data@, chunk_size as int, *algorithm) == Err::<
                Seq<u8>,
                ErrorView,
            >(e@),
        },
{
    let chunks = match compress_chunks(data, chunk_size, algorithm) {
        Ok(chunks) => chunks,
        Err(e) => {
            return Err(e);
        },
    };
    match assemble_container(algorithm, &chunks) {
        Err(e) => Err(e),
        Ok((container, total)) => {
            proof {
                lemma_container_header(*algorithm, frames_view(chunks@));
            }
            Ok(
                (
                    container,
                    InternalCompressionResult {
                        original_size: data.len() as u64,
                        compressed_size: total,
                        chunk_count: chunks.len() as u32,
                    },
                ),
            )
        },
    }
}

/// A container begins with `ENCS`, and its bytes 4 to 8 hold the format
/// version.
pub proof fn lemma_container_header(a: CompressionAlgorithm, frames: Seq<Seq<u8>>)
    ensures
        container_bytes(a, frames).len() >= 16,
        container_bytes(a, frames).subrange(0, 4) == magic(),
        from_le32(container_bytes(a, frames).subrange(4, 8)) == VERSION,
{
    let c = container_bytes(a, frames);
    lemma_descriptor_len(a);
    lemma_le32_roundtrip(VERSION);
    assert(c.subrange(0, 4) =~= magic());
    assert(c.subrange(4, 8) =~= le32(VERSION));
}

/// Whatever `compress_internal` writes begins with `ENCS` and the format
/// version.
pub proof fn lemma_written_header(data: Seq<u8>, chunk_size: int, a: CompressionAlgorithm)
    requires
        spec_compress_container(data, chunk_size, a) is Ok,
    ensures
        ({
            let c = spec_compress_container(data, chunk_size, a)->Ok_0;
            &&& c.len() >= 8
            &&& c.subrange(0, 4) == magic()
            &&& from_le32(c.subrange(4, 8)) == VERSION
        }),
{
    lemma_container_header(a, spec_compress_chunks(data, chunk_size, a)->Ok_0);
}

/// The container is a function of the input, the codec and the chunk size
/// and of nothing else: two compressions of the same three produce the same
/// bytes, however many workers there were and in whatever order they
/// finished.
pub proof fn lemma_compression_deterministic(
    data: Seq<u8>,
    chunk_size: int,
    a: CompressionAlgorithm,
    first: Result<Seq<u8>, ErrorView>,
    second: Result<Seq<u8>, ErrorView>,
)
    requires
        first == spec_compress_container(data, chunk_size, a),
        second == spec_compress_container(data, chunk_size, a),
    ensures
        first == second,
{
}

} // verus!
