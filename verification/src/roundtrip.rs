//! The round trip: what `compress_internal` writes, `decompress_container`
//! reads back.
//!
//! The codecs are outside crates, and that a codec restores what it
//! encoded is their promise, not something proved here. The laws below
//! take it as a hypothesis, chunk by chunk, and prove that header, framing,
//! chunking and checksums add no failure of their own. For `Store` the
//! hypothesis is a fact.

use crate::algorithm::{
    descriptor_bytes, lemma_descriptor_len, lemma_descriptor_roundtrip, CompressionAlgorithm,
};
use crate::bytes::{from_le32, le32, lemma_le32_roundtrip};
use crate::chunk::{
    codec_restores, lemma_chunk_roundtrip, lemma_store_restores, spec_compress_chunk,
    spec_decompress_chunk,
};
use crate::container::{
    chunk_end, chunk_section, chunks_fit, container_bytes, framed, framed_chunks, header_bytes,
    magic, spec_compress_chunks, spec_compress_container, spec_compress_from,
    spec_decode_chunks, spec_decompress_container, spec_read_chunk, spec_read_header,
    FileHeader, VERSION,
};
use crate::error::ErrorView;
use vstd::prelude::*;

verus! {

/// Reading a written header gives the codec back and stops behind the
/// header, whatever follows it.
pub proof fn lemma_header_roundtrip(a: CompressionAlgorithm, rest: Seq<u8>)
    ensures
        spec_read_header(header_bytes(a) + rest) == Ok::<(FileHeader, int), ErrorView>(
            (FileHeader { version: VERSION, algorithm: a }, header_bytes(a).len() as int),
        ),
{
    let s = header_bytes(a) + rest;
    let d = descriptor_bytes(a);
    lemma_descriptor_len(a);
    lemma_le32_roundtrip(VERSION);
    lemma_le32_roundtrip(d.len() as u32);
    lemma_descriptor_roundtrip(a, Seq::empty());
    assert(s.subrange(0, 4) =~= magic());
    assert(s.subrange(4, 8) =~= le32(VERSION));
    assert(s.subrange(8, 12) =~= le32(d.len() as u32));
    assert(s.subrange(12, 12 + d.len() as int) =~= d + Seq::<u8>::empty());
}

/// The codec of `a` restores every piece of `data`.
#[verifier::opaque]
pub open spec fn codec_restores_pieces(a: CompressionAlgorithm, data: Seq<u8>) -> bool {
    forall|i: int, j: int|
        0 <= i < j <= data.len() ==> codec_restores(a, #[trigger] data.subrange(i, j))
}

/// `bytes` stand in `s` at `pos`.
#[verifier::opaque]
pub open spec fn holds_at(s: Seq<u8>, pos: int, bytes: Seq<u8>) -> bool {
    0 <= pos && pos + bytes.len() <= s.len() && s.subrange(pos, pos + bytes.len()) == bytes
}

/// Where two runs of bytes stand one behind the other, each stands in its
/// place.
proof fn lemma_holds_at_split(s: Seq<u8>, pos: int, first: Seq<u8>, others: Seq<u8>)
    requires
        holds_at(s, pos, first + others),
    ensures
        holds_at(s, pos, first),
        holds_at(s, pos + first.len(), others),
{
    reveal(holds_at);
    let both = first + others;
    assert(s.subrange(pos, pos + first.len()) =~= both.subrange(0, first.len() as int));
    assert(both.subrange(0, first.len() as int) =~= first);
    assert(s.subrange(pos + first.len(), pos + first.len() + others.len()) =~= both.subrange(
        first.len() as int,
        both.len() as int,
    ));
    assert(both.subrange(first.len() as int, both.len() as int) =~= others);
}

/// A frame behind its length is read back as it was written.
proof fn lemma_read_framed(s: Seq<u8>, pos: int, frame: Seq<u8>)
    requires
        frame.len() <= u32::MAX,
        holds_at(s, pos, framed(frame)),
    ensures
        spec_read_chunk(s, pos) == Ok::<(Seq<u8>, int), ErrorView>(
            (frame, pos + 4 + frame.len()),
        ),
{
    reveal(holds_at);
    let f = framed(frame);
    lemma_le32_roundtrip(frame.len() as u32);
    assert(s.subrange(pos, pos + 4) =~= f.subrange(0, 4));
    assert(f.subrange(0, 4) =~= le32(frame.len() as u32));
    assert(s.subrange(pos + 4, pos + 4 + frame.len()) =~= f.subrange(4, f.len() as int));
    assert(f.subrange(4, f.len() as int) =~= frame);
}

/// One step of decoding: a chunk that reads and decodes goes in front of
/// what the chunks behind it decode to.
proof fn lemma_decode_step(
    s: Seq<u8>,
    pos: int,
    remaining: nat,
    a: CompressionAlgorithm,
    frame: Seq<u8>,
    next: int,
    plaintext: Seq<u8>,
    rest: Seq<u8>,
)
    requires
        remaining > 0,
        spec_read_chunk(s, pos) == Ok::<(Seq<u8>, int), ErrorView>((frame, next)),
        spec_decompress_chunk(frame, a) == Ok::<Seq<u8>, ErrorView>(plaintext),
        spec_decode_chunks(s, next, (remaining - 1) as nat, a) == Ok::<Seq<u8>, ErrorView>(rest),
    ensures
        spec_decode_chunks(s, pos, remaining, a) == Ok::<Seq<u8>, ErrorView>(plaintext + rest),
{
}

/// One step of encoding: where the chunks from `pos` on encode, the first
/// one does and the others do, and its frame stands in front of theirs.
proof fn lemma_compress_step(
    data: Seq<u8>,
    pos: int,
    chunk_size: int,
    a: CompressionAlgorithm,
    id: nat,
)
    requires
        0 <= pos < data.len(),
        chunk_size > 0,
        spec_compress_from(data, pos, chunk_size, a, id) is Ok,
    ensures
        ({
            let end = chunk_end(data.len() as int, pos, chunk_size);
            let first = spec_compress_chunk(data.subrange(pos, end), a, id as u32);
            let others = spec_compress_from(data, end, chunk_size, a, id + 1);
            &&& pos < end <= data.len()
            &&& first is Ok
            &&& others is Ok
            &&& spec_compress_from(data, pos, chunk_size, a, id)->Ok_0 == seq![first->Ok_0]
                + others->Ok_0
        }),
{
}

/// A codec that restores every piece restores this one.
proof fn lemma_piece_restored(a: CompressionAlgorithm, data: Seq<u8>, i: int, j: int)
    requires
        codec_restores_pieces(a, data),
        0 <= i < j <= data.len(),
    ensures
        codec_restores(a, data.subrange(i, j)),
{
    reveal(codec_restores_pieces);
}

/// The framed bytes of a frame and of the frames behind it.
proof fn lemma_framed_chunks_cons(frame: Seq<u8>, rest: Seq<Seq<u8>>)
    ensures
        framed_chunks(seq![frame] + rest) == framed(frame) + framed_chunks(rest),
        framed(frame).len() == 4 + frame.len(),
        (seq![frame] + rest).len() == rest.len() + 1,
{
    let frames = seq![frame] + rest;
    assert(frames.first() == frame);
    assert(frames.drop_first() =~= rest);
}

/// The tail of a sequence of frames that fit fits.
proof fn lemma_chunks_fit_cons(frame: Seq<u8>, rest: Seq<Seq<u8>>)
    requires
        chunks_fit(seq![frame] + rest),
    ensures
        frame.len() <= u32::MAX,
        chunks_fit(rest),
{
    let frames = seq![frame] + rest;
    assert(frames[0] == frame);
    assert forall|i: int| 0 <= i < rest.len() implies (#[trigger] rest[i]).len() <= u32::MAX by {
        assert(rest[i] == frames[i + 1]);
    }
}

/// A piece and what follows it make up what follows the piece's start.
proof fn lemma_piece_join(data: Seq<u8>, pos: int, end: int)
    requires
        0 <= pos <= end <= data.len(),
    ensures
        data.subrange(pos, end) + data.subrange(end, data.len() as int) == data.subrange(
            pos,
            data.len() as int,
        ),
{
    assert(data.subrange(pos, end) + data.subrange(end, data.len() as int) =~= data.subrange(
        pos,
        data.len() as int,
    ));
}

/// The step of the round trip: a first chunk that decodes to its piece, in
/// front of chunks that decode to the rest.
proof fn lemma_roundtrip_step(
    s: Seq<u8>,
    at: int,
    a: CompressionAlgorithm,
    frame: Seq<u8>,
    rest: Seq<Seq<u8>>,
    piece: Seq<u8>,
    decoded_rest: Seq<u8>,
)
    requires
        frame.len() <= u32::MAX,
        holds_at(s, at, framed(frame)),
        spec_decompress_chunk(frame, a) == Ok::<Seq<u8>, ErrorView>(piece),
        spec_decode_chunks(s, at + 4 + frame.len(), rest.len(), a) == Ok::<Seq<u8>, ErrorView>(
            decoded_rest,
        ),
    ensures
        spec_decode_chunks(s, at, rest.len() + 1, a) == Ok::<Seq<u8>, ErrorView>(
            piece + decoded_rest,
        ),
{
    lemma_read_framed(s, at, frame);
    lemma_decode_step(s, at, rest.len() + 1, a, frame, at + 4 + frame.len(), piece, decoded_rest);
}

/// Decoding the framed chunks of `data` from `pos` on gives `data` from
/// `pos` on, wherever in the input `s` the chunks stand.
pub proof fn lemma_chunks_roundtrip(
    data: Seq<u8>,
    pos: int,
    chunk_size: int,
    a: CompressionAlgorithm,
    id: nat,
    s: Seq<u8>,
    at: int,
)
    requires
        0 <= pos <= data.len(),
        chunk_size > 0,
        spec_compress_from(data, pos, chunk_size, a, id) is Ok,
        chunks_fit(spec_compress_from(data, pos, chunk_size, a, id)->Ok_0),
        holds_at(s, at, framed_chunks(spec_compress_from(data, pos, chunk_size, a, id)->Ok_0)),
        codec_restores_pieces(a, data),
    ensures
        spec_decode_chunks(
            s,
            at,
            spec_compress_from(data, pos, chunk_size, a, id)->Ok_0.len(),
            a,
        ) == Ok::<Seq<u8>, ErrorView>(data.subrange(pos, data.len() as int)),
    decreases data.len() - pos,
{
    let frames = spec_compress_from(data, pos, chunk_size, a, id)->Ok_0;
    if pos >= data.len() {
        assert(frames.len() == 0);
        assert(data.subrange(pos, data.len() as int) =~= Seq::<u8>::empty());
    } else {
        lemma_compress_step(data, pos, chunk_size, a, id);
        let end = chunk_end(data.len() as int, pos, chunk_size);
        let piece = data.subrange(pos, end);
        let frame = spec_compress_chunk(piece, a, id as u32)->Ok_0;
        let rest = spec_compress_from(data, end, chunk_size, a, id + 1)->Ok_0;
        let decoded_rest = data.subrange(end, data.len() as int);
        lemma_chunks_fit_cons(frame, rest);
        lemma_framed_chunks_cons(frame, rest);
        lemma_holds_at_split(s, at, framed(frame), framed_chunks(rest));
        lemma_piece_restored(a, data, pos, end);
        lemma_chunk_roundtrip(piece, a, id as u32);
        lemma_chunks_roundtrip(data, end, chunk_size, a, id + 1, s, at + 4 + frame.len());
        lemma_roundtrip_step(s, at, a, frame, rest, piece, decoded_rest);
        lemma_piece_join(data, pos, end);
    }
}

/// In a container, the chunk count stands behind the header and the
/// framed chunks stand behind the count.
proof fn lemma_container_layout(a: CompressionAlgorithm, frames: Seq<Seq<u8>>)
    requires
        frames.len() <= u32::MAX,
    ensures
        ({
            let c = container_bytes(a, frames);
            let pos = header_bytes(a).len() as int;
            &&& c.len() >= pos + 4
            &&& from_le32(c.subrange(pos, pos + 4)) == frames.len()
            &&& holds_at(c, pos + 4, framed_chunks(frames))
        }),
{
    reveal(holds_at);
    let c = container_bytes(a, frames);
    let pos = header_bytes(a).len() as int;
    lemma_le32_roundtrip(frames.len() as u32);
    assert(c.subrange(pos, pos + 4) =~= le32(frames.len() as u32));
    assert(c.subrange(pos + 4, pos + 4 + framed_chunks(frames).len()) =~= framed_chunks(frames));
}

/// Round trip: where compressing `data` succeeds and the codec restores
/// each chunk, decompressing the container gives `data` back, byte for
/// byte. Header, framing, chunking and checksums add no failure of their
/// own.
pub proof fn lemma_container_roundtrip(data: Seq<u8>, chunk_size: int, a: CompressionAlgorithm)
    requires
        spec_compress_container(data, chunk_size, a) is Ok,
        codec_restores_pieces(a, data),
    ensures
        spec_decompress_container(spec_compress_container(data, chunk_size, a)->Ok_0) == Ok::<
            Seq<u8>,
            ErrorView,
        >(data),
{
    let frames = spec_compress_chunks(data, chunk_size, a)->Ok_0;
    let c = container_bytes(a, frames);
    lemma_header_roundtrip(a, chunk_section(frames));
    lemma_container_layout(a, frames);
    let pos = header_bytes(a).len() as int;
    lemma_chunks_roundtrip(data, 0, chunk_size, a, 0, c, pos + 4);
    assert(data.subrange(0, data.len() as int) =~= data);
}

/// `Store` restores every piece of every input, so a stored container
/// always decodes to its input.
pub proof fn lemma_store_container_roundtrip(data: Seq<u8>, chunk_size: int)
    requires
        spec_compress_container(data, chunk_size, CompressionAlgorithm::Store) is Ok,
    ensures
        spec_decompress_container(
            spec_compress_container(data, chunk_size, CompressionAlgorithm::Store)->Ok_0,
        ) == Ok::<Seq<u8>, ErrorView>(data),
{
    reveal(codec_restores_pieces);
    assert forall|i: int, j: int| 0 <= i < j <= data.len() implies codec_restores(
        CompressionAlgorithm::Store,
        #[trigger] data.subrange(i, j),
    ) by {
        lemma_store_restores(data.subrange(i, j));
    }
    lemma_container_roundtrip(data, chunk_size, CompressionAlgorithm::Store);
}

} // verus!
