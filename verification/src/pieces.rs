//! The cutting of an input into chunks, chunk by chunk: for a caller that
//! encodes the chunks on its own workers and needs the bounds of each.

use crate::algorithm::CompressionAlgorithm;
use crate::chunk::spec_compress_chunk;
use crate::container::{chunk_end, spec_compress_chunks, spec_compress_from};
use crate::error::ErrorView;
use vstd::prelude::*;

verus! {

/// The number of chunks of `chunk_size` bytes that an input of `len` bytes
/// is cut into; the last chunk may be shorter.
pub open spec fn spec_chunk_count(len: int, chunk_size: int) -> int {
    if chunk_size <= 0 || len <= 0 {
        0
    } else {
        (len - 1) / chunk_size + 1
    }
}

/// The position at which chunk `id` starts.
pub open spec fn chunk_start(id: int, chunk_size: int) -> int {
    id * chunk_size
}

/// Chunk `id` of `data`.
pub open spec fn piece(data: Seq<u8>, chunk_size: int, id: int) -> Seq<u8> {
    data.subrange(
        chunk_start(id, chunk_size),
        chunk_end(data.len() as int, chunk_start(id, chunk_size), chunk_size),
    )
}

/// `frames` holds, in the order of the chunk numbers, the frame of every
/// chunk of `data`.
pub open spec fn pieces_encoded(
    data: Seq<u8>,
    chunk_size: int,
    a: CompressionAlgorithm,
    frames: Seq<Seq<u8>>,
) -> bool {
    &&& frames.len() == spec_chunk_count(data.len() as int, chunk_size)
    &&& forall|id: int|
        0 <= id < frames.len() ==> spec_compress_chunk(piece(data, chunk_size, id), a, id as u32)
            == Ok::<Seq<u8>, ErrorView>(#[trigger] frames[id])
}

/// A chunk number is below the count exactly if the chunk starts inside
/// the input.
pub proof fn lemma_chunk_in_input(len: int, chunk_size: int, id: int)
    requires
        chunk_size > 0,
        len >= 0,
        id >= 0,
    ensures
        id < spec_chunk_count(len, chunk_size) <==> chunk_start(id, chunk_size) < len,
        chunk_start(id + 1, chunk_size) == chunk_start(id, chunk_size) + chunk_size,
        chunk_start(id, chunk_size) >= 0,
{
    vstd::arithmetic::mul::lemma_mul_is_distributive_add_other_way(chunk_size, id, 1);
    vstd::arithmetic::mul::lemma_mul_inequality(0, id, chunk_size);
    if len > 0 {
        let q = (len - 1) / chunk_size;
        vstd::arithmetic::div_mod::lemma_fundamental_div_mod(len - 1, chunk_size);
        vstd::arithmetic::div_mod::lemma_mod_bound(len - 1, chunk_size);
        vstd::arithmetic::mul::lemma_mul_is_commutative(chunk_size, q);
        vstd::arithmetic::mul::lemma_mul_is_distributive_add_other_way(chunk_size, q, 1);
        if id <= q {
            vstd::arithmetic::mul::lemma_mul_inequality(id, q, chunk_size);
        } else {
            vstd::arithmetic::mul::lemma_mul_inequality(q + 1, id, chunk_size);
        }
    }
}

/// The frames of the chunks from number `k` on are what the sequential
/// cutting gives from the start of chunk `k` on.
proof fn lemma_pieces_from(
    data: Seq<u8>,
    chunk_size: int,
    a: CompressionAlgorithm,
    frames: Seq<Seq<u8>>,
    k: int,
)
    requires
        chunk_size > 0,
        frames.len() <= u32::MAX + 1,
        pieces_encoded(data, chunk_size, a, frames),
        0 <= k <= frames.len(),
    ensures
        spec_compress_from(data, chunk_start(k, chunk_size), chunk_size, a, k as nat) == Ok::<
            Seq<Seq<u8>>,
            ErrorView,
        >(frames.subrange(k, frames.len() as int)),
    decreases frames.len() - k,
{
    let len = data.len() as int;
    let start = chunk_start(k, chunk_size);
    lemma_chunk_in_input(len, chunk_size, k);
    if k == frames.len() {
        assert(frames.subrange(k, frames.len() as int) =~= Seq::<Seq<u8>>::empty());
    } else {
        let end = chunk_end(len, start, chunk_size);
        assert(spec_compress_chunk(piece(data, chunk_size, k), a, k as u32) == Ok::<
            Seq<u8>,
            ErrorView,
        >(frames[k]));
        if end == len {
            lemma_chunk_in_input(len, chunk_size, k + 1);
            assert(frames.subrange(k + 1, frames.len() as int) =~= Seq::<Seq<u8>>::empty());
        } else {
            lemma_pieces_from(data, chunk_size, a, frames, k + 1);
        }
        assert(seq![frames[k]] + frames.subrange(k + 1, frames.len() as int)
            =~= frames.subrange(k, frames.len() as int));
    }
}

/// Frames that were made chunk by chunk, each of the chunk that
/// `chunk_bounds` gives for its number, and put in the order of the
/// numbers, are the frames that `compress_chunks` makes: the container does
/// not depend on who encoded which chunk, nor on when.
pub proof fn lemma_pieces_are_chunks(
    data: Seq<u8>,
    chunk_size: int,
    a: CompressionAlgorithm,
    frames: Seq<Seq<u8>>,
)
    requires
        chunk_size > 0,
        frames.len() <= u32::MAX + 1,
        pieces_encoded(data, chunk_size, a, frames),
    ensures
        spec_compress_chunks(data, chunk_size, a) == Ok::<Seq<Seq<u8>>, ErrorView>(frames),
{
    lemma_pieces_from(data, chunk_size, a, frames, 0);
    assert(frames.subrange(0, frames.len() as int) =~= frames);
}

/// The number of chunks that an input of `len` bytes is cut into.
pub fn chunk_count(len: usize, chunk_size: usize) -> (count: usize)
    ensures
        count == spec_chunk_count(len as int, chunk_size as int),
{
    if chunk_size == 0 || len == 0 {
        0
    } else {
        (len - 1) / chunk_size + 1
    }
}

/// The bounds of chunk `chunk_id` in an input of `len` bytes: where it
/// starts and where it ends. There are none for a number at or beyond the
/// count of the chunks.
pub fn chunk_bounds(len: usize, chunk_size: usize, chunk_id: u32) -> (bounds: Option<
    (usize, usize),
>)
    ensures
        match bounds {
            Some((from, to)) => {
                &&& chunk_id < spec_chunk_count(len as int, chunk_size as int)
                &&& from == chunk_start(chunk_id as int, chunk_size as int)
                &&& to == chunk_end(len as int, from as int, chunk_size as int)
                &&& from < to <= len
            },
            None => chunk_id >= spec_chunk_count(len as int, chunk_size as int),
        },
{
    if chunk_size == 0 {
        return None;
    }
    proof {
        lemma_chunk_in_input(len as int, chunk_size as int, chunk_id as int);
        vstd::arithmetic::mul::lemma_mul_inequality(
            chunk_id as int,
            0xFFFF_FFFF,
            chunk_size as int,
        );
        vstd::arithmetic::mul::lemma_mul_inequality(
            chunk_size as int,
            0xFFFF_FFFF_FFFF_FFFF,
            0xFFFF_FFFF,
        );
        vstd::arithmetic::mul::lemma_mul_is_commutative(chunk_size as int, 0xFFFF_FFFF);
    }
    let start: u128 = chunk_id as u128 * chunk_size as u128;
    if start >= len as u128 {
        return None;
    }
    let from = start as usize;
    let to = if len - from < chunk_size {
        len
    } else {
        from + chunk_size
    };
    Some((from, to))
}

} // verus!
