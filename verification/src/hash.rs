//! Checksums and digests. The algorithms are those of outside crates. What
//! CRC-32 is takes a few lines to say, and they are said here; the digests
//! are named by functions without a body.

use vstd::prelude::*;

verus! {

/// The CRC-32 register after `bits` more steps: at each step the register
/// moves one bit to the right, and the reflected IEEE polynomial
/// `0xEDB88320` is added where the bit that left was set.
pub open spec fn crc32_shift(register: u32, bits: nat) -> u32
    decreases bits,
{
    if bits == 0 {
        register
    } else {
        crc32_shift(
            if register & 1 == 1 {
                (register >> 1) ^ 0xEDB8_8320
            } else {
                register >> 1
            },
            (bits - 1) as nat,
        )
    }
}

/// The CRC-32 register after all of `data`: it starts with every bit set,
/// and each byte is added to its low end and shifted through.
pub open spec fn crc32_register(data: Seq<u8>) -> u32
    decreases data.len(),
{
    if data.len() == 0 {
        0xFFFF_FFFF
    } else {
        crc32_shift(crc32_register(data.drop_last()) ^ (data.last() as u32), 8)
    }
}

/// The CRC-32 (IEEE) of `data`: the register after all of `data`, with
/// every bit turned.
pub open spec fn crc32(data: Seq<u8>) -> u32 {
    crc32_register(data) ^ 0xFFFF_FFFF
}

/// The CRC-32 of no bytes is 0.
pub proof fn lemma_crc32_of_nothing()
    ensures
        crc32(Seq::<u8>::empty()) == 0,
{
    assert(0xFFFF_FFFFu32 ^ 0xFFFF_FFFFu32 == 0u32) by (bit_vector);
}

/// The 32 bytes of the SHA-256 digest of `data`, as `sha2` computes it.
pub uninterp spec fn sha256(data: Seq<u8>) -> Seq<u8>;

/// The 32 bytes of the BLAKE3 hash of `data`, as `blake3::hash` computes it.
pub uninterp spec fn blake3(data: Seq<u8>) -> Seq<u8>;

/// The whole-input hashes that accompany a compression.
#[derive(Debug, Clone, Copy, PartialEq, Eq)]
pub struct FileHash {
    pub sha256: [u8; 32],
    pub blake3: [u8; 32],
    pub crc32: u32,
}

/// Calls `crc32fast::hash(data)`. Believed: the result is the CRC-32
/// (IEEE) of the data, which is what the crate documents.
#[verifier::external_body]
pub(crate) fn crc32_of(data: &[u8]) -> (checksum: u32)
    ensures
        checksum == crc32(data@),
{
    crc32fast::hash(data)
}

/// Calls `sha2::Sha256::digest(data)` and copies the 32 bytes out.
/// Believed: the result is a function of the data alone.
#[verifier::external_body]
fn sha256_of(data: &[u8]) -> (digest: [u8; 32])
    ensures
        digest@ == sha256(data@),
{
    let mut digest = [0u8; 32];
    digest.copy_from_slice(&<sha2::Sha256 as sha2::Digest>::digest(data));
    digest
}

/// Calls `blake3::hash(data)` and takes the 32 bytes out. Believed: the
/// result is a function of the data alone.
#[verifier::external_body]
fn blake3_of(data: &[u8]) -> (digest: [u8; 32])
    ensures
        digest@ == blake3(data@),
{
    blake3::hash(data).into()
}

/// The CRC-32 of `data`, bit by bit as the definition has it: slow, and
/// there to hold the definition against the table-driven code that the
/// library calls.
pub fn crc32_bitwise(data: &[u8]) -> (checksum: u32)
    ensures
        checksum == crc32(data@),
{
    let mut register: u32 = 0xFFFF_FFFF;
    let mut i: usize = 0;
    while i < data.len()
        invariant
            i <= data@.len(),
            register == crc32_register(data@.subrange(0, i as int)),
        decreases data@.len() - i,
    {
        let ghost start = register ^ (data@[i as int] as u32);
        register = register ^ (data[i] as u32);
        let mut bit: u8 = 0;
        while bit < 8
            invariant
                bit <= 8,
                crc32_shift(register, (8 - bit) as nat) == crc32_shift(start, 8),
            decreases 8 - bit,
        {
            register = if register & 1 == 1 {
                (register >> 1) ^ 0xEDB8_8320
            } else {
                register >> 1
            };
            bit += 1;
        }
        assert(data@.subrange(0, i + 1).drop_last() =~= data@.subrange(0, i as int));
        i += 1;
    }
    assert(data@.subrange(0, data@.len() as int) =~= data@);
    register ^ 0xFFFF_FFFF
}

/// The SHA-256, BLAKE3 and CRC-32 of `data`.
pub fn calculate_file_hash(data: &[u8]) -> (hash: FileHash)
    ensures
        hash.sha256@ == sha256(data@),
        hash.blake3@ == blake3(data@),
        hash.crc32 == crc32(data@),
{
    FileHash { sha256: sha256_of(data), blake3: blake3_of(data), crc32: crc32_of(data) }
}

} // verus!
