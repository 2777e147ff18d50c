//! Codec descriptors and their encoding inside the container header.

use crate::bytes::{from_le32, le32, push_le32, read_le32};
use vstd::prelude::*;

verus! {

/// A codec and its parameters. Chosen once per container and never changed.
#[derive(Debug, Clone, Copy, PartialEq, Eq, Hash, Structural)]
#[allow(inconsistent_fields)]
pub enum CompressionAlgorithm {
    /// The payload is the plaintext.
    Store,
    /// Zstandard at `level`, 1 to 22.
    Zstd { level: i32 },
    /// LZ4 block format with the plaintext size in front.
    Lz4 { high_compression: bool },
    /// Snappy raw format.
    Snappy,
    /// Brotli at `quality`, 0 to 11.
    Brotli { quality: u32 },
    /// Raw deflate at `level`, 0 to 9.
    Deflate { level: u32 },
}

/// What the caller wants the selector to favour.
#[derive(Debug, Clone, Copy, PartialEq, Eq, Hash, Structural)]
pub enum OptimizationTarget {
    Speed,
    Ratio,
    Memory,
    Balanced,
}

/// The bit pattern of a signed 32-bit integer (two's complement).
pub open spec fn i32_bits(v: i32) -> u32 {
    if v >= 0 {
        v as u32
    } else {
        (v + 0x1_0000_0000) as u32
    }
}

/// The signed integer with the given bit pattern.
pub open spec fn i32_of_bits(b: u32) -> i32 {
    if b < 0x8000_0000 {
        b as i32
    } else {
        (b - 0x1_0000_0000) as i32
    }
}

/// The encoded descriptor: the variant's index as a little-endian `u32`,
/// then its fields in order, integers as four little-endian bytes and the
/// flag as one byte.
pub open spec fn descriptor_bytes(a: CompressionAlgorithm) -> Seq<u8> {
    match a {
        CompressionAlgorithm::Store => le32(0),
        CompressionAlgorithm::Zstd { level } => le32(1) + le32(i32_bits(level)),
        CompressionAlgorithm::Lz4 { high_compression } => le32(2) + seq![
            if high_compression {
                1u8
            } else {
                0u8
            },
        ],
        CompressionAlgorithm::Snappy => le32(3),
        CompressionAlgorithm::Brotli { quality } => le32(4) + le32(quality),
        CompressionAlgorithm::Deflate { level } => le32(5) + le32(level),
    }
}

/// The descriptor that `s` begins with, if any. Bytes after the descriptor
/// are ignored; a flag byte other than 0 or 1 and an unknown variant index
/// are refused.
pub open spec fn parse_descriptor(s: Seq<u8>) -> Option<CompressionAlgorithm> {
    if s.len() < 4 {
        None
    } else {
        let tag = from_le32(s.subrange(0, 4));
        if tag == 0 {
            Some(CompressionAlgorithm::Store)
        } else if tag == 3 {
            Some(CompressionAlgorithm::Snappy)
        } else if tag == 2 {
            if s.len() < 5 || s[4] > 1 {
                None
            } else {
                Some(CompressionAlgorithm::Lz4 { high_compression: s[4] == 1 })
            }
        } else if tag == 1 || tag == 4 || tag == 5 {
            if s.len() < 8 {
                None
            } else {
                let field = from_le32(s.subrange(4, 8));
                if tag == 1 {
                    Some(CompressionAlgorithm::Zstd { level: i32_of_bits(field) })
                } else if tag == 4 {
                    Some(CompressionAlgorithm::Brotli { quality: field })
                } else {
                    Some(CompressionAlgorithm::Deflate { level: field })
                }
            }
        } else {
            None
        }
    }
}

impl CompressionAlgorithm {
    /// The codec's name.
    pub open spec fn spec_name(self) -> Seq<char> {
        match self {
            CompressionAlgorithm::Store => "store"@,
            CompressionAlgorithm::Zstd { .. } => "zstd"@,
            CompressionAlgorithm::Lz4 { .. } => "lz4"@,
            CompressionAlgorithm::Snappy => "snappy"@,
            CompressionAlgorithm::Brotli { .. } => "brotli"@,
            CompressionAlgorithm::Deflate { .. } => "deflate"@,
        }
    }

    /// The parameters lie in the range that the codec documents.
    pub open spec fn valid(self) -> bool {
        match self {
            CompressionAlgorithm::Zstd { level } => 1 <= level <= 22,
            CompressionAlgorithm::Brotli { quality } => quality <= 11,
            CompressionAlgorithm::Deflate { level } => level <= 9,
            _ => true,
        }
    }

    /// The codec's name: `store`, `zstd`, `lz4`, `snappy`, `brotli` or
    /// `deflate`.
    pub fn name(&self) -> (name: &'static str)
        ensures
            name@ == self.spec_name(),
    {
        match self {
            CompressionAlgorithm::Store => "store",
            CompressionAlgorithm::Zstd { .. } => "zstd",
            CompressionAlgorithm::Lz4 { .. } => "lz4",
            CompressionAlgorithm::Snappy => "snappy",
            CompressionAlgorithm::Brotli { .. } => "brotli",
            CompressionAlgorithm::Deflate { .. } => "deflate",
        }
    }

    /// Whether the parameters lie in the documented range.
    pub fn is_valid(&self) -> (ok: bool)
        ensures
            ok == self.valid(),
    {
        match self {
            CompressionAlgorithm::Zstd { level } => 1 <= *level && *level <= 22,
            CompressionAlgorithm::Brotli { quality } => *quality <= 11,
            CompressionAlgorithm::Deflate { level } => *level <= 9,
            _ => true,
        }
    }

    /// Appends the encoded descriptor to `out`.
    pub fn encode(&self, out: &mut Vec<u8>)
        ensures
            final(out)@ == old(out)@ + descriptor_bytes(*self),
    {
        match self {
            CompressionAlgorithm::Store => {
                push_le32(out, 0);
            },
            CompressionAlgorithm::Zstd { level } => {
                push_le32(out, 1);
                let bits: u32 = if *level >= 0 {
                    *level as u32
                } else {
                    (*level as i64 + 0x1_0000_0000) as u32
                };
                push_le32(out, bits);
                assert(out@ =~= old(out)@ + descriptor_bytes(*self));
            },
            CompressionAlgorithm::Lz4 { high_compression } => {
                push_le32(out, 2);
                out.push(if *high_compression { 1 } else { 0 });
                assert(out@ =~= old(out)@ + descriptor_bytes(*self));
            },
            CompressionAlgorithm::Snappy => {
                push_le32(out, 3);
            },
            CompressionAlgorithm::Brotli { quality } => {
                push_le32(out, 4);
                push_le32(out, *quality);
                assert(out@ =~= old(out)@ + descriptor_bytes(*self));
            },
            CompressionAlgorithm::Deflate { level } => {
                push_le32(out, 5);
                push_le32(out, *level);
                assert(out@ =~= old(out)@ + descriptor_bytes(*self));
            },
        }
    }

    /// Reads a descriptor from the front of `input`.
    pub fn decode(input: &[u8]) -> (r: Option<CompressionAlgorithm>)
        ensures
            r == parse_descriptor(input@),
    {
        if input.len() < 4 {
            return None;
        }
        let tag = read_le32(input, 0);
        if tag == 0 {
            Some(CompressionAlgorithm::Store)
        } else if tag == 3 {
            Some(CompressionAlgorithm::Snappy)
        } else if tag == 2 {
            if input.len() < 5 || input[4] > 1 {
                None
            } else {
                Some(CompressionAlgorithm::Lz4 { high_compression: input[4] == 1 })
            }
        } else if tag == 1 || tag == 4 || tag == 5 {
            if input.len() < 8 {
                return None;
            }
            let field = read_le32(input, 4);
            if tag == 1 {
                let level: i32 = if field < 0x8000_0000 {
                    field as i32
                } else {
                    (field as i64 - 0x1_0000_0000) as i32
                };
                Some(CompressionAlgorithm::Zstd { level })
            } else if tag == 4 {
                Some(CompressionAlgorithm::Brotli { quality: field })
            } else {
                Some(CompressionAlgorithm::Deflate { level: field })
            }
        } else {
            None
        }
    }
}

/// A descriptor is at least four and at most eight bytes long.
pub proof fn lemma_descriptor_len(a: CompressionAlgorithm)
    ensures
        4 <= descriptor_bytes(a).len() <= 8,
{
}

/// Reading an encoded descriptor gives the descriptor back, whatever
/// follows it.
pub proof fn lemma_descriptor_roundtrip(a: CompressionAlgorithm, rest: Seq<u8>)
    ensures
        parse_descriptor(descriptor_bytes(a) + rest) == Some(a),
{
    let s = descriptor_bytes(a) + rest;
    match a {
        CompressionAlgorithm::Store => {
            assert(s.subrange(0, 4) =~= le32(0));
        },
        CompressionAlgorithm::Zstd { level } => {
            assert(s.subrange(0, 4) =~= le32(1));
            assert(s.subrange(4, 8) =~= le32(i32_bits(level)));
            crate::bytes::lemma_le32_roundtrip(i32_bits(level));
        },
        CompressionAlgorithm::Lz4 { high_compression } => {
            assert(s.subrange(0, 4) =~= le32(2));
        },
        CompressionAlgorithm::Snappy => {
            assert(s.subrange(0, 4) =~= le32(3));
        },
        CompressionAlgorithm::Brotli { quality } => {
            assert(s.subrange(0, 4) =~= le32(4));
            assert(s.subrange(4, 8) =~= le32(quality));
            crate::bytes::lemma_le32_roundtrip(quality);
        },
        CompressionAlgorithm::Deflate { level } => {
            assert(s.subrange(0, 4) =~= le32(5));
            assert(s.subrange(4, 8) =~= le32(level));
            crate::bytes::lemma_le32_roundtrip(level);
        },
    }
}

} // verus!
