use encs::chunk::{check_integrity, compress_chunk, decompress_chunk, frame_chunk};
use encs::codec::{codec_result, compress_payload, decompress_payload};
use encs::{CompressionAlgorithm, CompressionError};

fn text() -> Vec<u8> {
    b"Hello World! This is a test file for compression.".repeat(20)
}

fn all_codecs() -> Vec<CompressionAlgorithm> {
    vec![
        CompressionAlgorithm::Store,
        CompressionAlgorithm::Zstd { level: 3 },
        CompressionAlgorithm::Lz4 { high_compression: false },
        CompressionAlgorithm::Snappy,
        CompressionAlgorithm::Brotli { quality: 4 },
        CompressionAlgorithm::Deflate { level: 6 },
    ]
}

fn le(bytes: &[u8]) -> u32 {
    u32::from_le_bytes([bytes[0], bytes[1], bytes[2], bytes[3]])
}

#[test]
fn stored_frame_has_exact_bytes() {
    let frame = compress_chunk(b"abc", &CompressionAlgorithm::Store, 7).unwrap();
    assert_eq!(
        frame,
        vec![3, 0, 0, 0, 3, 0, 0, 0, 0xc2, 0x41, 0x24, 0x35, b'a', b'b', b'c']
    );
    assert_eq!(
        decompress_chunk(&frame, &CompressionAlgorithm::Store).unwrap(),
        b"abc"
    );
}

#[test]
fn frame_chunk_puts_fields_in_order() {
    let frame = frame_chunk(0x01020304, 0xAABBCCDD, &[9, 8, 7]).unwrap();
    assert_eq!(
        frame,
        vec![4, 3, 2, 1, 3, 0, 0, 0, 0xDD, 0xCC, 0xBB, 0xAA, 9, 8, 7]
    );
}

#[test]
fn frame_chunk_refuses_a_plaintext_size_beyond_32_bits() {
    assert_eq!(
        frame_chunk(1usize << 32, 0, &[]).unwrap_err(),
        CompressionError::InvalidFormat { message: "Chunk too large".to_string() }
    );
    assert!(frame_chunk(u32::MAX as usize, 0, &[]).is_ok());
}

#[test]
fn empty_plaintext_gives_a_bare_header() {
    for algorithm in all_codecs() {
        let frame = compress_chunk(&[], &algorithm, 0).unwrap();
        assert_eq!(frame, vec![0u8; 12]);
        assert_eq!(compress_payload(&[], &algorithm, 0).unwrap(), Vec::<u8>::new());
    }
}

#[test]
fn every_frame_records_its_payload_length() {
    for algorithm in all_codecs() {
        for input in [text(), vec![1u8], vec![0u8; 300]] {
            let frame = compress_chunk(&input, &algorithm, 0).unwrap();
            assert!(frame.len() >= 12);
            assert_eq!(le(&frame[0..4]) as usize, input.len());
            assert_eq!(le(&frame[4..8]) as usize, frame.len() - 12);
        }
    }
}

#[test]
fn every_frame_records_the_crc_of_its_plaintext() {
    // The check value of CRC-32: the checksum of the digits 1 to 9.
    let digits = b"123456789";
    for algorithm in all_codecs() {
        let frame = compress_chunk(digits, &algorithm, 0).unwrap();
        assert_eq!(le(&frame[8..12]), 0xCBF43926);
        let plaintext = decompress_chunk(&frame, &algorithm).unwrap();
        assert_eq!(plaintext, digits);
    }
}

#[test]
fn codecs_transform_the_plaintext() {
    let input = text();
    for algorithm in all_codecs() {
        let payload = compress_payload(&input, &algorithm, 0).unwrap();
        if algorithm == CompressionAlgorithm::Store {
            assert_eq!(payload, input);
        } else {
            assert_ne!(payload, input);
            assert!(payload.len() < input.len());
            // The decoder is the inverse, not the identity.
            let plaintext = decompress_payload(&payload, &algorithm, input.len() as u32).unwrap();
            assert_ne!(plaintext, payload);
            assert_eq!(plaintext, input);
        }
    }
}

#[test]
fn lz4_payload_begins_with_the_plaintext_size() {
    let input = text();
    let payload =
        compress_payload(&input, &CompressionAlgorithm::Lz4 { high_compression: false }, 0)
            .unwrap();
    assert_eq!(le(&payload[0..4]) as usize, input.len());
}

#[test]
fn zstd_refuses_a_capacity_below_the_plaintext() {
    let input = text();
    let algorithm = CompressionAlgorithm::Zstd { level: 3 };
    let payload = compress_payload(&input, &algorithm, 0).unwrap();
    let error = decompress_payload(&payload, &algorithm, 10).unwrap_err();
    assert!(matches!(
        error,
        CompressionError::AlgorithmError { ref codec, chunk_id: None, .. } if codec == "zstd"
    ));
}

#[test]
fn out_of_range_parameters_are_refused() {
    for algorithm in [
        CompressionAlgorithm::Zstd { level: 0 },
        CompressionAlgorithm::Zstd { level: 23 },
        CompressionAlgorithm::Zstd { level: -1 },
        CompressionAlgorithm::Brotli { quality: 12 },
        CompressionAlgorithm::Deflate { level: 10 },
    ] {
        assert!(!algorithm.is_valid());
        assert_eq!(
            compress_chunk(b"abc", &algorithm, 0).unwrap_err(),
            CompressionError::Configuration {
                message: "Codec parameter out of range".to_string()
            }
        );
    }
    for algorithm in [
        CompressionAlgorithm::Zstd { level: 1 },
        CompressionAlgorithm::Zstd { level: 22 },
        CompressionAlgorithm::Brotli { quality: 0 },
        CompressionAlgorithm::Brotli { quality: 11 },
        CompressionAlgorithm::Deflate { level: 0 },
        CompressionAlgorithm::Deflate { level: 9 },
    ] {
        assert!(algorithm.is_valid());
        let frame = compress_chunk(b"abcabcabc", &algorithm, 0).unwrap();
        assert_eq!(decompress_chunk(&frame, &algorithm).unwrap(), b"abcabcabc");
    }
}

#[test]
fn short_frame_is_refused() {
    for len in 0..12 {
        assert_eq!(
            decompress_chunk(&vec![0u8; len], &CompressionAlgorithm::Store).unwrap_err(),
            CompressionError::InvalidFormat { message: "Chunk too small".to_string() }
        );
    }
}

#[test]
fn payload_length_mismatch_is_refused() {
    let mut frame = compress_chunk(b"abc", &CompressionAlgorithm::Store, 0).unwrap();
    frame.push(0);
    assert_eq!(
        decompress_chunk(&frame, &CompressionAlgorithm::Store).unwrap_err(),
        CompressionError::InvalidFormat { message: "Compressed size mismatch".to_string() }
    );
    frame.pop();
    frame.pop();
    assert_eq!(
        decompress_chunk(&frame, &CompressionAlgorithm::Store).unwrap_err(),
        CompressionError::InvalidFormat { message: "Compressed size mismatch".to_string() }
    );
}

#[test]
fn wrong_checksum_is_an_integrity_violation() {
    let mut frame = compress_chunk(b"abc", &CompressionAlgorithm::Store, 0).unwrap();
    frame[8] ^= 1;
    assert_eq!(
        decompress_chunk(&frame, &CompressionAlgorithm::Store).unwrap_err(),
        CompressionError::IntegrityViolation { expected: 0x352441c3, actual: 0x352441c2 }
    );
}

#[test]
fn check_integrity_compares_the_two_checksums() {
    assert_eq!(check_integrity(vec![1, 2, 3], 5, 5).unwrap(), vec![1, 2, 3]);
    assert_eq!(
        check_integrity(vec![1, 2, 3], 5, 6).unwrap_err(),
        CompressionError::IntegrityViolation { expected: 5, actual: 6 }
    );
}

#[test]
fn codec_result_names_the_codec() {
    let algorithm = CompressionAlgorithm::Snappy;
    assert_eq!(codec_result(Ok(vec![1, 2]), &algorithm, Some(3)).unwrap(), vec![1, 2]);
    assert_eq!(
        codec_result(Err("corrupt input".to_string()), &algorithm, Some(3)).unwrap_err(),
        CompressionError::AlgorithmError {
            codec: "snappy".to_string(),
            message: "corrupt input".to_string(),
            chunk_id: Some(3),
        }
    );
    assert_eq!(
        codec_result(Err("x".to_string()), &CompressionAlgorithm::Brotli { quality: 1 }, None)
            .unwrap_err(),
        CompressionError::AlgorithmError {
            codec: "brotli".to_string(),
            message: "x".to_string(),
            chunk_id: None,
        }
    );
}

#[test]
fn garbage_payload_is_an_algorithm_error() {
    let garbage = [0xFFu8, 0xFE, 0xFD, 0xFC, 0xFB, 0xFA, 0xF9];
    for (algorithm, name) in [
        (CompressionAlgorithm::Zstd { level: 3 }, "zstd"),
        (CompressionAlgorithm::Lz4 { high_compression: false }, "lz4"),
        (CompressionAlgorithm::Snappy, "snappy"),
        (CompressionAlgorithm::Brotli { quality: 4 }, "brotli"),
        (CompressionAlgorithm::Deflate { level: 6 }, "deflate"),
    ] {
        let frame = frame_chunk(100, 0, &garbage).unwrap();
        match decompress_chunk(&frame, &algorithm).unwrap_err() {
            CompressionError::AlgorithmError { codec, message, chunk_id } => {
                assert_eq!(codec, name);
                assert!(!message.is_empty());
                assert_eq!(chunk_id, None);
            }
            other => panic!("unexpected error {:?}", other),
        }
    }
}

#[test]
fn stored_payload_detects_every_flipped_bit() {
    let input = text();
    let algorithm = CompressionAlgorithm::Store;
    let frame = compress_chunk(&input, &algorithm, 0).unwrap();
    for bit in 0..(frame.len() - 12) * 8 {
        let mut tampered = frame.clone();
        tampered[12 + bit / 8] ^= 1 << (bit % 8);
        assert!(matches!(
            decompress_chunk(&tampered, &algorithm),
            Err(CompressionError::IntegrityViolation { .. })
        ));
    }
}

#[test]
fn flipped_payload_bits_never_yield_other_bytes() {
    let input = text();
    for algorithm in all_codecs() {
        let frame = compress_chunk(&input, &algorithm, 0).unwrap();
        for bit in 0..(frame.len() - 12) * 8 {
            let mut tampered = frame.clone();
            tampered[12 + bit / 8] ^= 1 << (bit % 8);
            match decompress_chunk(&tampered, &algorithm) {
                // A codec may ignore the bit; then the plaintext is intact.
                Ok(plaintext) => assert_eq!(plaintext, input),
                Err(CompressionError::IntegrityViolation { .. }) => {}
                Err(CompressionError::AlgorithmError { .. }) => {}
                Err(other) => panic!("unexpected error {:?}", other),
            }
        }
    }
}

#[test]
fn deflate_ignores_a_padding_bit() {
    // The deflate stream of "a" ends in the middle of its second byte; the
    // bits behind it carry nothing, and the decoder does not read them.
    let algorithm = CompressionAlgorithm::Deflate { level: 6 };
    let frame = compress_chunk(b"a", &algorithm, 0).unwrap();
    assert_eq!(frame, vec![1, 0, 0, 0, 3, 0, 0, 0, 0x43, 0xbe, 0xb7, 0xe8, 75, 4, 0]);
    let mut tampered = frame.clone();
    tampered[14] ^= 1 << 2;
    assert_eq!(decompress_chunk(&tampered, &algorithm).unwrap(), b"a");
}

#[test]
fn codec_names() {
    assert_eq!(CompressionAlgorithm::Store.name(), "store");
    assert_eq!(CompressionAlgorithm::Zstd { level: 3 }.name(), "zstd");
    assert_eq!(CompressionAlgorithm::Lz4 { high_compression: true }.name(), "lz4");
    assert_eq!(CompressionAlgorithm::Snappy.name(), "snappy");
    assert_eq!(CompressionAlgorithm::Brotli { quality: 4 }.name(), "brotli");
    assert_eq!(CompressionAlgorithm::Deflate { level: 6 }.name(), "deflate");
}

#[test]
fn error_kinds() {
    let s = |t: &str| t.to_string();
    assert_eq!(CompressionError::FileRead { path: s("p"), message: s("m") }.kind(), "FileRead");
    assert_eq!(CompressionError::FileWrite { path: s("p"), message: s("m") }.kind(), "FileWrite");
    assert_eq!(
        CompressionError::AlgorithmError { codec: s("c"), message: s("m"), chunk_id: None }.kind(),
        "AlgorithmError"
    );
    assert_eq!(CompressionError::InvalidFormat { message: s("m") }.kind(), "InvalidFormat");
    assert_eq!(
        CompressionError::IntegrityViolation { expected: 1, actual: 2 }.kind(),
        "IntegrityViolation"
    );
    assert_eq!(CompressionError::Configuration { message: s("m") }.kind(), "Configuration");
    assert_eq!(CompressionError::MemoryLimit { requested: 2, limit: 1 }.kind(), "MemoryLimit");
    assert_eq!(
        CompressionError::FeatureUnavailable { feature: s("f") }.kind(),
        "FeatureUnavailable"
    );
}

#[test]
fn declared_sizes_beyond_the_limit_are_refused() {
    // A frame that records a plaintext of more than 64 MiB.
    let frame = frame_chunk((64 << 20) + 1, 0, &[1, 2, 3]).unwrap();
    for algorithm in all_codecs() {
        assert_eq!(
            decompress_chunk(&frame, &algorithm).unwrap_err(),
            CompressionError::InvalidFormat {
                message: "Chunk size exceeds the limit".to_string()
            }
        );
    }
    // An LZ4 payload whose size prefix declares 4 GiB less one byte.
    let frame = frame_chunk(10, 0, &[0xFF, 0xFF, 0xFF, 0xFF, 0x00]).unwrap();
    assert_eq!(
        decompress_chunk(&frame, &CompressionAlgorithm::Lz4 { high_compression: false })
            .unwrap_err(),
        CompressionError::AlgorithmError {
            codec: "lz4".to_string(),
            message: "Declared size exceeds the chunk limit".to_string(),
            chunk_id: None,
        }
    );
    // A Snappy payload whose header declares 2^31 bytes.
    let frame = frame_chunk(10, 0, &[0x80, 0x80, 0x80, 0x80, 0x08, 0x00]).unwrap();
    assert_eq!(
        decompress_chunk(&frame, &CompressionAlgorithm::Snappy).unwrap_err(),
        CompressionError::AlgorithmError {
            codec: "snappy".to_string(),
            message: "Declared size exceeds the chunk limit".to_string(),
            chunk_id: None,
        }
    );
}

#[test]
fn plaintext_beyond_the_limit_is_refused() {
    let data = vec![0u8; (64 << 20) + 1];
    for algorithm in [CompressionAlgorithm::Store, CompressionAlgorithm::Zstd { level: 1 }] {
        assert_eq!(
            compress_chunk(&data, &algorithm, 0).unwrap_err(),
            CompressionError::MemoryLimit { requested: (64 << 20) + 1, limit: 64 << 20 }
        );
    }
}
