use encs::bytes::{push_le32, push_range, read_le32};
use encs::container::{
    check_chunks_fit, compress_chunks, decompress_container, read_compressed_chunk, read_header,
    write_chunks, write_header, FileHeader,
};
use encs::{CompressionAlgorithm, CompressionError};

fn invalid(message: &str) -> CompressionError {
    CompressionError::InvalidFormat { message: message.to_string() }
}

#[test]
fn little_endian_bytes() {
    let mut out = vec![0xAA];
    push_le32(&mut out, 0x12345678);
    push_le32(&mut out, 0);
    push_le32(&mut out, u32::MAX);
    push_le32(&mut out, 256);
    assert_eq!(
        out,
        vec![0xAA, 0x78, 0x56, 0x34, 0x12, 0, 0, 0, 0, 255, 255, 255, 255, 0, 1, 0, 0]
    );
    assert_eq!(read_le32(&out, 1), 0x12345678);
    assert_eq!(read_le32(&out, 5), 0);
    assert_eq!(read_le32(&out, 9), u32::MAX);
    assert_eq!(read_le32(&out, 13), 256);
    for x in [0u32, 1, 255, 256, 65_535, 65_536, 0x00FF_FFFF, 0x0100_0000, 0x8000_0000, u32::MAX] {
        let mut bytes = Vec::new();
        push_le32(&mut bytes, x);
        assert_eq!(bytes, x.to_le_bytes());
        assert_eq!(read_le32(&bytes, 0), x);
    }
}

#[test]
fn push_range_appends_a_slice() {
    let mut out = vec![1, 2];
    push_range(&mut out, &[10, 11, 12, 13], 1, 3);
    assert_eq!(out, vec![1, 2, 11, 12]);
    push_range(&mut out, &[10, 11, 12, 13], 2, 2);
    assert_eq!(out, vec![1, 2, 11, 12]);
}

fn encoded(algorithm: CompressionAlgorithm) -> Vec<u8> {
    let mut out = Vec::new();
    algorithm.encode(&mut out);
    out
}

#[test]
fn descriptors_have_exact_bytes() {
    assert_eq!(encoded(CompressionAlgorithm::Store), vec![0, 0, 0, 0]);
    assert_eq!(
        encoded(CompressionAlgorithm::Zstd { level: 3 }),
        vec![1, 0, 0, 0, 3, 0, 0, 0]
    );
    assert_eq!(
        encoded(CompressionAlgorithm::Zstd { level: -1 }),
        vec![1, 0, 0, 0, 255, 255, 255, 255]
    );
    assert_eq!(
        encoded(CompressionAlgorithm::Zstd { level: i32::MIN }),
        vec![1, 0, 0, 0, 0, 0, 0, 0x80]
    );
    assert_eq!(
        encoded(CompressionAlgorithm::Lz4 { high_compression: false }),
        vec![2, 0, 0, 0, 0]
    );
    assert_eq!(
        encoded(CompressionAlgorithm::Lz4 { high_compression: true }),
        vec![2, 0, 0, 0, 1]
    );
    assert_eq!(encoded(CompressionAlgorithm::Snappy), vec![3, 0, 0, 0]);
    assert_eq!(
        encoded(CompressionAlgorithm::Brotli { quality: 11 }),
        vec![4, 0, 0, 0, 11, 0, 0, 0]
    );
    assert_eq!(
        encoded(CompressionAlgorithm::Deflate { level: 0x01020304 }),
        vec![5, 0, 0, 0, 4, 3, 2, 1]
    );
}

#[test]
fn descriptors_follow_the_fixed_width_little_endian_layout_of_bincode() {
    assert_eq!(encoded(CompressionAlgorithm::Store), bincode::serialize(&0u32).unwrap());
    assert_eq!(
        encoded(CompressionAlgorithm::Zstd { level: -7 }),
        bincode::serialize(&(1u32, -7i32)).unwrap()
    );
    assert_eq!(
        encoded(CompressionAlgorithm::Lz4 { high_compression: true }),
        bincode::serialize(&(2u32, true)).unwrap()
    );
    assert_eq!(encoded(CompressionAlgorithm::Snappy), bincode::serialize(&3u32).unwrap());
    assert_eq!(
        encoded(CompressionAlgorithm::Brotli { quality: 9 }),
        bincode::serialize(&(4u32, 9u32)).unwrap()
    );
    assert_eq!(
        encoded(CompressionAlgorithm::Deflate { level: 6 }),
        bincode::serialize(&(5u32, 6u32)).unwrap()
    );
}

#[test]
fn descriptors_decode_to_what_was_encoded() {
    for algorithm in [
        CompressionAlgorithm::Store,
        CompressionAlgorithm::Zstd { level: 3 },
        CompressionAlgorithm::Zstd { level: -5 },
        CompressionAlgorithm::Zstd { level: i32::MAX },
        CompressionAlgorithm::Zstd { level: i32::MIN },
        CompressionAlgorithm::Lz4 { high_compression: false },
        CompressionAlgorithm::Lz4 { high_compression: true },
        CompressionAlgorithm::Snappy,
        CompressionAlgorithm::Brotli { quality: 0 },
        CompressionAlgorithm::Brotli { quality: u32::MAX },
        CompressionAlgorithm::Deflate { level: 6 },
    ] {
        let mut bytes = encoded(algorithm);
        assert_eq!(CompressionAlgorithm::decode(&bytes), Some(algorithm));
        // Bytes behind the descriptor are not looked at.
        bytes.extend_from_slice(&[9, 9, 9]);
        assert_eq!(CompressionAlgorithm::decode(&bytes), Some(algorithm));
    }
}

#[test]
fn malformed_descriptors_are_refused() {
    assert_eq!(CompressionAlgorithm::decode(&[]), None);
    assert_eq!(CompressionAlgorithm::decode(&[0, 0, 0]), None);
    assert_eq!(CompressionAlgorithm::decode(&[6, 0, 0, 0]), None);
    assert_eq!(CompressionAlgorithm::decode(&[0, 1, 0, 0]), None);
    assert_eq!(CompressionAlgorithm::decode(&[1, 0, 0, 0, 3, 0, 0]), None);
    assert_eq!(CompressionAlgorithm::decode(&[2, 0, 0, 0]), None);
    assert_eq!(CompressionAlgorithm::decode(&[2, 0, 0, 0, 2]), None);
    assert_eq!(CompressionAlgorithm::decode(&[4, 0, 0, 0]), None);
    assert_eq!(CompressionAlgorithm::decode(&[5, 0, 0, 0, 1]), None);
}

#[test]
fn header_has_exact_bytes() {
    let mut out = vec![7];
    write_header(&mut out, &CompressionAlgorithm::Zstd { level: 3 });
    assert_eq!(
        out,
        vec![7, b'E', b'N', b'C', b'S', 5, 0, 0, 0, 8, 0, 0, 0, 1, 0, 0, 0, 3, 0, 0, 0]
    );
    assert_eq!(
        read_header(&out[1..]).unwrap(),
        (FileHeader { version: 5, algorithm: CompressionAlgorithm::Zstd { level: 3 } }, 20)
    );
    let mut out = Vec::new();
    write_header(&mut out, &CompressionAlgorithm::Lz4 { high_compression: true });
    assert_eq!(out, vec![b'E', b'N', b'C', b'S', 5, 0, 0, 0, 5, 0, 0, 0, 2, 0, 0, 0, 1]);
    assert_eq!(
        read_header(&out).unwrap(),
        (
            FileHeader {
                version: 5,
                algorithm: CompressionAlgorithm::Lz4 { high_compression: true }
            },
            17
        )
    );
}

#[test]
fn header_faults_have_their_diagnostics() {
    let mut good = Vec::new();
    write_header(&mut good, &CompressionAlgorithm::Zstd { level: 3 });
    for len in 0..good.len() {
        assert_eq!(
            read_header(&good[..len]).unwrap_err(),
            invalid("Unexpected end of input"),
            "prefix of {} bytes",
            len
        );
    }
    let mut bad = good.clone();
    bad[0] = b'e';
    assert_eq!(read_header(&bad).unwrap_err(), invalid("Invalid magic bytes"));
    assert_eq!(read_header(b"XXXX").unwrap_err(), invalid("Invalid magic bytes"));
    for version in [0u8, 1, 4, 6, 255] {
        let mut bad = good.clone();
        bad[4] = version;
        assert_eq!(read_header(&bad).unwrap_err(), invalid("Unsupported version"));
    }
    let mut bad = good.clone();
    bad[5] = 1;
    assert_eq!(read_header(&bad).unwrap_err(), invalid("Unsupported version"));
    let mut bad = good.clone();
    bad[12] = 6;
    assert_eq!(read_header(&bad).unwrap_err(), invalid("Invalid codec descriptor"));
    // A descriptor length that cuts the descriptor short.
    let mut bad = good.clone();
    bad[8] = 7;
    assert_eq!(read_header(&bad).unwrap_err(), invalid("Invalid codec descriptor"));
    // A descriptor length beyond the input.
    let mut bad = good.clone();
    bad[8] = 9;
    assert_eq!(read_header(&bad).unwrap_err(), invalid("Unexpected end of input"));
    // A longer descriptor field is read in full and its tail ignored.
    let mut long = good.clone();
    long[8] = 10;
    long.extend_from_slice(&[0xEE, 0xEE]);
    assert_eq!(
        read_header(&long).unwrap(),
        (FileHeader { version: 5, algorithm: CompressionAlgorithm::Zstd { level: 3 } }, 22)
    );
}

#[test]
fn chunk_section_has_exact_bytes() {
    let mut out = vec![1];
    let total = write_chunks(&mut out, &vec![vec![10, 11], vec![], vec![12]]).unwrap();
    assert_eq!(
        out,
        vec![1, 3, 0, 0, 0, 2, 0, 0, 0, 10, 11, 0, 0, 0, 0, 1, 0, 0, 0, 12]
    );
    assert_eq!(total, 19);
    assert_eq!(read_compressed_chunk(&out, 5).unwrap(), (vec![10, 11], 11));
    assert_eq!(read_compressed_chunk(&out, 11).unwrap(), (vec![], 15));
    assert_eq!(read_compressed_chunk(&out, 15).unwrap(), (vec![12], 20));
    let mut out = Vec::new();
    assert_eq!(write_chunks(&mut out, &Vec::new()).unwrap(), 4);
    assert_eq!(out, vec![0, 0, 0, 0]);
    assert!(check_chunks_fit(&vec![vec![0u8; 10], vec![]]));
}

#[test]
fn truncated_chunks_are_refused() {
    let input = [3u8, 0, 0, 0, 1, 2, 3];
    assert_eq!(read_compressed_chunk(&input, 0).unwrap(), (vec![1, 2, 3], 7));
    assert_eq!(
        read_compressed_chunk(&input[..6], 0).unwrap_err(),
        invalid("Unexpected end of input")
    );
    assert_eq!(
        read_compressed_chunk(&input[..3], 0).unwrap_err(),
        invalid("Unexpected end of input")
    );
    assert_eq!(read_compressed_chunk(&input, 4).unwrap_err(), invalid("Unexpected end of input"));
    assert_eq!(read_compressed_chunk(&input, 7).unwrap_err(), invalid("Unexpected end of input"));
    assert_eq!(
        read_compressed_chunk(&input, usize::MAX).unwrap_err(),
        invalid("Unexpected end of input")
    );
    assert_eq!(read_compressed_chunk(&[], 0).unwrap_err(), invalid("Unexpected end of input"));
}

#[test]
fn truncated_containers_are_refused() {
    let chunks = compress_chunks(b"abcdef", 4, &CompressionAlgorithm::Store).unwrap();
    assert_eq!(chunks.len(), 2);
    let mut container = Vec::new();
    write_header(&mut container, &CompressionAlgorithm::Store);
    write_chunks(&mut container, &chunks).unwrap();
    assert_eq!(decompress_container(&container).unwrap(), b"abcdef");
    for len in 0..container.len() {
        assert_eq!(
            decompress_container(&container[..len]).unwrap_err(),
            invalid("Unexpected end of input"),
            "prefix of {} bytes",
            len
        );
    }
    // Bytes behind the last chunk are not looked at.
    let mut longer = container.clone();
    longer.extend_from_slice(b"trailing");
    assert_eq!(decompress_container(&longer).unwrap(), b"abcdef");
    // A chunk count beyond the chunks that are there.
    let mut more = container.clone();
    more[16] = 3;
    assert_eq!(decompress_container(&more).unwrap_err(), invalid("Unexpected end of input"));
    // A chunk count below: the plaintext of the first chunks.
    let mut fewer = container.clone();
    fewer[16] = 1;
    assert_eq!(decompress_container(&fewer).unwrap(), b"abcd");
    // A framed length that is too short for a frame.
    let mut short = container.clone();
    short[20] = 11;
    assert_eq!(decompress_container(&short).unwrap_err(), invalid("Chunk too small"));
}

#[test]
fn chunks_are_cut_in_input_order() {
    let data: Vec<u8> = (0..=255).collect();
    let chunks = compress_chunks(&data, 100, &CompressionAlgorithm::Store).unwrap();
    assert_eq!(chunks.len(), 3);
    assert_eq!(&chunks[0][12..], &data[..100]);
    assert_eq!(&chunks[1][12..], &data[100..200]);
    assert_eq!(&chunks[2][12..], &data[200..]);
    assert_eq!(compress_chunks(&[], 100, &CompressionAlgorithm::Store).unwrap().len(), 0);
    assert_eq!(compress_chunks(&data, 256, &CompressionAlgorithm::Store).unwrap().len(), 1);
    assert_eq!(compress_chunks(&data, 255, &CompressionAlgorithm::Store).unwrap().len(), 2);
    // The first fault ends the work and carries the chunk's number.
    let big = vec![0u8; 10];
    assert_eq!(
        compress_chunks(&big, 4, &CompressionAlgorithm::Deflate { level: 10 }).unwrap_err(),
        CompressionError::Configuration { message: "Codec parameter out of range".to_string() }
    );
}
