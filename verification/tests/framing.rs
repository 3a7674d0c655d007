use catzou::bytes::read_be32;
use catzou::bytes::write_be32;
use catzou::chunk::Chunk;
use catzou::decode::decode;
use catzou::encode::encode;
use catzou::RepairError;

fn sig() -> Vec<u8> {
    vec![0x89, 0x50, 0x4E, 0x47, 0x0D, 0x0A, 0x1A, 0x0A]
}

#[test]
fn be32_round_trip() {
    assert_eq!(write_be32(0x01020304), vec![1, 2, 3, 4]);
    assert_eq!(read_be32(0xDE, 0xAD, 0xBE, 0xEF), 0xDEADBEEF);
    assert_eq!(read_be32(0, 0, 0, 0), 0);
    assert_eq!(write_be32(u32::MAX), vec![0xFF, 0xFF, 0xFF, 0xFF]);
}

#[test]
fn decode_reads_fields_in_order() {
    let mut input = sig();
    input.extend_from_slice(&3u32.to_be_bytes());
    input.extend_from_slice(b"abcd");
    input.extend_from_slice(&[7, 8, 9]);
    input.extend_from_slice(&[0xAA, 0xBB, 0xCC, 0xDD]);

    let chunks = decode(&input).unwrap();
    assert_eq!(chunks.len(), 1);
    assert_eq!(chunks[0].kind, b"abcd");
    assert_eq!(chunks[0].data, vec![7, 8, 9]);
    assert_eq!(chunks[0].crc, vec![0xAA, 0xBB, 0xCC, 0xDD]);
}

#[test]
fn decode_keeps_block_order() {
    let mut input = sig();
    for k in 0u8..4 {
        input.extend_from_slice(&1u32.to_be_bytes());
        input.extend_from_slice(&[b'k', b'i', b'n', k]);
        input.extend_from_slice(&[k]);
        input.extend_from_slice(&[0, 0, 0, k]);
    }
    let chunks = decode(&input).unwrap();
    assert_eq!(chunks.len(), 4);
    for (k, c) in chunks.iter().enumerate() {
        assert_eq!(c.kind[3], k as u8);
        assert_eq!(c.data, vec![k as u8]);
    }
}

#[test]
fn decode_rejects_missing_checksum_field() {
    let mut input = sig();
    input.extend_from_slice(&0u32.to_be_bytes());
    input.extend_from_slice(b"IEND");
    input.extend_from_slice(&[0, 0]);
    assert!(matches!(decode(&input), Err(RepairError::TruncatedBlock)));
}

#[test]
fn encode_then_decode_reproduces_blocks() {
    let chunks = vec![
        Chunk {
            kind: b"IHDR".to_vec(),
            data: vec![1, 2, 3, 4, 5],
            crc: vec![9, 9, 9, 9],
        },
        Chunk {
            kind: b"IEND".to_vec(),
            data: Vec::new(),
            crc: vec![0, 1, 2, 3],
        },
    ];
    let bytes = encode(&chunks);
    assert_eq!(&bytes[..8], &sig()[..]);
    let back = decode(&bytes).unwrap();
    assert_eq!(back.len(), 2);
    assert_eq!(back[0].kind, chunks[0].kind);
    assert_eq!(back[0].data, chunks[0].data);
    assert_eq!(back[0].crc, chunks[0].crc);
    assert_eq!(back[1].kind, chunks[1].kind);
    assert_eq!(back[1].data, chunks[1].data);
    assert_eq!(back[1].crc, chunks[1].crc);
}

#[test]
fn encode_recomputes_length_field() {
    let chunks = vec![Chunk {
        kind: b"tEXt".to_vec(),
        data: vec![0; 300],
        crc: vec![0, 0, 0, 0],
    }];
    let bytes = encode(&chunks);
    assert_eq!(&bytes[8..12], &300u32.to_be_bytes());
}
