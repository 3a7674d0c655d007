use catzou::chunk::Chunk;
use catzou::decode::decode;
use catzou::repair::crc_is_correct;
use catzou::repair::repair_container;
use catzou::RepairError;

fn sig() -> Vec<u8> {
    vec![0x89, 0x50, 0x4E, 0x47, 0x0D, 0x0A, 0x1A, 0x0A]
}

fn block(kind: &[u8; 4], payload: &[u8], crc: &[u8; 4]) -> Vec<u8> {
    let mut out = Vec::new();
    out.extend_from_slice(&(payload.len() as u32).to_be_bytes());
    out.extend_from_slice(kind);
    out.extend_from_slice(payload);
    out.extend_from_slice(crc);
    out
}

fn crc_of(kind: &[u8; 4], payload: &[u8]) -> [u8; 4] {
    let mut all = kind.to_vec();
    all.extend_from_slice(payload);
    crc32fast::hash(&all).to_be_bytes()
}

/// A zlib stream for `decompressed` whose embedded rolling checksum has
/// been zeroed, as if the payload had been edited without updating it.
fn stale_zlib(decompressed: &[u8]) -> Vec<u8> {
    let mut payload = miniz_oxide::deflate::compress_to_vec_zlib(decompressed, 6);
    let n = payload.len();
    payload[n - 4..].copy_from_slice(&[0, 0, 0, 0]);
    payload
}

#[test]
fn scenario_minimal_container() {
    let text = b"hello world";
    let stale = stale_zlib(text);
    let n = stale.len();

    let mut input = sig();
    input.extend(block(b"IDAT", &stale, &[0, 0, 0, 0]));
    input.extend(block(b"IEND", &[], &[1, 2, 3, 4]));

    let out = repair_container(&input).unwrap();

    let mut fixed = stale.clone();
    fixed[n - 4..].copy_from_slice(&adler::adler32_slice(text).to_be_bytes());
    let mut expected = sig();
    expected.extend(block(b"IDAT", &fixed, &crc_of(b"IDAT", &fixed)));
    expected.extend(block(b"IEND", &[], &crc_of(b"IEND", &[])));

    assert_eq!(out, expected);
}

#[test]
fn repair_is_idempotent() {
    let stale = stale_zlib(b"pixels pixels pixels");
    let mut input = sig();
    input.extend(block(b"IDAT", &stale, &[9, 9, 9, 9]));
    input.extend(block(b"IEND", &[], &[0, 0, 0, 0]));

    let first = repair_container(&input).unwrap();
    let second = repair_container(&first).unwrap();
    assert_eq!(second, first);
}

#[test]
fn second_run_finds_no_mismatch() {
    let stale = stale_zlib(b"some image rows");
    let mut input = sig();
    input.extend(block(b"IDAT", &stale, &[0, 0, 0, 0]));
    let out = repair_container(&input).unwrap();
    for c in decode(&out).unwrap() {
        assert!(crc_is_correct(&c));
    }
}

#[test]
fn output_payload_inflates_with_checksum_verified() {
    let text = b"rows of image data";
    let stale = stale_zlib(text);
    let mut input = sig();
    input.extend(block(b"IDAT", &stale, &[0, 0, 0, 0]));
    let out = repair_container(&input).unwrap();

    let chunks = decode(&out).unwrap();
    assert_eq!(chunks.len(), 1);
    // The strict decoder validates the embedded rolling checksum, so this
    // succeeds only because the repair wrote the correct value.
    let inflated = miniz_oxide::inflate::decompress_to_vec_zlib(&chunks[0].data).unwrap();
    assert_eq!(inflated, text);
    let n = chunks[0].data.len();
    assert_eq!(
        chunks[0].data[n - 4..],
        adler::adler32_slice(text).to_be_bytes()
    );
}

#[test]
fn non_image_blocks_pass_through_with_crc_fixed() {
    let mut input = sig();
    input.extend(block(b"tEXt", b"comment", &[0xBA, 0xAD, 0xBA, 0xAD]));
    let out = repair_container(&input).unwrap();

    let mut expected = sig();
    expected.extend(block(b"tEXt", b"comment", &crc_of(b"tEXt", b"comment")));
    assert_eq!(out, expected);
}

#[test]
fn correct_input_is_unchanged() {
    let text = b"already fine";
    let payload = miniz_oxide::deflate::compress_to_vec_zlib(text, 6);
    // keep the correct rolling checksum that the compressor wrote
    let mut input = sig();
    input.extend(block(b"IDAT", &payload, &crc_of(b"IDAT", &payload)));
    input.extend(block(b"IEND", &[], &crc_of(b"IEND", &[])));
    let out = repair_container(&input).unwrap();
    assert_eq!(out, input);
}

#[test]
fn canonical_signature_replaces_input_signature() {
    let mut input = vec![0xFF; 8];
    input.extend(block(b"IEND", &[], &[0, 0, 0, 0]));
    let out = repair_container(&input).unwrap();
    assert_eq!(&out[..8], &sig()[..]);
}

#[test]
fn empty_container_keeps_only_signature() {
    let out = repair_container(&sig()).unwrap();
    assert_eq!(out, sig());
}

#[test]
fn truncated_payload_is_fatal() {
    let mut input = sig();
    input.extend_from_slice(&10u32.to_be_bytes());
    input.extend_from_slice(b"IDAT");
    input.extend_from_slice(&[1, 2, 3]);
    assert_eq!(
        repair_container(&input),
        Err(RepairError::TruncatedBlock)
    );
}

#[test]
fn truncated_length_field_is_fatal() {
    let mut input = sig();
    input.extend(block(b"IEND", &[], &[0, 0, 0, 0]));
    input.extend_from_slice(&[0, 0]);
    assert_eq!(
        repair_container(&input),
        Err(RepairError::TruncatedBlock)
    );
}

#[test]
fn input_shorter_than_signature_is_fatal() {
    let input = vec![0x89, 0x50];
    assert_eq!(
        repair_container(&input),
        Err(RepairError::TruncatedBlock)
    );
}

#[test]
fn malformed_compressed_payload_is_fatal() {
    let mut input = sig();
    input.extend(block(b"IDAT", b"notzlib!", &[0, 0, 0, 0]));
    assert_eq!(
        repair_container(&input),
        Err(RepairError::Decompression)
    );
}

#[test]
fn image_payload_too_short_for_trailer_is_fatal() {
    let mut input = sig();
    input.extend(block(b"IDAT", &[0x78], &[0, 0, 0, 0]));
    assert_eq!(
        repair_container(&input),
        Err(RepairError::Decompression)
    );
}

#[test]
fn declared_length_matches_payload_length() {
    let stale = stale_zlib(b"abc");
    let mut input = sig();
    input.extend(block(b"IDAT", &stale, &[0, 0, 0, 0]));
    input.extend(block(b"IEND", &[], &[0, 0, 0, 0]));
    let out = repair_container(&input).unwrap();

    let mut pos = 8;
    while pos < out.len() {
        let len =
            u32::from_be_bytes([out[pos], out[pos + 1], out[pos + 2], out[pos + 3]]) as usize;
        assert!(pos + 12 + len <= out.len());
        pos += 12 + len;
    }
    assert_eq!(pos, out.len());
}

#[test]
fn known_checksum_values() {
    let mut input = sig();
    input.extend(block(b"IEND", &[], &[0, 0, 0, 0]));
    let out = repair_container(&input).unwrap();
    // The well-known CRC-32 of an empty end-marker block.
    assert_eq!(&out[out.len() - 4..], &0xAE426082u32.to_be_bytes());

    let stale = stale_zlib(b"hello world");
    let mut input2 = sig();
    input2.extend(block(b"IDAT", &stale, &[0, 0, 0, 0]));
    let out2 = repair_container(&input2).unwrap();
    let chunks = decode(&out2).unwrap();
    let n = chunks[0].data.len();
    // The well-known Adler-32 of "hello world".
    assert_eq!(&chunks[0].data[n - 4..], &0x1A0B045Du32.to_be_bytes());
}

#[test]
fn chunk_kind_helpers() {
    let c = Chunk {
        kind: b"IDAT".to_vec(),
        data: Vec::new(),
        crc: vec![0, 0, 0, 0],
    };
    assert!(c.is_idat());
    assert_eq!(c.kind_to_string(), "IDAT");

    let c2 = Chunk {
        kind: b"IEND".to_vec(),
        data: Vec::new(),
        crc: vec![0, 0, 0, 0],
    };
    assert!(!c2.is_idat());
    assert_eq!(c2.kind_to_string(), "IEND");

    let c3 = Chunk {
        kind: vec![0x49, 0x44, 0xFF, 0x54],
        data: Vec::new(),
        crc: vec![0, 0, 0, 0],
    };
    assert!(!c3.is_idat());
    assert_eq!(c3.kind_to_string(), "ID\u{FFFD}T");
}
