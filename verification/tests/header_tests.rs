use annil_server::error::ProviderError;
use annil_server::header::{
    duration_from_header, parse_flac_header, SplicedPrefix, FLAC_HEADER_LEN,
};

/// A 42-byte header whose stream-info block encodes the given sample rate
/// (20 bits) and total sample count (36 bits); the other fields are zero.
fn synthetic_header(sample_rate: u32, total_samples: u64) -> Vec<u8> {
    let mut h = vec![0u8; FLAC_HEADER_LEN];
    h[0..4].copy_from_slice(b"fLaC");
    // 4-byte block-header word: last metadata block, type 0, length 34.
    h[4..8].copy_from_slice(&[0x80, 0x00, 0x00, 0x22]);
    // Stream info starts at offset 8; sample rate sits in bytes 10..13.
    h[18] = (sample_rate >> 12) as u8;
    h[19] = (sample_rate >> 4) as u8;
    h[20] = ((sample_rate & 0x0F) as u8) << 4;
    // Total samples: 36 bits ending at byte 17 of the block.
    h[21] = ((total_samples >> 32) & 0x0F) as u8;
    h[22] = (total_samples >> 24) as u8;
    h[23] = (total_samples >> 16) as u8;
    h[24] = (total_samples >> 8) as u8;
    h[25] = total_samples as u8;
    h
}

#[test]
fn decodes_sample_rate_and_total_samples() {
    let h = synthetic_header(44100, 441000);
    let info = parse_flac_header(&h).unwrap();
    assert_eq!(info.sample_rate, 44100);
    assert_eq!(info.total_samples, 441000);
}

#[test]
fn duration_is_truncating_division() {
    let h = synthetic_header(44100, 441000);
    assert_eq!(duration_from_header(&h), Ok(10));
    let h = synthetic_header(48000, 48001);
    assert_eq!(duration_from_header(&h), Ok(1));
    let h = synthetic_header(48000, 47999);
    assert_eq!(duration_from_header(&h), Ok(0));
}

#[test]
fn truncated_header_is_corrupt() {
    let h = synthetic_header(44100, 441000);
    assert_eq!(duration_from_header(&h[..41]), Err(ProviderError::Corrupt));
    assert_eq!(duration_from_header(&[]), Err(ProviderError::Corrupt));
    assert!(parse_flac_header(&h[..10]).is_err());
}

#[test]
fn zero_sample_rate_is_corrupt() {
    let h = synthetic_header(0, 441000);
    assert_eq!(duration_from_header(&h), Err(ProviderError::Corrupt));
}

#[test]
fn extra_bytes_after_header_are_ignored_by_the_parser() {
    let mut h = synthetic_header(96000, 960000);
    h.extend_from_slice(&[1, 2, 3, 4, 5]);
    assert_eq!(duration_from_header(&h), Ok(10));
}

#[test]
fn spliced_stream_reproduces_header_and_payload_exactly() {
    let header = synthetic_header(44100, 441000);
    assert_eq!(duration_from_header(&header), Ok(10));
    let payload: Vec<u8> = (0u16..500).map(|i| (i % 251) as u8).collect();

    let mut splice = SplicedPrefix::new(header.clone());
    let mut replayed = Vec::new();
    while !splice.exhausted() {
        let chunk = splice.next(7);
        assert!(!chunk.is_empty());
        replayed.extend_from_slice(&chunk);
    }
    replayed.extend_from_slice(&payload);

    let mut original = header.clone();
    original.extend_from_slice(&payload);
    assert_eq!(replayed, original);
}

#[test]
fn splice_hands_out_each_byte_once_and_in_order() {
    let data = vec![10u8, 20, 30, 40, 50];
    let mut splice = SplicedPrefix::new(data.clone());
    assert_eq!(splice.next(2), vec![10, 20]);
    assert_eq!(splice.next(0), Vec::<u8>::new());
    assert_eq!(splice.next(100), vec![30, 40, 50]);
    assert!(splice.exhausted());
    assert_eq!(splice.next(4), Vec::<u8>::new());
}
