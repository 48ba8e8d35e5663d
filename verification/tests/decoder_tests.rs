use tskv_wal::decoder::WalDecoder;
use tskv_wal::WalError;

#[test]
fn test_decoder_round_trip() {
    let raw = b"some point payload bytes, compressed and undone".to_vec();
    let compressed = zstd::stream::encode_all(&raw[..], 0).unwrap();
    assert_ne!(compressed, raw);
    let mut dec = WalDecoder::new();
    let out = dec.decode(&compressed).unwrap().unwrap();
    assert_eq!(out, raw);
}

#[test]
fn test_decoder_empty_payload() {
    let mut dec = WalDecoder::new();
    assert_eq!(dec.decode(&[]), Ok(None));
}

#[test]
fn test_decoder_rejects_malformed_frame() {
    let mut dec = WalDecoder::new();
    assert_eq!(dec.decode(b"not a zstd frame"), Err(WalError::Decode));
}
