use tuff_core::hex::{hex_char, hex_lower_bytes, hex_upper_bytes};
use tuff_core::mk_fingerprint::{
    sha256_hex, verify_or_store_mk_fingerprint, FingerprintStatus, FingerprintStore,
};

const KEY_ONE_FP: &[u8] = b"ae216c2ef5247a3782c135efa279a3e4cdc61094270f5d2be58c6204b7a612c9";

fn key_one() -> Vec<u8> {
    (1u8..=32).collect()
}

#[test]
fn fingerprint_matches_known_vector() {
    let fp = sha256_hex(&key_one());
    assert_eq!(fp.as_slice(), KEY_ONE_FP);
    assert_eq!(fp.len(), 64);
    assert!(fp.iter().all(|b| b.is_ascii_digit() || (b'a'..=b'f').contains(b)));
}

#[test]
fn trust_on_first_use_stores_then_matches() {
    let key = key_one();
    let mut store = FingerprintStore::absent();
    assert!(matches!(
        verify_or_store_mk_fingerprint(&key, &mut store),
        FingerprintStatus::Stored
    ));
    assert_eq!(store.contents().as_deref(), Some(KEY_ONE_FP));
    assert!(matches!(
        verify_or_store_mk_fingerprint(&key, &mut store),
        FingerprintStatus::Matched
    ));
    assert_eq!(store.contents().as_deref(), Some(KEY_ONE_FP));
}

#[test]
fn mismatch_never_rewrites_the_fingerprint() {
    let mut store = FingerprintStore::absent();
    verify_or_store_mk_fingerprint(&key_one(), &mut store);
    let wrong = [0xFFu8; 32];
    assert!(matches!(
        verify_or_store_mk_fingerprint(&wrong, &mut store),
        FingerprintStatus::Mismatch
    ));
    assert_eq!(store.contents().as_deref(), Some(KEY_ONE_FP));
    // and the mismatch repeats on every retry
    assert!(matches!(
        verify_or_store_mk_fingerprint(&wrong, &mut store),
        FingerprintStatus::Mismatch
    ));
}

#[test]
fn stored_fingerprint_is_compared_after_trimming() {
    let mut padded = Vec::new();
    padded.extend_from_slice(b"  ");
    padded.extend_from_slice(KEY_ONE_FP);
    padded.extend_from_slice(b"\n");
    let mut store = FingerprintStore::restore(Some(padded.clone()));
    assert!(matches!(
        verify_or_store_mk_fingerprint(&key_one(), &mut store),
        FingerprintStatus::Matched
    ));
    // the file keeps its original bytes, whitespace and all
    assert_eq!(store.contents().as_deref(), Some(padded.as_slice()));
}

#[test]
fn hex_char_renders_each_nibble() {
    assert_eq!(hex_char(0), '0');
    assert_eq!(hex_char(9), '9');
    assert_eq!(hex_char(10), 'a');
    assert_eq!(hex_char(15), 'f');
    assert_eq!(hex_char(16), '?');
}

#[test]
fn hex_encodings_render_bytes() {
    assert_eq!(hex_lower_bytes(&[0x00, 0xff, 0x1a]).as_slice(), b"00ff1a");
    assert_eq!(hex_upper_bytes(&[0x00, 0xff, 0x1a]).as_slice(), b"00FF1A");
    assert_eq!(hex_lower_bytes(&[]).len(), 0);
}
