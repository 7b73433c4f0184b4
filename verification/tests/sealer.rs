use chacha20poly1305::aead::{Aead, KeyInit};
use fgtw_fleet::sealer::RdSealer;

#[test]
fn sealer_round_trips_and_rejects_wrong_key() {
    let key = [7u8; 32];
    let sealed = RdSealer.seal(b"fleet state bytes", &key).unwrap();
    assert_eq!(sealed.len(), 24 + 17 + 16);
    assert_eq!(RdSealer.open(&sealed, &key).unwrap(), b"fleet state bytes");
    assert!(RdSealer.open(&sealed, &[8u8; 32]).is_err());
    assert!(RdSealer.open(&sealed[..20], &key).is_err());
}

#[test]
fn older_form_still_opens() {
    let key = [7u8; 32];
    let nonce = [5u8; 12];
    let ct = chacha20poly1305::ChaCha20Poly1305::new((&key).into()).encrypt(&nonce.into(), &b"old bytes"[..]).unwrap();
    let mut sealed = nonce.to_vec();
    sealed.extend_from_slice(&ct);
    assert_eq!(RdSealer.open(&sealed, &key).unwrap(), b"old bytes");
}

#[test]
fn sealed_form_is_nonce_then_ciphertext() {
    let key = [9u8; 32];
    let nonce = [1u8; 24];
    let sealed = RdSealer.seal_with(b"state", &key, &nonce).unwrap();
    let ct = chacha20poly1305::XChaCha20Poly1305::new((&key).into()).encrypt(&nonce.into(), &b"state"[..]).unwrap();
    assert_eq!(&sealed[..24], &nonce);
    assert_eq!(&sealed[24..], &ct[..]);
    // Two seals of one text differ.
    assert_ne!(RdSealer.seal(b"state", &key).unwrap(), RdSealer.seal(b"state", &key).unwrap());
}

#[test]
fn open_says_why_it_failed() {
    let key = [7u8; 32];
    assert_eq!(RdSealer.open(&[0u8; 20], &key).unwrap_err(), "fgtw open: blob too short (20 bytes)");
    assert_eq!(RdSealer.open(&[], &key).unwrap_err(), "fgtw open: blob too short (0 bytes)");
    assert_eq!(RdSealer.open(&[0u8; 64], &key).unwrap_err(), "fgtw open: aead::Error");
    assert_eq!(RdSealer.open(&[0u8; 28], &key).unwrap_err(), "fgtw open: aead::Error");
}
