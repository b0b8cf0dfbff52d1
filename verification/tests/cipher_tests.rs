use base64::Engine;
use nostr_core::{
    generate_nostr_keys, nip44_conversation_key, nip44_decrypt, nip44_encrypt, Error,
};

const SEC1: &str = "0000000000000000000000000000000000000000000000000000000000000001";
const PUB1: &str = "79be667ef9dcbbac55a06295ce870b07029bfcdb2dce28d959f2815b16f81798";
const SEC2: &str = "0000000000000000000000000000000000000000000000000000000000000002";
const PUB2: &str = "c6047f9441ed7d6d3045406e95c07cd85c778e4b8cef3ca7abac09b95c709ee5";

fn s(x: &str) -> String {
    x.to_string()
}

#[test]
fn encrypt_decrypt_hello() {
    let a = generate_nostr_keys();
    let b = generate_nostr_keys();
    let ct = nip44_encrypt(a.0.clone(), b.1.clone(), s("hello")).unwrap();
    let pt = nip44_decrypt(b.0.clone(), a.1.clone(), ct).unwrap();
    assert_eq!(pt, "hello");
}

#[test]
fn round_trip_same_direction() {
    let ct = nip44_encrypt(s(SEC1), s(PUB2), s("attack at dawn")).unwrap();
    let pt = nip44_decrypt(s(SEC2), s(PUB1), ct).unwrap();
    assert_eq!(pt, "attack at dawn");
}

#[test]
fn round_trip_multibyte_text() {
    let msg = "héllo wörld \u{1F680} \u{4E16}\u{754C}";
    let ct = nip44_encrypt(s(SEC1), s(PUB2), s(msg)).unwrap();
    let pt = nip44_decrypt(s(SEC2), s(PUB1), ct).unwrap();
    assert_eq!(pt, msg);
}

#[test]
fn round_trip_empty_text() {
    let ct = nip44_encrypt(s(SEC1), s(PUB2), s("")).unwrap();
    let pt = nip44_decrypt(s(SEC2), s(PUB1), ct).unwrap();
    assert_eq!(pt, "");
}

#[test]
fn two_encryptions_differ_by_nonce() {
    let c1 = nip44_encrypt(s(SEC1), s(PUB2), s("same text")).unwrap();
    let c2 = nip44_encrypt(s(SEC1), s(PUB2), s("same text")).unwrap();
    assert_ne!(c1, c2);
}

#[test]
fn boundary_length_65535_encrypts() {
    let msg = "a".repeat(65535);
    let ct = nip44_encrypt(s(SEC1), s(PUB2), msg.clone()).unwrap();
    let pt = nip44_decrypt(s(SEC2), s(PUB1), ct).unwrap();
    assert_eq!(pt, msg);
}

#[test]
fn boundary_length_65536_fails() {
    let msg = "a".repeat(65536);
    assert_eq!(
        nip44_encrypt(s(SEC1), s(PUB2), msg).unwrap_err(),
        Error::Encryption
    );
}

#[test]
fn encrypt_rejects_invalid_keys() {
    assert_eq!(
        nip44_encrypt(s("nope"), s(PUB2), s("x")).unwrap_err(),
        Error::Encryption
    );
    let zero = "0".repeat(64);
    assert_eq!(
        nip44_encrypt(zero.clone(), s(PUB2), s("x")).unwrap_err(),
        Error::Encryption
    );
    // A value with no matching x coordinate on the curve is rejected.
    let bad_point = "f".repeat(64);
    assert_eq!(
        nip44_encrypt(s(SEC1), bad_point, s("x")).unwrap_err(),
        Error::Encryption
    );
}

#[test]
fn conversation_key_symmetry() {
    let a = generate_nostr_keys();
    let b = generate_nostr_keys();
    let k1 = nip44_conversation_key(a.0.clone(), b.1.clone()).unwrap();
    let k2 = nip44_conversation_key(b.0.clone(), a.1.clone()).unwrap();
    assert_eq!(k1, k2);
    assert_eq!(k1.len(), 64);
}

#[test]
fn conversation_key_symmetry_known_pair() {
    let k1 = nip44_conversation_key(s(SEC1), s(PUB2)).unwrap();
    let k2 = nip44_conversation_key(s(SEC2), s(PUB1)).unwrap();
    assert_eq!(k1, k2);
}

#[test]
fn conversation_key_rejects_invalid() {
    assert_eq!(
        nip44_conversation_key(s("xyz"), s(PUB2)).unwrap_err(),
        Error::InvalidKey
    );
    let zero = "0".repeat(64);
    assert_eq!(
        nip44_conversation_key(zero, s(PUB2)).unwrap_err(),
        Error::InvalidKey
    );
}

#[test]
fn decrypt_rejects_bad_base64() {
    assert_eq!(
        nip44_decrypt(s(SEC2), s(PUB1), s("!!!not base64!!!")).unwrap_err(),
        Error::Decode
    );
}

#[test]
fn decrypt_rejects_truncated_payload() {
    let short = base64::engine::general_purpose::STANDARD.encode([2u8; 50]);
    assert_eq!(
        nip44_decrypt(s(SEC2), s(PUB1), short).unwrap_err(),
        Error::Decode
    );
}

#[test]
fn decrypt_rejects_wrong_version() {
    let mut raw = vec![1u8; 120];
    raw[0] = 1;
    let ct = base64::engine::general_purpose::STANDARD.encode(&raw);
    assert_eq!(
        nip44_decrypt(s(SEC2), s(PUB1), ct).unwrap_err(),
        Error::UnsupportedVersion
    );
    let mut raw0 = vec![0u8; 120];
    raw0[0] = 0;
    let ct0 = base64::engine::general_purpose::STANDARD.encode(&raw0);
    assert_eq!(
        nip44_decrypt(s(SEC2), s(PUB1), ct0).unwrap_err(),
        Error::UnsupportedVersion
    );
}

#[test]
fn decrypt_rejects_invalid_keys_after_version_check() {
    let ct = nip44_encrypt(s(SEC1), s(PUB2), s("payload")).unwrap();
    let zero = "0".repeat(64);
    assert_eq!(
        nip44_decrypt(zero, s(PUB1), ct).unwrap_err(),
        Error::InvalidKey
    );
}

fn tamper_bit(ct: &str, byte_index: usize) -> String {
    let engine = &base64::engine::general_purpose::STANDARD;
    let mut raw = engine.decode(ct).unwrap();
    raw[byte_index] ^= 1;
    engine.encode(raw)
}

#[test]
fn tamper_in_mac_is_detected() {
    let ct = nip44_encrypt(s(SEC1), s(PUB2), s("top secret")).unwrap();
    let raw_len = base64::engine::general_purpose::STANDARD
        .decode(&ct)
        .unwrap()
        .len();
    let tampered = tamper_bit(&ct, raw_len - 1);
    assert_eq!(
        nip44_decrypt(s(SEC2), s(PUB1), tampered).unwrap_err(),
        Error::Authentication
    );
}

#[test]
fn tamper_in_nonce_is_detected() {
    let ct = nip44_encrypt(s(SEC1), s(PUB2), s("top secret")).unwrap();
    let tampered = tamper_bit(&ct, 5);
    assert_eq!(
        nip44_decrypt(s(SEC2), s(PUB1), tampered).unwrap_err(),
        Error::Authentication
    );
}

#[test]
fn tamper_in_ciphertext_is_detected() {
    let ct = nip44_encrypt(s(SEC1), s(PUB2), s("top secret")).unwrap();
    let tampered = tamper_bit(&ct, 40);
    assert_eq!(
        nip44_decrypt(s(SEC2), s(PUB1), tampered).unwrap_err(),
        Error::Authentication
    );
}

#[test]
fn tamper_every_mac_bit_is_detected() {
    let ct = nip44_encrypt(s(SEC1), s(PUB2), s("bit by bit")).unwrap();
    let engine = &base64::engine::general_purpose::STANDARD;
    let raw = engine.decode(&ct).unwrap();
    let n = raw.len();
    for bit in 0..8 {
        let mut r = raw.clone();
        r[n - 17] ^= 1u8 << bit;
        let t = engine.encode(r);
        assert_eq!(
            nip44_decrypt(s(SEC2), s(PUB1), t).unwrap_err(),
            Error::Authentication
        );
    }
}
