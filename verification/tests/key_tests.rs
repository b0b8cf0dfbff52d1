use nostr_core::keycodec::{decode_key, encode_key, KeyEncoding, KeyKind};
use nostr_core::{generate_nostr_keys, recover_nostr_keys, Error};

const SEC1: &str = "0000000000000000000000000000000000000000000000000000000000000001";
const PUB1: &str = "79be667ef9dcbbac55a06295ce870b07029bfcdb2dce28d959f2815b16f81798";
const SEC2: &str = "0000000000000000000000000000000000000000000000000000000000000002";
const PUB2: &str = "c6047f9441ed7d6d3045406e95c07cd85c778e4b8cef3ca7abac09b95c709ee5";

#[test]
fn generate_yields_valid_hex_pair() {
    let (sk, pk) = generate_nostr_keys();
    assert_eq!(sk.len(), 64);
    assert_eq!(pk.len(), 64);
    assert!(sk.chars().all(|c| c.is_ascii_hexdigit() && !c.is_ascii_uppercase()));
    assert!(pk.chars().all(|c| c.is_ascii_hexdigit() && !c.is_ascii_uppercase()));
}

#[test]
fn generate_is_not_constant() {
    let (a, _) = generate_nostr_keys();
    let (b, _) = generate_nostr_keys();
    assert_ne!(a, b);
}

#[test]
fn recover_reproduces_generated_public_key() {
    let (sk, pk) = generate_nostr_keys();
    let (sk2, pk2) = recover_nostr_keys(sk.clone()).unwrap();
    assert_eq!(sk, sk2);
    assert_eq!(pk, pk2);
}

#[test]
fn recover_known_secret_gives_known_public() {
    let (sk, pk) = recover_nostr_keys(SEC1.to_string()).unwrap();
    assert_eq!(sk, SEC1);
    assert_eq!(pk, PUB1);
    let (_, pk2) = recover_nostr_keys(SEC2.to_string()).unwrap();
    assert_eq!(pk2, PUB2);
}

#[test]
fn recover_rejects_malformed_and_out_of_range() {
    let zero = "0".repeat(64);
    assert_eq!(recover_nostr_keys(zero).unwrap_err(), Error::InvalidKey);
    let too_big = "f".repeat(64);
    assert_eq!(recover_nostr_keys(too_big).unwrap_err(), Error::InvalidKey);
    assert_eq!(recover_nostr_keys("abc".to_string()).unwrap_err(), Error::InvalidKey);
    let upper = PUB1.to_uppercase();
    assert_eq!(recover_nostr_keys(upper).unwrap_err(), Error::InvalidKey);
    let not_hex = "zz".repeat(32);
    assert_eq!(recover_nostr_keys(not_hex).unwrap_err(), Error::InvalidKey);
}

#[test]
fn hex_codec_round_trip() {
    let mut bytes: Vec<u8> = Vec::new();
    for i in 0..32u32 {
        bytes.push((i * 8 % 256) as u8);
    }
    let text = encode_key(KeyKind::Secret, KeyEncoding::Hex, &bytes);
    assert_eq!(text.len(), 64);
    let back = decode_key(KeyKind::Secret, KeyEncoding::Hex, &text).unwrap();
    assert_eq!(back, bytes);
}

#[test]
fn hex_codec_exact_image() {
    let mut bytes = vec![0u8; 32];
    bytes[0] = 0xab;
    bytes[31] = 0x01;
    let text = encode_key(KeyKind::Public, KeyEncoding::Hex, &bytes);
    assert_eq!(
        text,
        "ab00000000000000000000000000000000000000000000000000000000000001"
    );
}

#[test]
fn hex_decode_rejects_bad_input() {
    assert_eq!(
        decode_key(KeyKind::Secret, KeyEncoding::Hex, "abc").unwrap_err(),
        Error::Format
    );
    let upper = "A".repeat(64);
    assert_eq!(
        decode_key(KeyKind::Secret, KeyEncoding::Hex, &upper).unwrap_err(),
        Error::Format
    );
    let short = "ab".repeat(31);
    assert_eq!(
        decode_key(KeyKind::Secret, KeyEncoding::Hex, &short).unwrap_err(),
        Error::Format
    );
}

#[test]
fn bech32_codec_round_trip_secret() {
    let bytes = decode_key(KeyKind::Secret, KeyEncoding::Hex, SEC1).unwrap();
    let text = encode_key(KeyKind::Secret, KeyEncoding::Bech32, &bytes);
    assert!(text.starts_with("nsec1"));
    let back = decode_key(KeyKind::Secret, KeyEncoding::Bech32, &text).unwrap();
    assert_eq!(back, bytes);
}

#[test]
fn bech32_codec_round_trip_public() {
    let bytes = decode_key(KeyKind::Public, KeyEncoding::Hex, PUB1).unwrap();
    let text = encode_key(KeyKind::Public, KeyEncoding::Bech32, &bytes);
    assert!(text.starts_with("npub1"));
    let back = decode_key(KeyKind::Public, KeyEncoding::Bech32, &text).unwrap();
    assert_eq!(back, bytes);
}

#[test]
fn bech32_codec_rejects_wrong_prefix_and_checksum() {
    let bytes = decode_key(KeyKind::Secret, KeyEncoding::Hex, SEC1).unwrap();
    let text = encode_key(KeyKind::Secret, KeyEncoding::Bech32, &bytes);
    assert_eq!(
        decode_key(KeyKind::Public, KeyEncoding::Bech32, &text).unwrap_err(),
        Error::Format
    );
    let mut broken = text.clone();
    let last = broken.pop().unwrap();
    broken.push(if last == 'q' { 'p' } else { 'q' });
    assert!(decode_key(KeyKind::Secret, KeyEncoding::Bech32, &broken).is_err());
    assert_eq!(
        decode_key(KeyKind::Secret, KeyEncoding::Bech32, "not bech32").unwrap_err(),
        Error::Format
    );
}
