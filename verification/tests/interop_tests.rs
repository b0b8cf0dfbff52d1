//! Cross-checks against the reference protocol implementation: the
//! ciphertexts this library produces must decrypt there, the derived
//! conversation keys must agree, and the signed events must verify.

use nostr_core::event::prepare_private_message;
use nostr_core::keycodec::{decode_key, KeyEncoding, KeyKind};
use nostr_core::{nip44_conversation_key, nip44_encrypt};

const SEC1: &str = "0000000000000000000000000000000000000000000000000000000000000001";
const PUB1: &str = "79be667ef9dcbbac55a06295ce870b07029bfcdb2dce28d959f2815b16f81798";
const SEC2: &str = "0000000000000000000000000000000000000000000000000000000000000002";
const PUB2: &str = "c6047f9441ed7d6d3045406e95c07cd85c778e4b8cef3ca7abac09b95c709ee5";

fn s(x: &str) -> String {
    x.to_string()
}

#[test]
fn reference_implementation_decrypts_our_ciphertext() {
    let ct = nip44_encrypt(s(SEC1), s(PUB2), s("wire compatible")).unwrap();
    let sk = nostr::key::SecretKey::from_hex(SEC2).unwrap();
    let pk = nostr::key::PublicKey::from_hex(PUB1).unwrap();
    let pt = nostr::nips::nip44::decrypt(&sk, &pk, &ct).unwrap();
    assert_eq!(pt, "wire compatible");
}

#[test]
fn conversation_key_matches_reference() {
    let ours = nip44_conversation_key(s(SEC1), s(PUB2)).unwrap();
    let sk = nostr::key::SecretKey::from_hex(SEC1).unwrap();
    let pk = nostr::key::PublicKey::from_hex(PUB2).unwrap();
    let theirs = nostr::nips::nip44::v2::ConversationKey::derive(&sk, &pk).unwrap();
    let ours_bytes = decode_key(KeyKind::Secret, KeyEncoding::Hex, &ours).unwrap();
    assert_eq!(ours_bytes.as_slice(), theirs.as_bytes());
}

#[test]
fn signed_event_verifies_in_reference() {
    let ev = prepare_private_message(s(SEC1), s(PUB2), s("check me"), None, 1700000100).unwrap();
    let parsed = nostr::event::Event::from_json(&ev.json).unwrap();
    assert!(parsed.verify().is_ok());
}

#[test]
fn bech32_encoding_matches_reference_parser() {
    let bytes = decode_key(KeyKind::Secret, KeyEncoding::Hex, SEC1).unwrap();
    let nsec = nostr_core::keycodec::encode_key(KeyKind::Secret, KeyEncoding::Bech32, &bytes);
    let parsed = nostr::key::SecretKey::parse(&nsec).unwrap();
    assert_eq!(parsed.to_secret_hex(), SEC1);
}
