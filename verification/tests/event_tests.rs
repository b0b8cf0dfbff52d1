use nostr_core::event::prepare_private_message;
use nostr_core::{nip44_decrypt, Error};

const SEC1: &str = "0000000000000000000000000000000000000000000000000000000000000001";
const PUB1: &str = "79be667ef9dcbbac55a06295ce870b07029bfcdb2dce28d959f2815b16f81798";
const SEC2: &str = "0000000000000000000000000000000000000000000000000000000000000002";
const PUB2: &str = "c6047f9441ed7d6d3045406e95c07cd85c778e4b8cef3ca7abac09b95c709ee5";

fn s(x: &str) -> String {
    x.to_string()
}

#[test]
fn event_carries_expected_fields() {
    let ev = prepare_private_message(s(SEC1), s(PUB2), s("hi there"), None, 1700000000).unwrap();
    assert_eq!(ev.created_at, 1700000000);
    assert_eq!(ev.id.len(), 32);
    assert_eq!(ev.sig.len(), 64);
    assert_eq!(ev.pubkey.len(), 32);
    let pk_hex: String = ev.pubkey.iter().map(|b| format!("{:02x}", b)).collect();
    assert_eq!(pk_hex, PUB1);
    let rc_hex: String = ev.receiver.iter().map(|b| format!("{:02x}", b)).collect();
    assert_eq!(rc_hex, PUB2);
    assert!(ev.reply_to.is_none());
}

#[test]
fn event_json_shape() {
    let ev = prepare_private_message(s(SEC1), s(PUB2), s("hi"), None, 1700000001).unwrap();
    let j = &ev.json;
    assert!(j.starts_with("{\"id\":\""));
    assert!(j.ends_with("\"}"));
    assert!(j.contains("\"kind\":4"));
    assert!(j.contains("\"created_at\":1700000001"));
    let tag = format!("\"tags\":[[\"p\",\"{}\"]]", PUB2);
    assert!(j.contains(&tag));
    assert!(j.contains(&format!("\"content\":\"{}\"", ev.content)));
}

#[test]
fn event_with_reply_tag() {
    let reply_id = "11".repeat(32);
    let ev = prepare_private_message(
        s(SEC1),
        s(PUB2),
        s("re: hello"),
        Some(reply_id.clone()),
        1700000002,
    )
    .unwrap();
    let tag = format!("\"tags\":[[\"p\",\"{}\"],[\"e\",\"{}\"]]", PUB2, reply_id);
    assert!(ev.json.contains(&tag));
    assert_eq!(ev.reply_to.as_ref().unwrap().len(), 32);
}

#[test]
fn event_content_decrypts_for_receiver() {
    let ev = prepare_private_message(s(SEC1), s(PUB2), s("for your eyes"), None, 1700000003)
        .unwrap();
    let pt = nip44_decrypt(s(SEC2), s(PUB1), ev.content.clone()).unwrap();
    assert_eq!(pt, "for your eyes");
}

#[test]
fn fresh_nonces_give_distinct_event_ids() {
    let a = prepare_private_message(s(SEC1), s(PUB2), s("m"), None, 42).unwrap();
    let b = prepare_private_message(s(SEC1), s(PUB2), s("m"), None, 42).unwrap();
    // Fresh nonces give different ciphertexts, so the ids differ too.
    assert_ne!(a.id, b.id);
}

#[test]
fn event_errors() {
    assert_eq!(
        prepare_private_message(s("bad"), s(PUB2), s("m"), None, 1).unwrap_err(),
        Error::InvalidKey
    );
    let zero = "0".repeat(64);
    assert_eq!(
        prepare_private_message(zero, s(PUB2), s("m"), None, 1).unwrap_err(),
        Error::InvalidKey
    );
    assert_eq!(
        prepare_private_message(s(SEC1), s("bad"), s("m"), None, 1).unwrap_err(),
        Error::InvalidKey
    );
    assert_eq!(
        prepare_private_message(s(SEC1), s(PUB2), s("m"), Some(s("zz")), 1).unwrap_err(),
        Error::Format
    );
    let long = "a".repeat(65536);
    assert_eq!(
        prepare_private_message(s(SEC1), s(PUB2), long, None, 1).unwrap_err(),
        Error::Encryption
    );
}
