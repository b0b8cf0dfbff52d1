//! Cryptographic identity and private-message core for a decentralized
//! social protocol: keypair generation and recovery, canonical key
//! encodings, NIP-44 v2 conversation-key derivation and authenticated
//! encryption, and construction of signed private-message events.

pub mod cipher;
pub mod event;
pub mod hexcode;
pub mod kdf;
pub mod keycodec;
pub mod keys;
pub mod padding;
pub mod primitives;
pub mod util;

use vstd::prelude::*;

use crate::cipher::{
    min_payload_len, open_payload, open_payload_exec, seal, seal_payload, version_byte,
};
use crate::hexcode::{hex_of, hex_string, lemma_hex_round_trip, unhex, valid_hex};
use crate::kdf::{conversation_key_of, derive_conversation_key};
use crate::keycodec::{decode_key, KeyEncoding, KeyKind};
use crate::keys::{generate_keypair, recover_keypair};
use crate::primitives::{
    base64_decode, base64_encode, base64_encoding, bytes_to_string, point_on_curve, public_key_of,
    random_32, valid_secret_bytes,
};
use vstd::utf8::{encode_utf8, encode_utf8_valid_utf8, valid_utf8};

verus! {

/// Failure taxonomy of the whole module. Cryptographic and encoding
/// errors carry no sensitive material: variants are bare.
#[derive(Clone, Copy, Debug, PartialEq, Eq, Structural)]
pub enum Error {
    /// Malformed textual key encoding.
    Format,
    /// Out-of-range scalar or invalid curve point.
    InvalidKey,
    /// Malformed base64 or truncated ciphertext.
    Decode,
    /// Unknown scheme version byte.
    UnsupportedVersion,
    /// MAC mismatch on decrypt.
    Authentication,
    /// Plaintext too long or key invalid at encrypt time.
    Encryption,
    /// Relay publication failed.
    Delivery,
}

/// Whether a text is the lowercase hex image of 32 bytes.
pub open spec fn is_hex64(s: Seq<char>) -> bool {
    valid_hex(encode_utf8(s)) && encode_utf8(s).len() == 64
}

/// The 32 bytes a 64-digit lowercase hex text denotes.
pub open spec fn hex64_key(s: Seq<char>) -> Seq<u8> {
    unhex(encode_utf8(s))
}

/// What decrypting an already base64-decoded payload yields for a key
/// pair, in the order the scheme fixes: length, then version, then key
/// validity, then MAC before any decryption, then padding, then the
/// UTF-8 reading of the plaintext.
pub open spec fn payload_decrypt_spec(sk: Seq<u8>, pk: Seq<u8>, d: Seq<u8>) -> Result<
    Seq<u8>,
    Error,
> {
    if d.len() < min_payload_len() {
        Err(Error::Decode)
    } else if d[0] != version_byte() {
        Err(Error::UnsupportedVersion)
    } else if !(valid_secret_bytes(sk) && point_on_curve(pk)) {
        Err(Error::InvalidKey)
    } else {
        match open_payload(conversation_key_of(sk, pk), d) {
            Ok(b) => if valid_utf8(b) {
                Ok(b)
            } else {
                Err(Error::Decode)
            },
            Err(e) => Err(e),
        }
    }
}

/// Whether a textual result carries exactly the bytes of a spec-level
/// result: same error, or a text whose UTF-8 image is the spec bytes.
pub open spec fn text_result_matches(r: Result<String, Error>, x: Result<Seq<u8>, Error>) -> bool {
    match r {
        Ok(p) => x matches Ok(b) && encode_utf8(p@) == b,
        Err(e) => x == Err::<Seq<u8>, Error>(e),
    }
}

/// Recovering from a stored secret reproduces the identical public
/// key: the hex codec is lossless on the secret, so the derived public
/// key is the same.
pub proof fn lemma_recover_reproduces_public(sk: Seq<u8>)
    requires
        sk.len() == 32,
    ensures
        valid_hex(hex_of(sk)),
        hex_of(sk).len() == 64,
        unhex(hex_of(sk)) =~= sk,
        public_key_of(unhex(hex_of(sk))) == public_key_of(sk),
{
    lemma_hex_round_trip(sk);
    assert(public_key_of(unhex(hex_of(sk))) =~= public_key_of(sk));
}

/// Round trip of the cipher at the payload level: a payload sealed
/// under the conversation key of a valid pair decrypts, under the same
/// pair, to exactly the sealed text.
pub proof fn lemma_decrypt_inverts_encrypt(sk: Seq<u8>, pk: Seq<u8>, nonce: Seq<u8>, m: Seq<char>)
    requires
        valid_secret_bytes(sk),
        point_on_curve(pk),
        nonce.len() == 32,
        encode_utf8(m).len() <= 65535,
    ensures
        payload_decrypt_spec(sk, pk, seal(conversation_key_of(sk, pk), nonce, encode_utf8(m)))
            matches Ok(b) && b =~= encode_utf8(m),
{
    let k = conversation_key_of(sk, pk);
    let d = seal(k, nonce, encode_utf8(m));
    cipher::lemma_open_seal(k, nonce, encode_utf8(m));
    encode_utf8_valid_utf8(m);
    assert(open_payload(k, d) is Ok);
    assert(d.len() >= min_payload_len() && d[0] == version_byte()) by {
        if d.len() < min_payload_len() || d[0] != version_byte() {
            assert(open_payload(k, d) is Err);
        }
    }
}

/// Generate a fresh identity and return its secret and public keys in
/// raw lowercase hex.
pub fn generate_nostr_keys() -> (r: (String, String))
    ensures
        exists|sk: Seq<u8>|
            valid_secret_bytes(sk) && encode_utf8(r.0@) == hex_of(sk) && encode_utf8(r.1@)
                == #[trigger] hex_of(public_key_of(sk)),
{
    let kp = generate_keypair();
    let s = hex_string(kp.secret.as_slice());
    let p = hex_string(kp.public.as_slice());
    proof {
        assert(valid_secret_bytes(kp.secret@) && encode_utf8(s@) == hex_of(kp.secret@)
            && encode_utf8(p@) == hex_of(public_key_of(kp.secret@)));
    }
    (s, p)
}

/// Recover the identity stored as a raw hex secret key; fails with the
/// invalid-key error exactly when the text is not 64 lowercase hex
/// digits or the scalar is out of range.
pub fn recover_nostr_keys(secret: String) -> (r: Result<(String, String), Error>)
    ensures
        r is Ok <==> (is_hex64(secret@) && valid_secret_bytes(hex64_key(secret@))),
        r matches Ok(p) ==> encode_utf8(p.0@) == hex_of(hex64_key(secret@)) && encode_utf8(p.1@)
            == hex_of(public_key_of(hex64_key(secret@))),
        r matches Err(e) ==> e == Error::InvalidKey,
{
    match decode_key(KeyKind::Secret, KeyEncoding::Hex, secret.as_str()) {
        Ok(sk) => match recover_keypair(sk.as_slice()) {
            Ok(kp) => {
                let s = hex_string(kp.secret.as_slice());
                let p = hex_string(kp.public.as_slice());
                Ok((s, p))
            },
            Err(e) => Err(e),
        },
        Err(_) => Err(Error::InvalidKey),
    }
}

/// Derive the hex image of the symmetric conversation key of a raw hex
/// secret key and a raw hex public key. The key is symmetric between
/// the two keypairs.
pub fn nip44_conversation_key(secret_key: String, public_key: String) -> (r: Result<String, Error>)
    ensures
        r is Ok <==> (is_hex64(secret_key@) && is_hex64(public_key@) && valid_secret_bytes(
            hex64_key(secret_key@),
        ) && point_on_curve(hex64_key(public_key@))),
        r matches Ok(s) ==> encode_utf8(s@) == hex_of(
            conversation_key_of(hex64_key(secret_key@), hex64_key(public_key@)),
        ),
        r is Ok ==> (forall|sk2: Seq<u8>| valid_secret_bytes(sk2) && hex64_key(public_key@) == #[trigger] public_key_of(sk2) ==> conversation_key_of(hex64_key(secret_key@), hex64_key(public_key@)) == conversation_key_of(sk2, public_key_of(hex64_key(secret_key@)))),
        r matches Err(e) ==> e == Error::InvalidKey,
{
    let sk = match decode_key(KeyKind::Secret, KeyEncoding::Hex, secret_key.as_str()) {
        Ok(v) => v,
        Err(_) => {
            return Err(Error::InvalidKey);
        },
    };
    let pk = match decode_key(KeyKind::Public, KeyEncoding::Hex, public_key.as_str()) {
        Ok(v) => v,
        Err(_) => {
            return Err(Error::InvalidKey);
        },
    };
    match derive_conversation_key(sk.as_slice(), pk.as_slice()) {
        Ok(k) => Ok(hex_string(k.as_slice())),
        Err(e) => Err(e),
    }
}

/// Encrypt a text for a receiver under the version-2 scheme: derive
/// the conversation key, draw a fresh random nonce, seal, and frame in
/// base64. Fails with the encryption error exactly when a key is
/// ill-formed or invalid or the text exceeds 65535 bytes.
pub fn nip44_encrypt(secret_key: String, public_key: String, plaintext: String) -> (r: Result<
    String,
    Error,
>)
    ensures
        r is Ok <==> (is_hex64(secret_key@) && is_hex64(public_key@) && valid_secret_bytes(
            hex64_key(secret_key@),
        ) && point_on_curve(hex64_key(public_key@)) && encode_utf8(plaintext@).len() <= 65535),
        r matches Ok(ct) ==> (exists|nonce: Seq<u8>|
            nonce.len() == 32 && encode_utf8(ct@) == base64_encoding(
                #[trigger] seal(
                    conversation_key_of(hex64_key(secret_key@), hex64_key(public_key@)),
                    nonce,
                    encode_utf8(plaintext@),
                ),
            )),
        r is Ok ==> (forall|sk2: Seq<u8>| valid_secret_bytes(sk2) && hex64_key(public_key@) == #[trigger] public_key_of(sk2) ==> conversation_key_of(hex64_key(secret_key@), hex64_key(public_key@)) == conversation_key_of(sk2, public_key_of(hex64_key(secret_key@)))),
        r matches Err(e) ==> e == Error::Encryption,
{
    let sk = match decode_key(KeyKind::Secret, KeyEncoding::Hex, secret_key.as_str()) {
        Ok(v) => v,
        Err(_) => {
            return Err(Error::Encryption);
        },
    };
    let pk = match decode_key(KeyKind::Public, KeyEncoding::Hex, public_key.as_str()) {
        Ok(v) => v,
        Err(_) => {
            return Err(Error::Encryption);
        },
    };
    let m = vstd::string::StrSliceExecFns::as_bytes_vec(plaintext.as_str());
    if m.len() > 65535 {
        return Err(Error::Encryption);
    }
    match derive_conversation_key(sk.as_slice(), pk.as_slice()) {
        Ok(k) => {
            let nonce = random_32();
            let payload = seal_payload(k.as_slice(), nonce.as_slice(), m.as_slice());
            let ct = base64_encode(payload.as_slice());
            proof {
                assert(nonce@.len() == 32 && encode_utf8(ct@) == base64_encoding(
                    seal(
                        conversation_key_of(hex64_key(secret_key@), hex64_key(public_key@)),
                        nonce@,
                        encode_utf8(plaintext@),
                    ),
                ));
            }
            Ok(ct)
        },
        Err(_) => Err(Error::Encryption),
    }
}

/// Decrypt a base64-framed version-2 ciphertext: the errors come in
/// the fixed order of the scheme (key format, base64 and length,
/// version, key validity, authentication before any decryption,
/// padding, UTF-8), and a well-formed payload yields exactly the
/// sealed text.
pub fn nip44_decrypt(secret_key: String, public_key: String, ciphertext: String) -> (r: Result<
    String,
    Error,
>)
    ensures
        (!is_hex64(secret_key@) || !is_hex64(public_key@)) ==> r == Err::<String, Error>(
            Error::InvalidKey,
        ),
        (is_hex64(secret_key@) && is_hex64(public_key@) && (forall|d: Seq<u8>|
            encode_utf8(ciphertext@) != #[trigger] base64_encoding(d))) ==> r == Err::<
            String,
            Error,
        >(Error::Decode),
        forall|d: Seq<u8>|
            (is_hex64(secret_key@) && is_hex64(public_key@) && encode_utf8(ciphertext@)
                == #[trigger] base64_encoding(d)) ==> text_result_matches(
                r,
                payload_decrypt_spec(hex64_key(secret_key@), hex64_key(public_key@), d),
            ),
{
    let sk = match decode_key(KeyKind::Secret, KeyEncoding::Hex, secret_key.as_str()) {
        Ok(v) => v,
        Err(_) => {
            return Err(Error::InvalidKey);
        },
    };
    let pk = match decode_key(KeyKind::Public, KeyEncoding::Hex, public_key.as_str()) {
        Ok(v) => v,
        Err(_) => {
            return Err(Error::InvalidKey);
        },
    };
    let d = match base64_decode(ciphertext.as_str()) {
        Some(v) => v,
        None => {
            return Err(Error::Decode);
        },
    };
    if d.len() < 99 {
        return Err(Error::Decode);
    }
    if *vstd::slice::slice_index_get(d.as_slice(), 0) != 2 {
        return Err(Error::UnsupportedVersion);
    }
    let k = match derive_conversation_key(sk.as_slice(), pk.as_slice()) {
        Ok(v) => v,
        Err(_) => {
            return Err(Error::InvalidKey);
        },
    };
    match open_payload_exec(k.as_slice(), d.as_slice()) {
        Ok(p) => match bytes_to_string(p) {
            Some(s) => Ok(s),
            None => Err(Error::Decode),
        },
        Err(e) => Err(e),
    }
}

} // verus!
