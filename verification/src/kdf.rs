//! Conversation-key derivation and per-message key expansion for the
//! version-2 scheme: an HKDF-style extract over the ECDH shared x
//! coordinate with the fixed scheme salt, then an HKDF-style expand of
//! the conversation key and the message nonce into the stream-cipher
//! key, the stream-cipher nonce, and the MAC key.

use vstd::prelude::*;

use crate::primitives::{
    chacha20_keystream_byte, derive_public, ecdh_shared_x, ecdh_x, hmac_sha256, hmac_sha256_exec,
    point_on_curve, public_key_of, valid_secret_bytes,
};
use crate::util::push_all;
use crate::Error;
use vstd::slice::{slice_subrange, slice_to_vec};

verus! {

/// The fixed extract salt of the version-2 scheme: the ASCII bytes of
/// "nip44-v2".
pub open spec fn kdf_salt() -> Seq<u8> {
    seq![110u8, 105u8, 112u8, 52u8, 52u8, 45u8, 118u8, 50u8]
}

/// The conversation key of a secret scalar and a remote public key:
/// HKDF extract (HMAC-SHA256 keyed by the scheme salt) of the ECDH
/// shared x coordinate.
pub open spec fn conversation_key_of(sk: Seq<u8>, pk: Seq<u8>) -> Seq<u8> {
    hmac_sha256(kdf_salt(), ecdh_x(sk, pk))
}

/// First HKDF-expand block of the message-key material.
pub open spec fn expand1(prk: Seq<u8>, info: Seq<u8>) -> Seq<u8> {
    hmac_sha256(prk, info.push(1u8))
}

/// Second HKDF-expand block of the message-key material.
pub open spec fn expand2(prk: Seq<u8>, info: Seq<u8>) -> Seq<u8> {
    hmac_sha256(prk, expand1(prk, info) + info.push(2u8))
}

/// Third HKDF-expand block of the message-key material.
pub open spec fn expand3(prk: Seq<u8>, info: Seq<u8>) -> Seq<u8> {
    hmac_sha256(prk, expand2(prk, info) + info.push(3u8))
}

/// The 32-byte stream-cipher key for a conversation key and nonce:
/// bytes 0..32 of the expanded material.
pub open spec fn enc_key_of(k: Seq<u8>, nonce: Seq<u8>) -> Seq<u8> {
    expand1(k, nonce)
}

/// The 12-byte stream-cipher nonce: bytes 32..44 of the expanded material.
pub open spec fn enc_nonce_of(k: Seq<u8>, nonce: Seq<u8>) -> Seq<u8> {
    expand2(k, nonce).take(12)
}

/// The 32-byte MAC key: bytes 44..76 of the expanded material.
pub open spec fn mac_key_of(k: Seq<u8>, nonce: Seq<u8>) -> Seq<u8> {
    expand2(k, nonce).skip(12) + expand3(k, nonce).take(12)
}

/// The exec image of the scheme salt.
pub fn kdf_salt_exec() -> (r: Vec<u8>)
    ensures
        r@ =~= kdf_salt(),
{
    let mut s: Vec<u8> = Vec::new();
    s.push(110);
    s.push(105);
    s.push(112);
    s.push(52);
    s.push(52);
    s.push(45);
    s.push(118);
    s.push(50);
    s
}

/// Expand a conversation key and message nonce into the stream-cipher
/// key, stream-cipher nonce, and MAC key.
pub fn message_keys(k: &[u8], nonce: &[u8]) -> (r: (Vec<u8>, Vec<u8>, Vec<u8>))
    ensures
        r.0@ =~= enc_key_of(k@, nonce@),
        r.1@ =~= enc_nonce_of(k@, nonce@),
        r.2@ =~= mac_key_of(k@, nonce@),
        r.0@.len() == 32 && r.1@.len() == 12 && r.2@.len() == 32,
{
    let mut i1 = slice_to_vec(nonce);
    i1.push(1);
    let t1 = hmac_sha256_exec(k, i1.as_slice());
    assert(t1@ =~= expand1(k@, nonce@));

    let mut i2 = slice_to_vec(t1.as_slice());
    push_all(&mut i2, nonce);
    i2.push(2);
    let t2 = hmac_sha256_exec(k, i2.as_slice());
    assert(i2@ =~= expand1(k@, nonce@) + nonce@.push(2u8));
    assert(t2@ =~= expand2(k@, nonce@));

    let mut i3 = slice_to_vec(t2.as_slice());
    push_all(&mut i3, nonce);
    i3.push(3);
    let t3 = hmac_sha256_exec(k, i3.as_slice());
    assert(i3@ =~= expand2(k@, nonce@) + nonce@.push(3u8));
    assert(t3@ =~= expand3(k@, nonce@));

    let cn = slice_to_vec(slice_subrange(t2.as_slice(), 0, 12));
    let mut hk = slice_to_vec(slice_subrange(t2.as_slice(), 12, 32));
    push_all(&mut hk, slice_subrange(t3.as_slice(), 0, 12));
    assert(cn@ =~= enc_nonce_of(k@, nonce@));
    assert(hk@ =~= mac_key_of(k@, nonce@));
    (t1, cn, hk)
}

/// Derive the symmetric conversation key shared by the holder of `sk`
/// and the holder of the secret behind `pk`. Fails exactly on an
/// invalid scalar or point. The key is symmetric: whenever `pk` is the
/// public key of some scalar `sk2`, the same key is derived from
/// `(sk2, public_key_of(sk))`.
pub fn derive_conversation_key(sk: &[u8], pk: &[u8]) -> (r: Result<Vec<u8>, Error>)
    requires
        sk@.len() == 32,
        pk@.len() == 32,
    ensures
        r is Ok <==> (valid_secret_bytes(sk@) && point_on_curve(pk@)),
        r matches Ok(k) ==> k@ == conversation_key_of(sk@, pk@) && k@.len() == 32,
        r matches Ok(k) ==> (forall|sk2: Seq<u8>| valid_secret_bytes(sk2) && pk@ == #[trigger] public_key_of(sk2) ==> k@ == conversation_key_of(sk2, public_key_of(sk@))),
        r matches Err(e) ==> e == Error::InvalidKey,
{
    match ecdh_shared_x(sk, pk) {
        Some(x) => {
            let salt = kdf_salt_exec();
            let k = hmac_sha256_exec(salt.as_slice(), x.as_slice());
            proof {
                assert(k@ =~= conversation_key_of(sk@, pk@));
                assert forall|sk2: Seq<u8>|
                    valid_secret_bytes(sk2) && pk@ == #[trigger] public_key_of(sk2) implies k@
                    == conversation_key_of(sk2, public_key_of(sk@)) by {
                    assert(x@ == ecdh_x(sk2, public_key_of(sk@)));
                }
            }
            Ok(k)
        },
        None => Err(Error::InvalidKey),
    }
}

} // verus!
