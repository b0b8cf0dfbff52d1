//! Trusted boundary to the external cryptographic collaborators: the
//! elliptic-curve primitive, HMAC-SHA256, the ChaCha20 stream cipher,
//! SHA-256, the Schnorr signing primitive, base64 and bech32 codecs,
//! constant-time comparison, and the secure random source. Each wrapper
//! carries the contract the outside crate's source and documentation
//! support; everything above this module is verified against these
//! contracts alone.

use vstd::prelude::*;
use vstd::utf8::{encode_utf8, valid_utf8};

verus! {

/// Byte `i` of the x coordinate of the ECDH shared point between the
/// scalar `sk` and the x-only point `pk`.
pub uninterp spec fn ecdh_x_byte(sk: Seq<u8>, pk: Seq<u8>, i: int) -> u8;

/// Byte `i` of the x-only public key of the scalar `sk`.
pub uninterp spec fn public_key_byte(sk: Seq<u8>, i: int) -> u8;

/// Whether 32 bytes name a valid x-only curve point.
pub uninterp spec fn point_on_curve(pk: Seq<u8>) -> bool;

/// Byte `i` of HMAC-SHA256 of `msg` under `key`.
pub uninterp spec fn hmac_sha256_byte(key: Seq<u8>, msg: Seq<u8>, i: int) -> u8;

/// Byte `i` of the ChaCha20 keystream under `key` and `nonce`.
pub uninterp spec fn chacha20_keystream_byte(key: Seq<u8>, nonce: Seq<u8>, i: int) -> u8;

/// Byte `i` of the SHA-256 digest of `msg`.
pub uninterp spec fn sha256_byte(msg: Seq<u8>, i: int) -> u8;

/// Byte `i` of the deterministic BIP-340 Schnorr signature of `msg`
/// under the scalar `sk`.
pub uninterp spec fn schnorr_sig_byte(sk: Seq<u8>, msg: Seq<u8>, i: int) -> u8;

/// The base64 (standard alphabet, padded) encoding of `b`, as ASCII bytes.
pub uninterp spec fn base64_encoding(b: Seq<u8>) -> Seq<u8>;

/// The bech32 encoding of `data` under the lowercase human-readable
/// part `hrp`, as ASCII bytes.
pub uninterp spec fn bech32_encoding(hrp: Seq<u8>, data: Seq<u8>) -> Seq<u8>;

/// The 32-byte x coordinate of the ECDH shared point.
pub open spec fn ecdh_x(sk: Seq<u8>, pk: Seq<u8>) -> Seq<u8> {
    Seq::new(32, |i: int| ecdh_x_byte(sk, pk, i))
}

/// The 32-byte x-only public key of a valid secret scalar.
pub open spec fn public_key_of(sk: Seq<u8>) -> Seq<u8> {
    Seq::new(32, |i: int| public_key_byte(sk, i))
}

/// The 32-byte HMAC-SHA256 of `msg` under `key`.
pub open spec fn hmac_sha256(key: Seq<u8>, msg: Seq<u8>) -> Seq<u8> {
    Seq::new(32, |i: int| hmac_sha256_byte(key, msg, i))
}

/// ChaCha20 applied to `data`: the byte-wise XOR with the keystream.
pub open spec fn chacha20_apply(key: Seq<u8>, nonce: Seq<u8>, data: Seq<u8>) -> Seq<u8> {
    Seq::new(data.len(), |i: int| data[i] ^ chacha20_keystream_byte(key, nonce, i))
}

/// The 32-byte SHA-256 digest of `msg`.
pub open spec fn sha256_of(msg: Seq<u8>) -> Seq<u8> {
    Seq::new(32, |i: int| sha256_byte(msg, i))
}

/// The 64-byte Schnorr signature of `msg` under `sk`.
pub open spec fn schnorr_sig_of(sk: Seq<u8>, msg: Seq<u8>) -> Seq<u8> {
    Seq::new(64, |i: int| schnorr_sig_byte(sk, msg, i))
}

/// The big-endian unsigned integer a byte string denotes.
pub open spec fn be_uint(s: Seq<u8>) -> nat
    decreases s.len(),
{
    if s.len() == 0 {
        0
    } else {
        be_uint(s.drop_last()) * 256 + s.last() as nat
    }
}

/// The order of the secp256k1 group.
pub open spec fn secp256k1_order() -> nat {
    0xFFFFFFFFFFFFFFFFFFFFFFFFFFFFFFFEBAAEDCE6AF48A03BBFD25E8CD0364141nat
}

/// A valid secret scalar: 32 bytes holding a value in [1, order).
pub open spec fn valid_secret_bytes(s: Seq<u8>) -> bool {
    s.len() == 32 && 1 <= be_uint(s) < secp256k1_order()
}

/// Relies on hmac::Hmac<sha2::Sha256>: keyed HMAC-SHA256, 32 bytes out,
/// any key length accepted.
#[verifier::external_body]
pub fn hmac_sha256_exec(key: &[u8], msg: &[u8]) -> (r: Vec<u8>)
    ensures
        forall|i: int| 0 <= i < 32 ==> r@[i] == hmac_sha256_byte(key@, msg@, i),
        r@ == hmac_sha256(key@, msg@),
{
    let mut m = <hmac::Hmac<sha2::Sha256> as hmac::KeyInit>::new_from_slice(key).unwrap();
    hmac::Mac::update(&mut m, msg);
    hmac::Mac::finalize(m).into_bytes().to_vec()
}

/// Relies on chacha20::ChaCha20 (IETF, 12-byte nonce): XORs the buffer
/// with the keystream determined by key and nonce alone.
#[verifier::external_body]
pub fn chacha20_apply_exec(key: &[u8], nonce: &[u8], data: &Vec<u8>) -> (r: Vec<u8>)
    requires
        key@.len() == 32,
        nonce@.len() == 12,
    ensures
        forall|i: int| 0 <= i < data@.len() ==> r@[i] == (data@[i] ^ chacha20_keystream_byte(key@, nonce@, i)),
        r@ == chacha20_apply(key@, nonce@, data@),
{
    let mut buf = data.clone();
    let mut c = <chacha20::ChaCha20 as chacha20::cipher::KeyIvInit>::new_from_slices(key, nonce)
        .unwrap();
    chacha20::cipher::StreamCipher::apply_keystream(&mut c, &mut buf);
    buf
}

/// Relies on sha2::Sha256: the 32-byte digest of the input alone.
#[verifier::external_body]
pub fn sha256_exec(msg: &[u8]) -> (r: Vec<u8>)
    ensures
        forall|i: int| 0 <= i < 32 ==> r@[i] == sha256_byte(msg@, i),
        r@ == sha256_of(msg@),
{
    let d = <sha2::Sha256 as sha2::Digest>::digest(msg);
    d.to_vec()
}

/// Relies on secp256k1::ecdh::shared_secret_point over the x-only point
/// lifted with even parity: succeeds exactly on a valid scalar and a
/// valid point, and yields the shared x coordinate, which ECDH makes
/// symmetric between the two keypairs.
#[verifier::external_body]
pub fn ecdh_shared_x(sk: &[u8], pk: &[u8]) -> (r: Option<Vec<u8>>)
    requires
        sk@.len() == 32,
        pk@.len() == 32,
    ensures
        r is Some <==> (valid_secret_bytes(sk@) && point_on_curve(pk@)),
        r matches Some(v) ==> forall|i: int| 0 <= i < 32 ==> v@[i] == ecdh_x_byte(sk@, pk@, i),
        r matches Some(v) ==> v@ == ecdh_x(sk@, pk@),
        r matches Some(v) ==> (forall|sk2: Seq<u8>| valid_secret_bytes(sk2) && pk@ == #[trigger] public_key_of(sk2) ==> v@ == ecdh_x(sk2, public_key_of(sk@))),
{
    let s = secp256k1::SecretKey::from_secret_bytes(sk.try_into().ok()?).ok()?;
    let x = secp256k1::XOnlyPublicKey::from_byte_array(pk.try_into().ok()?).ok()?;
    let p = secp256k1::PublicKey::from_x_only_public_key(x, secp256k1::Parity::Even);
    Some(secp256k1::ecdh::shared_secret_point(&p, &s)[..32].to_vec())
}

/// Relies on secp256k1::SecretKey::from_secret_bytes (succeeds exactly
/// on a scalar in [1, order)) and XOnlyPublicKey derivation: the x-only
/// public key is a function of the scalar and is itself a valid point.
#[verifier::external_body]
pub fn derive_public(sk: &[u8]) -> (r: Option<Vec<u8>>)
    requires
        sk@.len() == 32,
    ensures
        r is Some <==> valid_secret_bytes(sk@),
        r matches Some(v) ==> forall|i: int| 0 <= i < 32 ==> v@[i] == public_key_byte(sk@, i),
        r matches Some(v) ==> v@ == public_key_of(sk@) && point_on_curve(v@),
{
    let s = secp256k1::SecretKey::from_secret_bytes(sk.try_into().ok()?).ok()?;
    Some(s.x_only_public_key().0.to_byte_array().to_vec())
}

/// Relies on secp256k1::XOnlyPublicKey::from_byte_array: succeeds
/// exactly on a valid x-only point.
#[verifier::external_body]
pub fn check_point(pk: &[u8]) -> (r: bool)
    requires
        pk@.len() == 32,
    ensures
        r == point_on_curve(pk@),
{
    secp256k1::XOnlyPublicKey::from_byte_array(pk.try_into().unwrap()).is_ok()
}

/// Relies on secp256k1 Schnorr signing (deterministic BIP-340 variant,
/// no auxiliary randomness): a 64-byte signature determined by the
/// scalar and the message.
#[verifier::external_body]
pub fn schnorr_sign(sk: &[u8], msg: &[u8]) -> (r: Option<Vec<u8>>)
    requires
        sk@.len() == 32,
    ensures
        r is Some <==> valid_secret_bytes(sk@),
        r matches Some(v) ==> forall|i: int| 0 <= i < 64 ==> v@[i] == schnorr_sig_byte(sk@, msg@, i),
        r matches Some(v) ==> v@ == schnorr_sig_of(sk@, msg@),
{
    let s = secp256k1::SecretKey::from_secret_bytes(sk.try_into().ok()?).ok()?;
    let kp = secp256k1::Keypair::from_secret_key(&s);
    Some(kp.sign_schnorr_no_aux_rand(msg).to_byte_array().to_vec())
}

/// Relies on rand::rng, a cryptographically secure source; nothing is
/// assumed of the drawn value beyond its length.
#[verifier::external_body]
pub fn random_32() -> (r: Vec<u8>)
    ensures
        r@.len() == 32,
{
    let mut buf = [0u8; 32];
    rand::Rng::fill_bytes(&mut rand::rng(), &mut buf);
    buf.to_vec()
}

/// Relies on subtle::ConstantTimeEq for byte slices: equality decided
/// in constant time, false on differing lengths.
#[verifier::external_body]
pub fn ct_eq(a: &[u8], b: &[u8]) -> (r: bool)
    ensures
        r <==> a@ == b@,
{
    bool::from(subtle::ConstantTimeEq::ct_eq(a, b))
}

/// Relies on base64's standard engine: the canonical padded encoding of
/// the input alone.
#[verifier::external_body]
pub fn base64_encode(b: &[u8]) -> (r: String)
    ensures
        encode_utf8(r@) == base64_encoding(b@),
{
    base64::Engine::encode(&base64::engine::general_purpose::STANDARD, b)
}

/// Relies on base64's standard engine in canonical mode: decoding
/// succeeds exactly on canonical encodings and inverts the encoder.
#[verifier::external_body]
pub fn base64_decode(s: &str) -> (r: Option<Vec<u8>>)
    ensures
        r matches Some(v) ==> encode_utf8(s@) == base64_encoding(v@),
        r is None ==> (forall|d: Seq<u8>| encode_utf8(s@) != #[trigger] base64_encoding(d)),
        r matches Some(v) ==> (forall|d: Seq<u8>| encode_utf8(s@) == #[trigger] base64_encoding(d) ==> v@ == d),
{
    base64::Engine::decode(&base64::engine::general_purpose::STANDARD, s).ok()
}

/// Relies on bech32::encode with the Bech32 checksum: the checksummed
/// encoding of the data under the given human-readable part.
#[verifier::external_body]
pub fn bech32_encode(hrp: &str, data: &[u8]) -> (r: String)
    requires
        encode_utf8(hrp@) == seq![110u8, 112u8, 117u8, 98u8] || encode_utf8(hrp@) == seq![
            110u8,
            115u8,
            101u8,
            99u8,
        ],
        data@.len() == 32,
    ensures
        encode_utf8(r@) == bech32_encoding(encode_utf8(hrp@), data@),
{
    let h = bech32::Hrp::parse(hrp).unwrap();
    bech32::encode::<bech32::Bech32>(h, data).unwrap()
}

/// Relies on bech32's checked parsing with the Bech32 checksum, which
/// inverts the encoder: a canonical encoding decodes to the lowercase
/// human-readable part and the bytes it was made from.
#[verifier::external_body]
pub fn bech32_decode(s: &str) -> (r: Option<(String, Vec<u8>)>)
    ensures
        r is None ==> (forall|h: Seq<u8>, d: Seq<u8>| encode_utf8(s@) != #[trigger] bech32_encoding(h, d)),
        r matches Some(p) ==> (forall|h: Seq<u8>, d: Seq<u8>| encode_utf8(s@) == #[trigger] bech32_encoding(h, d) ==> encode_utf8(p.0@) == h && p.1@ == d),
{
    let c = bech32::primitives::decode::CheckedHrpstring::new::<bech32::Bech32>(s).ok()?;
    let data: Vec<u8> = c.byte_iter().collect();
    Some((c.hrp().to_lowercase(), data))
}

/// Relies on String::from_utf8: succeeds exactly on valid UTF-8 (in
/// particular on ASCII) and returns the string with those very bytes.
#[verifier::external_body]
pub fn bytes_to_string(b: Vec<u8>) -> (r: Option<String>)
    ensures
        r matches Some(s) ==> encode_utf8(s@) == b@,
        r is Some <==> valid_utf8(b@),
        (forall|i: int| 0 <= i < b@.len() ==> b@[i] < 128) ==> r is Some,
{
    String::from_utf8(b).ok()
}

} // verus!
