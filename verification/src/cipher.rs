//! The version-2 authenticated encryption construction: length-hiding
//! padding with a two-byte big-endian length prefix, ChaCha20 under
//! per-message keys, HMAC-SHA256 over nonce and ciphertext, and the
//! versioned payload layout `version(1) | nonce(32) | ciphertext | mac(32)`.

use vstd::prelude::*;

use crate::kdf::{enc_key_of, enc_nonce_of, mac_key_of, message_keys};
use crate::padding::{calc_padded_len, lemma_padded_len_bounds, padded_len};
use crate::primitives::{
    chacha20_apply, chacha20_apply_exec, chacha20_keystream_byte, ct_eq, hmac_sha256,
    hmac_sha256_exec,
};
use crate::util::push_all;
use crate::Error;
use vstd::slice::{slice_subrange, slice_to_vec};

verus! {

/// The version byte of the supported scheme.
pub open spec fn version_byte() -> u8 {
    2
}

/// A payload is too short below 99 bytes: version, nonce, the least
/// ciphertext (2-byte prefix plus 32-byte padding bucket), and the MAC.
pub open spec fn min_payload_len() -> nat {
    99
}

/// The two-byte big-endian image of a length below 65536.
pub open spec fn be16(n: nat) -> Seq<u8> {
    seq![(n / 256) as u8, (n % 256) as u8]
}

/// The padded plaintext: length prefix, plaintext, zero padding up to
/// the bucket length.
pub open spec fn pad(m: Seq<u8>) -> Seq<u8> {
    be16(m.len()) + m + Seq::new((padded_len(m.len()) - m.len()) as nat, |i: int| 0u8)
}

/// The ciphertext of `m` under conversation key `k` and message nonce
/// `nonce`: ChaCha20 of the padded plaintext under the expanded keys.
pub open spec fn ciphertext_of(k: Seq<u8>, nonce: Seq<u8>, m: Seq<u8>) -> Seq<u8> {
    chacha20_apply(enc_key_of(k, nonce), enc_nonce_of(k, nonce), pad(m))
}

/// The authentication tag over associated data (the nonce) and the
/// ciphertext, under the expanded MAC key.
pub open spec fn mac_of(k: Seq<u8>, nonce: Seq<u8>, c: Seq<u8>) -> Seq<u8> {
    hmac_sha256(mac_key_of(k, nonce), nonce + c)
}

/// The full sealed payload for conversation key `k`, nonce, and
/// plaintext `m`, before base64 framing.
pub open spec fn seal(k: Seq<u8>, nonce: Seq<u8>, m: Seq<u8>) -> Seq<u8> {
    seq![version_byte()] + nonce + ciphertext_of(k, nonce, m) + mac_of(
        k,
        nonce,
        ciphertext_of(k, nonce, m),
    )
}

/// The result of opening a payload under conversation key `k`: the
/// length check, then the version check, then MAC verification before
/// any decryption, then the length prefix and padding check.
pub open spec fn open_payload(k: Seq<u8>, b: Seq<u8>) -> Result<Seq<u8>, Error> {
    if b.len() < min_payload_len() {
        Err(Error::Decode)
    } else if b[0] != version_byte() {
        Err(Error::UnsupportedVersion)
    } else {
        let nonce = b.subrange(1, 33);
        let c = b.subrange(33, b.len() - 32);
        let tag = b.subrange(b.len() - 32, b.len() as int);
        if tag != mac_of(k, nonce, c) {
            Err(Error::Authentication)
        } else {
            let padded = chacha20_apply(enc_key_of(k, nonce), enc_nonce_of(k, nonce), c);
            let plen = (padded[0] as nat) * 256 + (padded[1] as nat);
            if padded.len() == 2 + padded_len(plen) {
                Ok(padded.subrange(2, 2 + plen as int))
            } else {
                Err(Error::Decode)
            }
        }
    }
}

/// Opening inverts sealing: under the same conversation key, a sealed
/// payload authenticates and yields exactly the sealed plaintext.
pub proof fn lemma_open_seal(k: Seq<u8>, nonce: Seq<u8>, m: Seq<u8>)
    requires
        nonce.len() == 32,
        m.len() <= 65535,
    ensures
        open_payload(k, seal(k, nonce, m)) matches Ok(p) && p =~= m,
{
    lemma_padded_len_bounds(m.len());
    let ek = enc_key_of(k, nonce);
    let en = enc_nonce_of(k, nonce);
    let c = ciphertext_of(k, nonce, m);
    let tag = mac_of(k, nonce, c);
    let b = seal(k, nonce, m);
    assert(pad(m).len() == 2 + padded_len(m.len()));
    assert(c.len() == pad(m).len());
    assert(b.len() == 65 + c.len());
    assert(b.len() >= min_payload_len());
    assert(b[0] == version_byte());
    assert(b.subrange(1, 33) =~= nonce);
    assert(b.subrange(33, b.len() - 32) =~= c);
    assert(b.subrange(b.len() - 32, b.len() as int) =~= tag);
    let padded = chacha20_apply(ek, en, c);
    assert forall|i: int| 0 <= i < padded.len() implies padded[i] == pad(m)[i] by {
        let x = pad(m)[i];
        let s = chacha20_keystream_byte(ek, en, i);
        assert(c[i] == (x ^ s));
        assert(((x ^ s) ^ s) == x) by (bit_vector);
    }
    assert(padded =~= pad(m));
    assert(padded[0] == (m.len() / 256) as u8);
    assert(padded[1] == (m.len() % 256) as u8);
    assert((padded[0] as nat) * 256 + (padded[1] as nat) == m.len()) by {
        assert(m.len() / 256 <= 255);
        assert((m.len() / 256) * 256 + m.len() % 256 == m.len()) by (nonlinear_arith);
    }
    assert(padded.len() == 2 + padded_len(m.len()));
    assert(padded.subrange(2, 2 + m.len() as int) =~= m);
}

/// Tampering with the tag is always caught: a payload equal to a sealed
/// one everywhere but in its MAC region fails authentication.
pub proof fn lemma_mac_tamper(k: Seq<u8>, nonce: Seq<u8>, m: Seq<u8>, b2: Seq<u8>)
    requires
        nonce.len() == 32,
        m.len() <= 65535,
        b2.len() == seal(k, nonce, m).len(),
        b2.subrange(0, b2.len() - 32) == seal(k, nonce, m).subrange(
            0,
            seal(k, nonce, m).len() - 32,
        ),
        b2.subrange(b2.len() - 32, b2.len() as int) != seal(k, nonce, m).subrange(
            seal(k, nonce, m).len() - 32,
            seal(k, nonce, m).len() as int,
        ),
    ensures
        open_payload(k, b2) == Err::<Seq<u8>, Error>(Error::Authentication),
{
    lemma_padded_len_bounds(m.len());
    let b = seal(k, nonce, m);
    let c = ciphertext_of(k, nonce, m);
    let tag = mac_of(k, nonce, c);
    assert(pad(m).len() == 2 + padded_len(m.len()));
    assert(c.len() == pad(m).len());
    assert(b.len() == 65 + c.len());
    assert(b.subrange(1, 33) =~= nonce);
    assert(b.subrange(33, b.len() - 32) =~= c);
    assert(b.subrange(b.len() - 32, b.len() as int) =~= tag);
    let head = b2.subrange(0, b2.len() - 32);
    assert(b2[0] == head[0]);
    assert(b2[0] == version_byte());
    assert(b2.subrange(1, 33) =~= head.subrange(1, 33));
    assert(b.subrange(0, b.len() - 32).subrange(1, 33) =~= b.subrange(1, 33));
    assert(b2.subrange(1, 33) =~= nonce);
    assert(b2.subrange(33, b2.len() - 32) =~= head.subrange(33, head.len() as int));
    assert(b.subrange(0, b.len() - 32).subrange(33, b.len() - 32) =~= b.subrange(
        33,
        b.len() - 32,
    ));
    assert(b2.subrange(33, b2.len() - 32) =~= c);
    assert(b2.subrange(b2.len() - 32, b2.len() as int) != mac_of(k, nonce, c));
}

/// A payload that carries any other version byte is rejected as
/// unsupported, before any MAC verification.
pub proof fn lemma_version_reject(k: Seq<u8>, b: Seq<u8>)
    requires
        b.len() >= min_payload_len(),
        b[0] != version_byte(),
    ensures
        open_payload(k, b) == Err::<Seq<u8>, Error>(Error::UnsupportedVersion),
{
}

/// Build the padded plaintext of `m`.
fn pad_exec(m: &[u8]) -> (r: Vec<u8>)
    requires
        m@.len() <= 65535,
    ensures
        r@ =~= pad(m@),
        r@.len() == 2 + padded_len(m@.len()),
{
    proof {
        lemma_padded_len_bounds(m@.len());
    }
    let n = m.len();
    let target = calc_padded_len(n);
    let mut out: Vec<u8> = Vec::new();
    out.push((n / 256) as u8);
    out.push((n % 256) as u8);
    push_all(&mut out, m);
    let mut i = n;
    while i < target
        invariant
            n <= 65535,
            n == m@.len(),
            i <= target,
            target == padded_len(m@.len()),
            n <= i,
            out@ =~= be16(m@.len()) + m@ + Seq::new((i - n) as nat, |j: int| 0u8),
        decreases target - i,
    {
        out.push(0);
        assert(Seq::new((i + 1 - n) as nat, |j: int| 0u8) =~= Seq::new(
            (i - n) as nat,
            |j: int| 0u8,
        ).push(0u8));
        i = i + 1;
    }
    out
}

/// Seal plaintext `m` under conversation key `k` and message nonce
/// `nonce` into the versioned binary payload.
pub fn seal_payload(k: &[u8], nonce: &[u8], m: &[u8]) -> (r: Vec<u8>)
    requires
        k@.len() == 32,
        nonce@.len() == 32,
        m@.len() <= 65535,
    ensures
        r@ =~= seal(k@, nonce@, m@),
{
    let keys = message_keys(k, nonce);
    let padded = pad_exec(m);
    let c = chacha20_apply_exec(keys.0.as_slice(), keys.1.as_slice(), &padded);
    assert(c@ =~= ciphertext_of(k@, nonce@, m@));
    let mut macin = slice_to_vec(nonce);
    push_all(&mut macin, c.as_slice());
    let tag = hmac_sha256_exec(keys.2.as_slice(), macin.as_slice());
    assert(tag@ =~= mac_of(k@, nonce@, c@));
    let mut out: Vec<u8> = Vec::new();
    out.push(2);
    push_all(&mut out, nonce);
    push_all(&mut out, c.as_slice());
    push_all(&mut out, tag.as_slice());
    assert(out@ =~= seal(k@, nonce@, m@));
    out
}

/// Open a versioned binary payload under conversation key `k`: exactly
/// the result of `open_payload`, with MAC verification in constant time
/// and strictly before any decryption.
pub fn open_payload_exec(k: &[u8], b: &[u8]) -> (r: Result<Vec<u8>, Error>)
    requires
        k@.len() == 32,
    ensures
        r matches Ok(p) ==> (open_payload(k@, b@) matches Ok(q) && q =~= p@),
        r matches Err(e) ==> open_payload(k@, b@) == Err::<Seq<u8>, Error>(e),
{
    let n = b.len();
    if n < 99 {
        return Err(Error::Decode);
    }
    if *vstd::slice::slice_index_get(b, 0) != 2 {
        return Err(Error::UnsupportedVersion);
    }
    let nonce = slice_subrange(b, 1, 33);
    let c = slice_subrange(b, 33, n - 32);
    let tag = slice_subrange(b, n - 32, n);
    let keys = message_keys(k, nonce);
    let mut macin = slice_to_vec(nonce);
    push_all(&mut macin, c);
    let computed = hmac_sha256_exec(keys.2.as_slice(), macin.as_slice());
    assert(computed@ =~= mac_of(k@, nonce@, c@));
    if !ct_eq(tag, computed.as_slice()) {
        return Err(Error::Authentication);
    }
    let cv = slice_to_vec(c);
    let padded = chacha20_apply_exec(keys.0.as_slice(), keys.1.as_slice(), &cv);
    assert(padded@ =~= chacha20_apply(enc_key_of(k@, nonce@), enc_nonce_of(k@, nonce@), b@.subrange(33, b@.len() - 32)));
    let plen: usize = (*vstd::slice::slice_index_get(padded.as_slice(), 0) as usize) * 256 + (
    *vstd::slice::slice_index_get(padded.as_slice(), 1) as usize);
    proof {
        lemma_padded_len_bounds(plen as nat);
    }
    if padded.len() != 2 + calc_padded_len(plen) {
        return Err(Error::Decode);
    }
    let p = slice_to_vec(slice_subrange(padded.as_slice(), 2, 2 + plen));
    Ok(p)
}

} // verus!
