//! Identity management: generation of fresh keypairs from the secure
//! random source and recovery of a keypair from a stored secret. A
//! keypair is always consistent: the public key is derived from the
//! secret scalar.

use vstd::prelude::*;

use crate::primitives::{
    be_uint, derive_public, public_key_of, random_32, secp256k1_order, valid_secret_bytes,
};
use crate::Error;

verus! {

/// A secret scalar together with its derived x-only public key.
pub struct KeyPair {
    pub secret: Vec<u8>,
    pub public: Vec<u8>,
}

/// Well-formedness of a keypair: the secret is a valid scalar and the
/// public key is exactly the one derived from it.
pub open spec fn keypair_wf(kp: &KeyPair) -> bool {
    &&& valid_secret_bytes(kp.secret@)
    &&& kp.public@ == public_key_of(kp.secret@)
}

/// 256 to the power `n`.
pub open spec fn pow256(n: nat) -> nat
    decreases n,
{
    if n == 0 {
        1
    } else {
        256 * pow256((n - 1) as nat)
    }
}

/// A byte string with a zero leading byte denotes a value below 256 to
/// the power of the remaining length.
proof fn lemma_be_uint_msb_zero(s: Seq<u8>)
    requires
        s.len() >= 1,
        s[0] == 0,
    ensures
        be_uint(s) < pow256((s.len() - 1) as nat),
    decreases s.len(),
{
    if s.len() == 1 {
        assert(be_uint(s) == be_uint(s.drop_last()) * 256 + s.last() as nat);
        assert(be_uint(s.drop_last()) == 0);
    } else {
        let dl = s.drop_last();
        assert(dl[0] == 0);
        lemma_be_uint_msb_zero(dl);
        let p = pow256((s.len() - 2) as nat);
        assert(be_uint(s) == be_uint(dl) * 256 + s.last() as nat);
        assert(be_uint(dl) * 256 + (s.last() as nat) < p * 256) by (nonlinear_arith)
            requires
                be_uint(dl) < p && s.last() < 256,
        ;
        assert(pow256((s.len() - 1) as nat) == 256 * p);
    }
}

/// Clamp a 32-byte draw into the valid scalar range: zero the leading
/// byte, so the value stays far below the group order, and set the
/// trailing byte to one, so it cannot be zero.
fn clamp_scalar(draw: &Vec<u8>) -> (r: Vec<u8>)
    requires
        draw@.len() == 32,
    ensures
        valid_secret_bytes(r@),
{
    let mut sk: Vec<u8> = Vec::new();
    sk.push(0);
    let mut i: usize = 1;
    while i < 31
        invariant
            1 <= i <= 31,
            draw@.len() == 32,
            sk@.len() == i,
            sk@[0] == 0,
        decreases 31 - i,
    {
        sk.push(draw[i]);
        i = i + 1;
    }
    sk.push(1);
    proof {
        lemma_be_uint_msb_zero(sk@);
        assert(be_uint(sk@) == be_uint(sk@.drop_last()) * 256 + 1);
        assert(pow256(31) < secp256k1_order()) by {
            reveal_with_fuel(pow256, 40);
        }
    }
    sk
}

/// Draw random 32-byte scalars until one lies in the valid range, and
/// derive the matching public key. A draw outside the range is
/// astronomically unlikely; after a bounded number of rejections the
/// last draw is clamped into range, keeping 240 random bits.
pub fn generate_keypair() -> (r: KeyPair)
    ensures
        keypair_wf(&r),
        r.secret@.len() == 32,
        r.public@.len() == 32,
{
    let mut tries: usize = 0;
    while tries < 64
        invariant
            tries <= 64,
        decreases 64 - tries,
    {
        let sk = random_32();
        match derive_public(sk.as_slice()) {
            Some(p) => {
                return KeyPair { secret: sk, public: p };
            },
            None => {},
        }
        tries = tries + 1;
    }
    let draw = random_32();
    let sk = clamp_scalar(&draw);
    match derive_public(sk.as_slice()) {
        Some(p) => KeyPair { secret: sk, public: p },
        None => {
            proof {
                assert(false);
            }
            KeyPair { secret: sk, public: Vec::new() }
        },
    }
}

/// Recover the keypair of a stored 32-byte secret; fails exactly when
/// the scalar is out of range.
pub fn recover_keypair(sk: &[u8]) -> (r: Result<KeyPair, Error>)
    requires
        sk@.len() == 32,
    ensures
        r is Ok <==> valid_secret_bytes(sk@),
        r matches Ok(kp) ==> kp.secret@ == sk@ && keypair_wf(&kp) && kp.public@.len() == 32,
        r matches Err(e) ==> e == Error::InvalidKey,
{
    match derive_public(sk) {
        Some(p) => Ok(KeyPair { secret: vstd::slice::slice_to_vec(sk), public: p }),
        None => Err(Error::InvalidKey),
    }
}

} // verus!
