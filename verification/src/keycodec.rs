//! Canonical textual key encodings: raw lowercase hexadecimal and the
//! checksummed bech32 form with a distinct human-readable prefix for
//! secret and public keys. The selector enum picks the encoding; the
//! kind picks the prefix.

use vstd::prelude::*;

use crate::hexcode::{hex_decode, hex_encode, hex_of, lemma_hex_round_trip, unhex, valid_hex};
use crate::primitives::{bech32_decode, bech32_encode, bech32_encoding, bytes_to_string};
use crate::util::bytes_eq;
use crate::Error;
use vstd::utf8::encode_utf8;

verus! {

/// Which textual encoding a key travels in.
#[derive(Clone, Copy, Debug, PartialEq, Eq, Structural)]
pub enum KeyEncoding {
    /// Raw lowercase hexadecimal, 64 characters for a 32-byte key.
    Hex,
    /// Checksummed bech32 with an explicit kind prefix.
    Bech32,
}

/// Whether a key is a secret or a public key; fixes the bech32 prefix.
#[derive(Clone, Copy, Debug, PartialEq, Eq, Structural)]
pub enum KeyKind {
    Secret,
    Public,
}

/// The human-readable bech32 prefix of a key kind, as ASCII bytes:
/// "nsec" for secret keys, "npub" for public keys.
pub open spec fn hrp_of(kind: KeyKind) -> Seq<u8> {
    match kind {
        KeyKind::Secret => seq![110u8, 115u8, 101u8, 99u8],
        KeyKind::Public => seq![110u8, 112u8, 117u8, 98u8],
    }
}

/// The canonical textual image of a 32-byte key, as ASCII bytes.
pub open spec fn encoded_key(kind: KeyKind, enc: KeyEncoding, b: Seq<u8>) -> Seq<u8> {
    match enc {
        KeyEncoding::Hex => hex_of(b),
        KeyEncoding::Bech32 => bech32_encoding(hrp_of(kind), b),
    }
}

/// The exec image of a key kind's bech32 prefix.
fn hrp_exec(kind: KeyKind) -> (r: Vec<u8>)
    ensures
        r@ =~= hrp_of(kind),
{
    let mut v: Vec<u8> = Vec::new();
    v.push(110);
    match kind {
        KeyKind::Secret => {
            v.push(115);
            v.push(101);
            v.push(99);
        },
        KeyKind::Public => {
            v.push(112);
            v.push(117);
            v.push(98);
        },
    }
    v
}

/// Encode a 32-byte key in the chosen encoding. Total and pure: every
/// 32-byte value has exactly the canonical image.
pub fn encode_key(kind: KeyKind, enc: KeyEncoding, b: &[u8]) -> (r: String)
    requires
        b@.len() == 32,
    ensures
        encode_utf8(r@) == encoded_key(kind, enc, b@),
{
    match enc {
        KeyEncoding::Hex => {
            let h = hex_encode(b);
            proof {
                lemma_hex_round_trip(b@);
                assert forall|i: int| 0 <= i < h@.len() implies h@[i] < 128 by {
                    assert(h@[i] == hex_of(b@)[i]);
                }
            }
            match bytes_to_string(h) {
                Some(s) => s,
                None => {
                    proof {
                        assert(false);
                    }
                    String::new()
                },
            }
        },
        KeyEncoding::Bech32 => {
            let hrp = hrp_exec(kind);
            match bytes_to_string(hrp) {
                Some(hs) => {
                    let r = bech32_encode(hs.as_str(), b);
                    assert(encode_utf8(r@) == bech32_encoding(hrp_of(kind), b@));
                    r
                },
                None => {
                    proof {
                        assert(false);
                    }
                    String::new()
                },
            }
        },
    }
}

/// Decode a textual key of the chosen kind and encoding. Succeeds on
/// every canonical image of a 32-byte key and returns exactly the
/// encoded bytes; ill-formed hex (wrong length, character set or case)
/// and bech32 text with a wrong checksum, prefix or length fail with
/// the format error.
pub fn decode_key(kind: KeyKind, enc: KeyEncoding, s: &str) -> (r: Result<Vec<u8>, Error>)
    ensures
        r matches Ok(v) ==> v@.len() == 32,
        r matches Err(e) ==> e == Error::Format,
        forall|d: Seq<u8>| d.len() == 32 && encode_utf8(s@) == #[trigger] encoded_key(kind, enc, d)
            ==> (r matches Ok(v) && v@ == d),
        enc == KeyEncoding::Hex ==> (r is Ok <==> (valid_hex(encode_utf8(s@)) && encode_utf8(
            s@,
        ).len() == 64)),
        enc == KeyEncoding::Hex ==> (r matches Ok(v) ==> v@ == unhex(encode_utf8(s@))
            && encode_utf8(s@) == hex_of(v@)),
{
    match enc {
        KeyEncoding::Hex => {
            let bytes = vstd::string::StrSliceExecFns::as_bytes_vec(s);
            match hex_decode(bytes.as_slice()) {
                Some(v) => {
                    if v.len() == 32 {
                        proof {
                            assert forall|d: Seq<u8>|
                                d.len() == 32 && encode_utf8(s@) == #[trigger] encoded_key(
                                    kind,
                                    enc,
                                    d,
                                ) implies v@ == d by {
                                lemma_hex_round_trip(d);
                            }
                        }
                        Ok(v)
                    } else {
                        proof {
                            assert forall|d: Seq<u8>|
                                d.len() == 32 && encode_utf8(s@) == #[trigger] encoded_key(
                                    kind,
                                    enc,
                                    d,
                                ) implies false by {
                                lemma_hex_round_trip(d);
                            }
                        }
                        Err(Error::Format)
                    }
                },
                None => {
                    proof {
                        assert forall|d: Seq<u8>|
                            d.len() == 32 && encode_utf8(s@) == #[trigger] encoded_key(
                                kind,
                                enc,
                                d,
                            ) implies false by {
                            lemma_hex_round_trip(d);
                        }
                    }
                    Err(Error::Format)
                },
            }
        },
        KeyEncoding::Bech32 => {
            match bech32_decode(s) {
                Some(p) => {
                    let hrp = hrp_exec(kind);
                    let hb = vstd::string::StrSliceExecFns::as_bytes_vec(p.0.as_str());
                    if bytes_eq(hb.as_slice(), hrp.as_slice()) && p.1.len() == 32 {
                        Ok(p.1)
                    } else {
                        Err(Error::Format)
                    }
                },
                None => Err(Error::Format),
            }
        },
    }
}

} // verus!
