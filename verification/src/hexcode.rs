//! Raw lowercase hexadecimal encoding of byte strings: one of the two
//! canonical textual key encodings. Total, pure, and a proved bijection
//! between byte strings and well-formed lowercase hex strings.

use vstd::prelude::*;
use vstd::utf8::encode_utf8;

verus! {

/// The lowercase hex digit for a nibble value.
pub open spec fn hex_digit(n: int) -> u8 {
    if n < 10 {
        (48 + n) as u8
    } else {
        (87 + n) as u8
    }
}

/// Lowercase hex encoding of a byte string, as ASCII bytes.
pub open spec fn hex_of(b: Seq<u8>) -> Seq<u8> {
    Seq::new(
        2 * b.len(),
        |i: int|
            if i % 2 == 0 {
                hex_digit(b[i / 2] as int / 16)
            } else {
                hex_digit(b[i / 2] as int % 16)
            },
    )
}

/// The nibble value of a lowercase hex digit byte, or -1.
pub open spec fn hex_val(c: u8) -> int {
    if 48 <= c <= 57 {
        c - 48
    } else if 97 <= c <= 102 {
        c - 87
    } else {
        -1
    }
}

pub open spec fn is_hex_digit(c: u8) -> bool {
    hex_val(c) >= 0
}

/// A well-formed lowercase hex string: even length, hex digits only.
pub open spec fn valid_hex(s: Seq<u8>) -> bool {
    s.len() % 2 == 0 && forall|i: int| 0 <= i < s.len() ==> is_hex_digit(#[trigger] s[i])
}

/// The byte string a well-formed hex string denotes.
pub open spec fn unhex(s: Seq<u8>) -> Seq<u8> {
    Seq::new(s.len() / 2, |i: int| (hex_val(s[2 * i]) * 16 + hex_val(s[2 * i + 1])) as u8)
}

/// Decoding inverts encoding: every byte string survives the round trip.
pub proof fn lemma_hex_round_trip(b: Seq<u8>)
    ensures
        valid_hex(hex_of(b)),
        unhex(hex_of(b)) =~= b,
{
    let h = hex_of(b);
    assert forall|i: int| 0 <= i < h.len() implies is_hex_digit(#[trigger] h[i]) by {
        let v = if i % 2 == 0 {
            b[i / 2] as int / 16
        } else {
            b[i / 2] as int % 16
        };
        assert(0 <= v < 16);
    }
    assert forall|i: int| 0 <= i < b.len() implies unhex(h)[i] == b[i] by {
        assert(h[2 * i] == hex_digit(b[i] as int / 16));
        assert(h[2 * i + 1] == hex_digit(b[i] as int % 16));
        assert(hex_val(hex_digit(b[i] as int / 16)) == b[i] as int / 16);
        assert(hex_val(hex_digit(b[i] as int % 16)) == b[i] as int % 16);
        assert(b[i] as int / 16 * 16 + b[i] as int % 16 == b[i] as int);
    }
}

/// Encoding also inverts decoding: a well-formed lowercase hex string
/// is the encoding of the bytes it denotes, so the encoding is canonical.
pub proof fn lemma_hex_canonical(s: Seq<u8>)
    requires
        valid_hex(s),
    ensures
        hex_of(unhex(s)) =~= s,
{
    let b = unhex(s);
    assert forall|i: int| 0 <= i < s.len() implies hex_of(b)[i] == s[i] by {
        let j = i / 2;
        assert(is_hex_digit(s[2 * j]) && is_hex_digit(s[2 * j + 1]));
        let hi = hex_val(s[2 * j]);
        let lo = hex_val(s[2 * j + 1]);
        assert(0 <= hi < 16 && 0 <= lo < 16);
        assert(b[j] as int == hi * 16 + lo);
        assert(b[j] as int / 16 == hi && b[j] as int % 16 == lo) by {
            assert((hi * 16 + lo) / 16 == hi && (hi * 16 + lo) % 16 == lo) by (nonlinear_arith)
                requires
                    0 <= hi < 16 && 0 <= lo < 16,
            ;
        }
        if i % 2 == 0 {
            assert(i == 2 * j);
        } else {
            assert(i == 2 * j + 1);
        }
    }
}

/// Encode bytes as lowercase hex ASCII.
pub fn hex_encode(b: &[u8]) -> (r: Vec<u8>)
    requires
        b@.len() <= 1000,
    ensures
        r@ =~= hex_of(b@),
{
    let mut out: Vec<u8> = Vec::new();
    let n = b.len();
    for i in 0..n
        invariant
            n == b@.len() <= 1000,
            out@.len() == 2 * i,
            forall|j: int| 0 <= j < 2 * i ==> out@[j] == hex_of(b@)[j],
    {
        let hi = b[i] / 16;
        let lo = b[i] % 16;
        out.push(if hi < 10 {
            48 + hi
        } else {
            87 + hi
        });
        out.push(if lo < 10 {
            48 + lo
        } else {
            87 + lo
        });
        assert(out@[2 * i as int] == hex_of(b@)[2 * i as int]);
        assert(out@[2 * i as int + 1] == hex_of(b@)[2 * i as int + 1]);
    }
    out
}

/// Hex images are ASCII: every digit byte is below 128.
pub proof fn lemma_hex_of_ascii(b: Seq<u8>)
    ensures
        forall|i: int| 0 <= i < hex_of(b).len() ==> #[trigger] hex_of(b)[i] < 128,
{
    assert forall|i: int| 0 <= i < hex_of(b).len() implies #[trigger] hex_of(b)[i] < 128 by {
        let v = if i % 2 == 0 {
            b[i / 2] as int / 16
        } else {
            b[i / 2] as int % 16
        };
        assert(0 <= v < 16);
    }
}

/// Encode bytes as a lowercase hex string.
pub fn hex_string(b: &[u8]) -> (r: String)
    requires
        b@.len() <= 1000,
    ensures
        encode_utf8(r@) == hex_of(b@),
{
    let h = hex_encode(b);
    proof {
        assert forall|i: int| 0 <= i < h@.len() implies h@[i] < 128 by {
            assert(h@[i] == hex_of(b@)[i]);
        }
    }
    match crate::primitives::bytes_to_string(h) {
        Some(s) => s,
        None => {
            proof {
                assert(false);
            }
            String::new()
        },
    }
}

/// Decode a lowercase hex ASCII string; `None` exactly on ill-formed input.
pub fn hex_decode(s: &[u8]) -> (r: Option<Vec<u8>>)
    ensures
        r is Some <==> valid_hex(s@),
        r matches Some(v) ==> v@ =~= unhex(s@) && s@ =~= hex_of(v@),
{
    let n = s.len();
    if n % 2 != 0 {
        return None;
    }
    let mut out: Vec<u8> = Vec::new();
    let mut i: usize = 0;
    while i < n
        invariant
            n == s@.len(),
            n % 2 == 0,
            i % 2 == 0,
            i <= n,
            out@.len() == i / 2,
            forall|j: int| 0 <= j < i ==> is_hex_digit(#[trigger] s@[j]),
            forall|j: int| 0 <= j < i / 2 ==> out@[j] == unhex(s@)[j],
        decreases n - i,
    {
        let hi = s[i];
        let lo = s[i + 1];
        let hv: u8 = if 48 <= hi && hi <= 57 {
            hi - 48
        } else if 97 <= hi && hi <= 102 {
            hi - 87
        } else {
            return None;
        };
        let lv: u8 = if 48 <= lo && lo <= 57 {
            lo - 48
        } else if 97 <= lo && lo <= 102 {
            lo - 87
        } else {
            return None;
        };
        out.push(hv * 16 + lv);
        assert(out@[i as int / 2] == unhex(s@)[i as int / 2]);
        i = i + 2;
    }
    proof {
        lemma_hex_canonical(s@);
        assert(out@ =~= unhex(s@));
    }
    Some(out)
}

} // verus!
