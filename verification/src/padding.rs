//! The length-hiding padding schedule of the version-2 scheme: a
//! plaintext is padded to the next value of a bucket schedule whose
//! chunk grows with the next power of two of the length.

use vstd::prelude::*;

verus! {

/// Whether `p` is a power of two.
pub open spec fn is_pow2(p: nat) -> bool
    decreases p,
{
    if p == 0 {
        false
    } else if p == 1 {
        true
    } else if p % 2 == 0 {
        is_pow2(p / 2)
    } else {
        false
    }
}

/// The smallest power of two that is at least `n` (and 1 for `n == 0`).
pub open spec fn next_pow2(n: nat) -> nat
    decreases n,
{
    if n <= 1 {
        1
    } else {
        2 * next_pow2((n + 1) / 2)
    }
}

/// `next_pow2` yields a power of two no smaller than its argument.
pub proof fn lemma_next_pow2(n: nat)
    ensures
        is_pow2(next_pow2(n)),
        next_pow2(n) >= n || n == 0,
        next_pow2(n) >= 1,
    decreases n,
{
    if n <= 1 {
    } else {
        let h = (n + 1) / 2;
        lemma_next_pow2(h);
        assert(2 * next_pow2(h) >= 2 * h >= n);
        assert(is_pow2(2 * next_pow2(h))) by {
            assert((2 * next_pow2(h)) % 2 == 0 && (2 * next_pow2(h)) / 2 == next_pow2(h));
        }
    }
}

/// `next_pow2` is minimal: no smaller power of two reaches `n`.
pub proof fn lemma_next_pow2_minimal(n: nat, p: nat)
    requires
        is_pow2(p),
        p >= n,
    ensures
        next_pow2(n) <= p,
    decreases n,
{
    if n <= 1 {
        assert(p >= 1);
    } else {
        let h = (n + 1) / 2;
        assert(p % 2 == 0 && is_pow2(p / 2)) by {
            assert(p >= n >= 2);
        }
        assert(p / 2 >= h) by {
            if n % 2 == 0 {
                assert(2 * h == n);
            } else {
                assert(2 * h == n + 1);
                assert(p >= n + 1) by {
                    assert(p % 2 == 0 && n % 2 == 1);
                }
            }
        }
        lemma_next_pow2_minimal(h, p / 2);
    }
}

/// Distinct powers of two differ by at least a factor of two.
pub proof fn lemma_pow2_gap(a: nat, b: nat)
    requires
        is_pow2(a),
        is_pow2(b),
        a < b,
    ensures
        2 * a <= b,
    decreases b,
{
    if a == 1 {
        assert(b % 2 == 0);
        assert(b >= 2);
    } else {
        assert(a % 2 == 0 && b % 2 == 0);
        lemma_pow2_gap(a / 2, b / 2);
    }
}

/// The padded length of an `n`-byte plaintext: at least 32, and a
/// multiple of a chunk that is one eighth of the next power of two
/// once that power exceeds 256.
pub open spec fn padded_len(n: nat) -> nat {
    if n <= 32 {
        32
    } else {
        let np = next_pow2(n);
        let chunk: nat = if np <= 256 {
            32
        } else {
            np / 8
        };
        chunk * (((n - 1) as nat) / chunk + 1)
    }
}

/// Bounds of the padding schedule on the supported plaintext lengths.
pub proof fn lemma_padded_len_bounds(n: nat)
    requires
        n <= 65535,
    ensures
        padded_len(n) >= 32,
        padded_len(n) >= n,
        padded_len(n) <= 81920,
{
    if n <= 32 {
    } else {
        let np = next_pow2(n);
        lemma_next_pow2(n);
        assert(is_pow2(65536nat)) by {
            reveal_with_fuel(is_pow2, 20);
        }
        lemma_next_pow2_minimal(n, 65536nat);
        let chunk: nat = if np <= 256 {
            32nat
        } else {
            np / 8
        };
        assert(32 <= chunk <= 8192);
        let q = ((n - 1) as nat) / chunk;
        assert(chunk * q <= n - 1 < chunk * (q + 1)) by (nonlinear_arith)
            requires
                chunk >= 1 && q == ((n - 1) as nat) / chunk && n >= 1,
        ;
        assert(padded_len(n) == chunk * (q + 1));
        assert(chunk * (q + 1) == chunk * q + chunk) by (nonlinear_arith);
        assert(chunk * (q + 1) >= n);
        assert(chunk * (q + 1) <= n - 1 + chunk <= 81920);
        assert(chunk * (q + 1) >= chunk) by (nonlinear_arith)
            requires
                q + 1 >= 1 && chunk >= 0,
        ;
    }
}

/// Compute the padded length of an `n`-byte plaintext.
pub fn calc_padded_len(n: usize) -> (r: usize)
    requires
        n <= 65535,
    ensures
        r == padded_len(n as nat),
        32 <= r <= 81920,
        r >= n,
{
    proof {
        lemma_padded_len_bounds(n as nat);
    }
    if n <= 32 {
        return 32;
    }
    proof {
        lemma_next_pow2(n as nat);
        assert(is_pow2(65536nat)) by {
            reveal_with_fuel(is_pow2, 20);
        }
        lemma_next_pow2_minimal(n as nat, 65536nat);
    }
    let mut p: usize = 1;
    while p < n
        invariant
            1 <= p,
            n <= 65535,
            is_pow2(p as nat),
            p as nat <= next_pow2(n as nat),
            next_pow2(n as nat) <= 65536,
        decreases 2 * n - p,
    {
        proof {
            lemma_next_pow2(n as nat);
            lemma_pow2_gap(p as nat, next_pow2(n as nat));
        }
        p = p * 2;
    }
    proof {
        lemma_next_pow2_minimal(n as nat, p as nat);
    }
    let chunk: usize = if p <= 256 {
        32
    } else {
        p / 8
    };
    let q = (n - 1) / chunk;
    proof {
        assert(32 <= chunk <= 8192);
        assert(q + 1 <= n);
        assert(chunk * (q + 1) <= 8192 * 65535) by (nonlinear_arith)
            requires
                chunk <= 8192 && q + 1 <= 65535,
        ;
    }
    chunk * (q + 1)
}

} // verus!
