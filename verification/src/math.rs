//! Arithmetic of the language: 32-bit wrapping operators, truncating
//! division and remainder with a zero divisor yielding 0, Euclidean
//! (never negative) wrapping for toroidal indexing, and the integer square
//! root used by `dist`.

use vstd::prelude::*;

verus! {

/// The magnitude of `v`.
pub open spec fn abs_int(v: int) -> int {
    if v < 0 {
        -v
    } else {
        v
    }
}

/// Truncating 32-bit division: quotient toward zero, 0 on a zero divisor,
/// and `i32::MIN / -1` wrapping to `i32::MIN`.
pub open spec fn spec_div32(l: int, r: int) -> int {
    if r == 0 {
        0
    } else {
        let q = abs_int(l) / abs_int(r);
        if (l < 0) == (r < 0) {
            if q >= 0x8000_0000 {
                -0x8000_0000
            } else {
                q
            }
        } else {
            -q
        }
    }
}

/// Truncating 32-bit remainder: the sign follows the dividend, 0 on a zero
/// divisor.
pub open spec fn spec_mod32(l: int, r: int) -> int {
    if r == 0 {
        0
    } else {
        let m = abs_int(l) % abs_int(r);
        if l < 0 {
            -m
        } else {
            m
        }
    }
}

/// The magnitude of `v` as an unsigned 64-bit value.
fn abs_u64(v: i32) -> (r: u64)
    ensures
        r == abs_int(v as int),
{
    if v < 0 {
        (-(v as i64)) as u64
    } else {
        v as u64
    }
}

/// Divides with truncation toward zero; a zero divisor yields 0.
pub fn div32(l: i32, r: i32) -> (q: i32)
    ensures
        q as int == spec_div32(l as int, r as int),
{
    if r == 0 {
        0
    } else {
        let la = abs_u64(l);
        let ra = abs_u64(r);
        let qu = la / ra;
        if (l < 0) == (r < 0) {
            if qu >= 0x8000_0000u64 {
                i32::MIN
            } else {
                qu as i32
            }
        } else {
            (-(qu as i64)) as i32
        }
    }
}

/// The remainder of truncating division; a zero divisor yields 0.
pub fn mod32(l: i32, r: i32) -> (m: i32)
    ensures
        m as int == spec_mod32(l as int, r as int),
{
    if r == 0 {
        0
    } else {
        let la = abs_u64(l);
        let ra = abs_u64(r);
        let mu = la % ra;
        if l < 0 {
            (-(mu as i64)) as i32
        } else {
            mu as i32
        }
    }
}

/// Euclidean wrap of a coordinate into `[0, w)`; 0 when `w` is not a
/// positive width.
pub open spec fn spec_wrap(v: int, w: int) -> int {
    if w <= 0 {
        0
    } else {
        v % w
    }
}

/// Wraps a coordinate into `[0, w)`, never negative.
pub fn wrap_coord(v: i32, w: i32) -> (r: i32)
    ensures
        r as int == spec_wrap(v as int, w as int),
        w > 0 ==> 0 <= r < w,
{
    if w <= 0 {
        0
    } else if v >= 0 {
        ((v as u64) % (w as u64)) as i32
    } else {
        let m = ((-(v as i64)) as u64) % (w as u64);
        proof {
            lemma_wrap_negative(v as int, w as int, m as int);
        }
        if m == 0 {
            0
        } else {
            w - (m as i32)
        }
    }
}

proof fn lemma_wrap_negative(v: int, w: int, m: int)
    requires
        w > 0,
        v < 0,
        m == (-v) % w,
    ensures
        m == 0 ==> v % w == 0,
        m != 0 ==> v % w == w - m,
{
    vstd::arithmetic::div_mod::lemma_mod_neg_neg(v, w);
    vstd::arithmetic::div_mod::lemma_mod_twice(v, w);
    assert((-v) % w == m);
    vstd::arithmetic::div_mod::lemma_add_mod_noop(v, -v, w);
    assert((v % w + (-v) % w) % w == 0int % w);
    vstd::arithmetic::div_mod::lemma_small_mod(0nat, w as nat);
    vstd::arithmetic::div_mod::lemma_mod_bound(v, w);
    assert(0 <= v % w < w);
    assert((v % w + m) % w == 0);
    if v % w + m < w {
        vstd::arithmetic::div_mod::lemma_small_mod((v % w + m) as nat, w as nat);
        assert(v % w + m == 0);
        assert(v % w == 0 && m == 0);
    } else {
        assert(v % w + m < 2 * w);
        vstd::arithmetic::div_mod::lemma_mod_sub_multiples_vanish(v % w + m, w);
        assert((v % w + m - w) % w == 0);
        vstd::arithmetic::div_mod::lemma_small_mod((v % w + m - w) as nat, w as nat);
        assert(v % w + m - w == 0);
    }
}

/// The integer square root: the greatest `r` with `r * r <= n` (0 for a
/// negative argument).
pub open spec fn spec_isqrt(n: int) -> int
    decreases n,
{
    if n <= 0 {
        0
    } else {
        let r = spec_isqrt(n - 1);
        if (r + 1) * (r + 1) <= n {
            r + 1
        } else {
            r
        }
    }
}

pub proof fn lemma_isqrt_bounds(n: int)
    requires
        n >= 0,
    ensures
        spec_isqrt(n) >= 0,
        spec_isqrt(n) * spec_isqrt(n) <= n,
        (spec_isqrt(n) + 1) * (spec_isqrt(n) + 1) > n,
    decreases n,
{
    if n > 0 {
        lemma_isqrt_bounds(n - 1);
        let r = spec_isqrt(n - 1);
        if (r + 1) * (r + 1) <= n {
            assert((r + 2) * (r + 2) > n) by (nonlinear_arith)
                requires
                    (r + 1) * (r + 1) > n - 1,
                    r >= 0,
            ;
        }
    }
}

pub proof fn lemma_isqrt_unique(n: int, r: int)
    requires
        n >= 0,
        r >= 0,
        r * r <= n,
        (r + 1) * (r + 1) > n,
    ensures
        r == spec_isqrt(n),
{
    lemma_isqrt_bounds(n);
    let s = spec_isqrt(n);
    assert(r == s) by (nonlinear_arith)
        requires
            r >= 0,
            s >= 0,
            r * r <= n,
            (r + 1) * (r + 1) > n,
            s * s <= n,
            (s + 1) * (s + 1) > n,
    ;
}

/// Computes the integer square root by bisection.
pub fn isqrt_u128(n: u128) -> (r: u64)
    requires
        n < 0x4_0000_0000_0000_0000u128,
    ensures
        r as int == spec_isqrt(n as int),
{
    if n == 0 {
        proof {
            lemma_isqrt_unique(0, 0);
        }
        return 0;
    }
    let mut lo: u128 = 0;
    let mut hi: u128 = 0x2_0000_0000u128;
    proof {
        assert(hi * hi > n) by (nonlinear_arith)
            requires
                hi == 0x2_0000_0000u128,
                n < 0x4_0000_0000_0000_0000u128,
        ;
    }
    while lo + 1 < hi
        invariant
            lo < hi,
            hi <= 0x2_0000_0000u128,
            lo * lo <= n,
            hi * hi > n,
        decreases hi - lo,
    {
        let mid = lo + (hi - lo) / 2;
        proof {
            assert(mid * mid <= u128::MAX) by (nonlinear_arith)
                requires
                    mid <= 0x2_0000_0000u128,
            ;
        }
        if mid * mid <= n {
            lo = mid;
        } else {
            hi = mid;
        }
    }
    proof {
        assert((lo + 1) * (lo + 1) > n);
        lemma_isqrt_unique(n as int, lo as int);
    }
    lo as u64
}

} // verus!
