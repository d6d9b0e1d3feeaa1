use vstd::arithmetic::div_mod::lemma_fundamental_div_mod_converse;
use vstd::prelude::*;

verus! {

/// Integer division rounded toward zero, for a positive divisor.
pub open spec fn div_trunc(n: int, d: int) -> int {
    if n >= 0 {
        n / d
    } else {
        -((-n) / d)
    }
}

/// Rounding toward zero commutes with negation.
pub proof fn lemma_div_trunc_neg(n: int, d: int)
    requires
        d > 0,
    ensures
        div_trunc(-n, d) == -div_trunc(n, d),
{
    if n == 0 {
        assert(0int / d == 0) by (nonlinear_arith)
            requires
                d > 0,
        ;
    }
}

/// Bounds on a quotient rounded toward zero.
pub proof fn lemma_div_trunc_bounds(n: int, d: int, m: int)
    requires
        d > 0,
        -m <= n <= m,
        m >= 0,
    ensures
        -m <= div_trunc(n, d) <= m,
        n >= 0 ==> div_trunc(n, d) >= 0,
        n <= 0 ==> div_trunc(n, d) <= 0,
{
    if n >= 0 {
        lemma_nonneg_div_le(n, d);
    } else {
        lemma_nonneg_div_le(-n, d);
    }
}

proof fn lemma_nonneg_div_le(n: int, d: int)
    requires
        d > 0,
        n >= 0,
    ensures
        0 <= n / d <= n,
{
    let q = n / d;
    let r = n % d;
    vstd::arithmetic::div_mod::lemma_fundamental_div_mod(n, d);
    assert(0 <= q <= n) by (nonlinear_arith)
        requires
            n == d * q + r,
            0 <= r < d,
            d > 0,
            n >= 0,
    ;
}

/// `n / d` rounded toward zero, for a positive `d`.
pub fn div_trunc_i128(n: i128, d: i128) -> (q: i128)
    requires
        d > 0,
        n > i128::MIN,
    ensures
        q == div_trunc(n as int, d as int),
{
    if n >= 0 {
        proof {
            lemma_nonneg_div_le(n as int, d as int);
        }
        n / d
    } else {
        let m: i128 = -n;
        proof {
            lemma_nonneg_div_le(m as int, d as int);
        }
        let q: i128 = m / d;
        -q
    }
}

/// Greatest common divisor of two natural numbers (Euclid).
pub open spec fn gcd(a: nat, b: nat) -> nat
    decreases b,
{
    if b == 0 {
        a
    } else {
        gcd(b, a % b)
    }
}

pub proof fn lemma_gcd_bounds(a: nat, b: nat)
    ensures
        gcd(a, b) <= if a >= b { a } else { b },
        (a > 0 || b > 0) ==> gcd(a, b) > 0,
    decreases b,
{
    if b > 0 {
        let r = a % b;
        vstd::arithmetic::div_mod::lemma_fundamental_div_mod(a as int, b as int);
        assert(r < b);
        lemma_gcd_bounds(b, r);
        if a < b {
            lemma_small_mod(a, b);
        }
    }
}

proof fn lemma_small_mod(a: nat, b: nat)
    requires
        a < b,
    ensures
        a % b == a,
{
    lemma_fundamental_div_mod_converse(a as int, b as int, 0, a as int);
}

/// Greatest common divisor of two natural numbers.
pub fn gcd_u64(a: u64, b: u64) -> (g: u64)
    ensures
        g == gcd(a as nat, b as nat),
        g <= if a >= b { a } else { b },
        (a > 0 || b > 0) ==> g > 0,
{
    proof {
        lemma_gcd_bounds(a as nat, b as nat);
    }
    let mut x: u64 = a;
    let mut y: u64 = b;
    while y != 0
        invariant
            gcd(x as nat, y as nat) == gcd(a as nat, b as nat),
        decreases y,
    {
        let r: u64 = x % y;
        proof {
            vstd::arithmetic::div_mod::lemma_fundamental_div_mod(x as int, y as int);
        }
        x = y;
        y = r;
    }
    x
}

/// Integer square root: the largest `r` with `r * r <= n`.
pub open spec fn isqrt(n: nat) -> nat
    decreases n,
{
    if n == 0 {
        0
    } else {
        let r = isqrt((n - 1) as nat);
        if (r + 1) * (r + 1) <= n {
            r + 1
        } else {
            r
        }
    }
}

pub proof fn lemma_isqrt_is_root(n: nat)
    ensures
        isqrt(n) * isqrt(n) <= n,
        n < (isqrt(n) + 1) * (isqrt(n) + 1),
    decreases n,
{
    if n == 0 {
        assert(isqrt(0) == 0);
        assert(0nat * 0nat == 0) by (nonlinear_arith);
        assert(1nat * 1nat == 1) by (nonlinear_arith);
    } else {
        lemma_isqrt_is_root((n - 1) as nat);
        let r = isqrt((n - 1) as nat);
        assert(isqrt(n) == if (r + 1) * (r + 1) <= n { r + 1 } else { r });
        if (r + 1) * (r + 1) <= n {
            assert(n < (r + 2) * (r + 2)) by (nonlinear_arith)
                requires
                    n - 1 < (r + 1) * (r + 1),
                    r >= 0,
            ;
        }
    }
}

proof fn lemma_root_unique(n: nat, r: nat, s: nat)
    requires
        r * r <= n < (r + 1) * (r + 1),
        s * s <= n < (s + 1) * (s + 1),
    ensures
        r == s,
{
    if r < s {
        assert((r + 1) * (r + 1) <= s * s) by (nonlinear_arith)
            requires
                r + 1 <= s,
        ;
    } else if s < r {
        assert((s + 1) * (s + 1) <= r * r) by (nonlinear_arith)
            requires
                s + 1 <= r,
        ;
    }
}

/// Any `k` with `k * k <= n` is at most the integer square root of `n`.
pub proof fn lemma_isqrt_ge(n: nat, k: nat)
    requires
        k * k <= n,
    ensures
        k <= isqrt(n),
{
    lemma_isqrt_is_root(n);
    let r = isqrt(n);
    if k > r {
        assert((r + 1) * (r + 1) <= k * k) by (nonlinear_arith)
            requires
                k >= r + 1,
                r >= 0,
        ;
    }
}

/// The integer square root of a perfect square is its root.
pub proof fn lemma_isqrt_square(k: nat)
    ensures
        isqrt(k * k) == k,
{
    lemma_isqrt_is_root(k * k);
    assert(k * k < (k + 1) * (k + 1)) by (nonlinear_arith);
    lemma_root_unique(k * k, k, isqrt(k * k));
}

/// Integer square root of a number below 2^100.
pub fn isqrt_u128(n: u128) -> (r: u128)
    requires
        n < 0x10_0000_0000_0000_0000_0000_0000,
    ensures
        r as nat == isqrt(n as nat),
        r <= 0x4_0000_0000_0000,
{
    let mut lo: u128 = 0;
    let mut hi: u128 = 0x4_0000_0000_0000;
    assert(n < 0x4_0000_0000_0000 * 0x4_0000_0000_0000) by (nonlinear_arith)
        requires
            n < 0x10_0000_0000_0000_0000_0000_0000,
    ;
    while lo + 1 < hi
        invariant
            lo < hi <= 0x4_0000_0000_0000,
            lo * lo <= n,
            n < hi * hi,
        decreases hi - lo,
    {
        let mid: u128 = lo + (hi - lo) / 2;
        assert(mid * mid <= 0x4_0000_0000_0000 * 0x4_0000_0000_0000) by (nonlinear_arith)
            requires
                mid <= 0x4_0000_0000_0000,
        ;
        if mid * mid <= n {
            lo = mid;
        } else {
            hi = mid;
        }
    }
    proof {
        lemma_isqrt_is_root(n as nat);
        lemma_root_unique(n as nat, lo as nat, isqrt(n as nat));
    }
    lo
}

} // verus!
