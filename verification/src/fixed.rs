//! Fixed-point numbers.
//!
//! A real number `r` is held as the integer `r * ONE`, rounded down. Stored
//! values are `i32`; intermediate results are carried in `i128`, which is wide
//! enough for every product and sum the renderer forms from stored values.
//!
//! Where a definition multiplies or divides by the scale it writes the
//! literal 65536 rather than `ONE`: a product by a literal is linear
//! arithmetic to the solver, a product by a named constant is not.

use vstd::prelude::*;

verus! {

/// The integer that stands for the real number one.
pub const ONE: i32 = 65536;

/// The quotient of `a` by `b`, rounded toward negative infinity; zero when
/// `b` is zero.
pub open spec fn floor_div(a: int, b: int) -> int {
    if b > 0 {
        a / b
    } else if b < 0 {
        (-a) / (-b)
    } else {
        0
    }
}

/// Whether `v` can be stored.
pub open spec fn fits(v: int) -> bool {
    i32::MIN <= v <= i32::MAX
}

/// `v` moved to the nearest value that can be stored.
pub open spec fn saturated(v: int) -> int {
    if v < i32::MIN {
        i32::MIN as int
    } else if v > i32::MAX {
        i32::MAX as int
    } else {
        v
    }
}

/// `v` held between `lo` and `hi`.
pub open spec fn clamped(v: int, lo: int, hi: int) -> int {
    if v < lo {
        lo
    } else if v > hi {
        hi
    } else {
        v
    }
}

/// Whether `r` is the integer square root of `n`: the largest integer whose
/// square does not exceed `n`.
pub open spec fn is_root(r: int, n: int) -> bool {
    0 <= r && r * r <= n < (r + 1) * (r + 1)
}

/// The integer square root of `n`; zero for a negative `n`.
pub open spec fn root(n: int) -> int {
    if n < 0 {
        0
    } else {
        choose|r: int| is_root(r, n)
    }
}

/// Two integers with the defining property of the square root of `n` are the
/// same integer.
pub proof fn lemma_root_unique(r: int, s: int, n: int)
    requires
        is_root(r, n),
        is_root(s, n),
    ensures
        r == s,
{
    assert(r == s) by (nonlinear_arith)
        requires
            0 <= r,
            0 <= s,
            r * r <= n < (r + 1) * (r + 1),
            s * s <= n < (s + 1) * (s + 1),
    ;
}

/// An integer with the defining property of the square root of `n` is
/// `root(n)`.
pub proof fn lemma_root_is(r: int, n: int)
    requires
        is_root(r, n),
    ensures
        root(n) == r,
{
    assert(n >= 0) by (nonlinear_arith)
        requires
            r * r <= n,
    ;
    lemma_root_unique(r, root(n), n);
}

/// Every number that is not negative has an integer square root.
pub proof fn lemma_root_exists(n: int)
    requires
        n >= 0,
    ensures
        is_root(root(n), n),
    decreases n,
{
    if n == 0 {
        assert(is_root(0, 0));
    } else {
        lemma_root_exists(n - 1);
        let r = root(n - 1);
        if (r + 1) * (r + 1) <= n {
            assert(is_root(r + 1, n)) by (nonlinear_arith)
                requires
                    0 <= r,
                    r * r <= n - 1 < (r + 1) * (r + 1),
                    (r + 1) * (r + 1) <= n,
            ;
        } else {
            assert(is_root(r, n));
        }
    }
}

/// The product of two bounded integers is bounded by the product of the
/// bounds.
pub proof fn lemma_product_bound(a: int, b: int, m: int, n: int)
    requires
        -m <= a <= m,
        -n <= b <= n,
    ensures
        -(m * n) <= a * b <= m * n,
{
    assert(-(m * n) <= a * b <= m * n) by (nonlinear_arith)
        requires
            -m <= a <= m,
            -n <= b <= n,
    ;
}

/// Rounding a quotient down keeps it between the bounds of its numerator
/// taken per unit of the divisor.
pub proof fn lemma_floor_div_between(a: int, b: int, lo: int, hi: int)
    requires
        b > 0,
        lo * b <= a <= hi * b,
    ensures
        lo <= floor_div(a, b) <= hi,
{
    let q = a / b;
    vstd::arithmetic::div_mod::lemma_fundamental_div_mod(a, b);
    vstd::arithmetic::div_mod::lemma_mod_bound(a, b);
    assert(lo <= q <= hi) by (nonlinear_arith)
        requires
            b > 0,
            lo * b <= a <= hi * b,
            a == b * q + a % b,
            0 <= a % b < b,
    ;
}

/// The magnitude of a quotient rounded down does not exceed that of its
/// numerator by more than the rounding.
pub proof fn lemma_floor_div_bound(a: int, b: int, m: int)
    requires
        b != 0,
        -m <= a <= m,
    ensures
        -m - 1 <= floor_div(a, b) <= m,
{
    if b > 0 {
        assert(-m - 1 <= a / b <= m) by (nonlinear_arith)
            requires
                b > 0,
                -m <= a <= m,
        ;
    } else {
        let n = -a;
        let d = -b;
        assert(-m - 1 <= n / d <= m) by (nonlinear_arith)
            requires
                d > 0,
                -m <= n <= m,
        ;
    }
}

/// Divides rounding toward negative infinity; by zero, gives zero.
pub fn div_floor(a: i128, b: i128) -> (q: i128)
    requires
        a > i128::MIN,
        b > i128::MIN,
    ensures
        q == floor_div(a as int, b as int),
{
    if b == 0 {
        return 0;
    }
    let n: i128 = if b > 0 { a } else { -a };
    let d: i128 = if b > 0 { b } else { -b };
    if n >= 0 {
        n / d
    } else {
        let m: i128 = -n;
        let below: i128 = (m - 1) / d;
        proof {
            let r = (m - 1) % (d as int);
            vstd::arithmetic::div_mod::lemma_fundamental_div_mod(m - 1, d as int);
            vstd::arithmetic::div_mod::lemma_mod_bound(m - 1, d as int);
            assert(n as int == (d as int) * (-(below as int) - 1) + (d - r - 1))
                by (nonlinear_arith)
                requires
                    m - 1 == (d as int) * (below as int) + r,
                    n as int == -(m as int),
            ;
            vstd::arithmetic::div_mod::lemma_fundamental_div_mod_converse_div(
                n as int,
                d as int,
                -(below as int) - 1,
                d - r - 1,
            );
        }
        -below - 1
    }
}

/// Moves a wide value to the nearest value that can be stored.
pub fn saturate(v: i128) -> (r: i32)
    ensures
        r == saturated(v as int),
{
    if v < i32::MIN as i128 {
        i32::MIN
    } else if v > i32::MAX as i128 {
        i32::MAX
    } else {
        v as i32
    }
}

/// The integer square root, by bisection.
pub fn isqrt(n: u128) -> (r: u64)
    ensures
        r == root(n as int),
        is_root(r as int, n as int),
{
    let mut lo: u128 = 0;
    let mut hi: u128 = 0x1_0000_0000_0000_0000;
    assert(n < hi * hi) by (nonlinear_arith)
        requires
            hi == 0x1_0000_0000_0000_0000,
            n <= u128::MAX,
    ;
    while hi - lo > 1
        invariant
            lo < hi <= 0x1_0000_0000_0000_0000,
            lo * lo <= n < hi * hi,
        decreases hi - lo,
    {
        let mid: u128 = lo + (hi - lo) / 2;
        assert(mid * mid <= u128::MAX) by (nonlinear_arith)
            requires
                mid < 0x1_0000_0000_0000_0000,
        ;
        if mid * mid <= n {
            lo = mid;
        } else {
            hi = mid;
        }
    }
    proof {
        assert(hi == lo + 1);
        lemma_root_is(lo as int, n as int);
    }
    lo as u64
}

} // verus!
