//! Fixed-point arithmetic.
//!
//! Every real quantity of the simulation (a coordinate, a speed, a time, a
//! factor) is an `i64` that counts thousandths. Sums and products saturate at
//! the ends of the `i64` range, and quotients round toward zero.
use vstd::prelude::*;

verus! {

/// One whole unit, in thousandths.
pub const UNIT: i64 = 1000;

/// Half a turn (the number pi), in thousandths of a radian.
pub const HALF_TURN: i64 = 3142;

/// A full turn, in thousandths of a radian.
pub const FULL_TURN: i64 = 6284;

/// The size to which a short vector is enlarged before its length is taken,
/// so that rounding the length costs nothing that counts.
pub const FINE: i64 = 0x4000_0000_0000_0000;

/// The nearest value that an `i64` can hold.
pub open spec fn clamp(n: int) -> int {
    if n < i64::MIN {
        i64::MIN as int
    } else if n > i64::MAX {
        i64::MAX as int
    } else {
        n
    }
}

/// The absolute value of `n`.
pub open spec fn absolute(n: int) -> int {
    if n < 0 {
        -n
    } else {
        n
    }
}

/// The quotient of `n` by a positive `d`, rounded toward zero.
pub open spec fn quot(n: int, d: int) -> int {
    if n >= 0 {
        n / d
    } else {
        -((-n) / d)
    }
}

/// The fixed-point product of two fixed-point numbers.
pub open spec fn product(a: int, b: int) -> int {
    clamp(quot(a * b, UNIT as int))
}

/// `a * b / c`, rounded toward zero, for a positive `c`.
pub open spec fn ratio(a: int, b: int, c: int) -> int {
    clamp(quot(a * b, c))
}

/// `r` is the integer square root of `n`.
pub open spec fn is_root(n: int, r: int) -> bool {
    0 <= r && r * r <= n < (r + 1) * (r + 1)
}

/// The integer square root of `n`: the largest `r` with `r * r <= n`.
pub open spec fn root(n: int) -> int {
    choose|r: int| is_root(n, r)
}

/// The square root of `n`, rounded up: the least `r` with `n <= r * r`.
pub open spec fn ceil_root(n: int) -> int {
    let r = root(n);
    if r * r == n {
        r
    } else {
        r + 1
    }
}

/// One arch of the sine wave over `0 ..= HALF_TURN`, in thousandths, as the
/// rational function `16 x (pi - x) / (5 pi^2 - 4 x (pi - x))`.
pub open spec fn arch(x: int) -> int {
    let p = x * (HALF_TURN - x);
    (16 * UNIT * p) / (5 * HALF_TURN * HALF_TURN - 4 * p)
}

/// The sine of an angle given in thousandths of a radian, in thousandths.
///
/// This is a rational approximation with period `FULL_TURN`; it is exact at the
/// multiples of a quarter turn.
pub open spec fn sine(angle: int) -> int {
    let t = angle % (FULL_TURN as int);
    if t <= HALF_TURN {
        arch(t)
    } else {
        -arch(t - HALF_TURN)
    }
}

/// A product is no further from zero than the product of the bounds of its
/// factors.
pub proof fn lemma_product_bound(a: int, b: int, x: int, y: int)
    by (nonlinear_arith)
    requires
        -x <= a <= x,
        -y <= b <= y,
    ensures
        -(x * y) <= a * b <= x * y,
{
}

/// An integer has at most one square root.
pub proof fn lemma_root_unique(n: int, r: int, s: int)
    requires
        is_root(n, r),
        is_root(n, s),
    ensures
        r == s,
{
    if r < s {
        assert((r + 1) * (r + 1) <= s * s) by (nonlinear_arith)
            requires
                0 <= r,
                r + 1 <= s,
        ;
    } else if s < r {
        assert((s + 1) * (s + 1) <= r * r) by (nonlinear_arith)
            requires
                0 <= s,
                s + 1 <= r,
        ;
    }
}

/// `root` is the square root wherever one exists.
pub proof fn lemma_root_is(n: int, r: int)
    requires
        is_root(n, r),
    ensures
        root(n) == r,
{
    lemma_root_unique(n, r, root(n));
}

/// Every number that is not negative has a square root.
pub proof fn lemma_root_exists(n: int)
    requires
        0 <= n,
    ensures
        is_root(n, root(n)),
    decreases n,
{
    if n == 0 {
        assert(is_root(0, 0));
    } else {
        lemma_root_exists(n - 1);
        let r = root(n - 1);
        if (r + 1) * (r + 1) <= n {
            assert((r + 2) * (r + 2) > n) by (nonlinear_arith)
                requires
                    0 <= r,
                    n - 1 < (r + 1) * (r + 1),
            ;
            assert(is_root(n, r + 1));
        } else {
            assert(is_root(n, r));
        }
    }
}

/// Neither part of a vector is longer than the vector: the square root of the
/// sum of two squares is at least each of the two numbers.
pub proof fn lemma_root_covers(x: int, y: int)
    ensures
        absolute(x) <= root(x * x + y * y),
        absolute(y) <= root(x * x + y * y),
{
    let n = x * x + y * y;
    assert(0 <= x * x && 0 <= y * y) by (nonlinear_arith);
    lemma_root_exists(n);
    let r = root(n);
    if absolute(x) > r {
        assert(x * x >= (r + 1) * (r + 1)) by (nonlinear_arith)
            requires
                absolute(x) >= r + 1,
                0 <= r,
        ;
    }
    if absolute(y) > r {
        assert(y * y >= (r + 1) * (r + 1)) by (nonlinear_arith)
            requires
                absolute(y) >= r + 1,
                0 <= r,
        ;
    }
}

/// A share `a * b / c` of `b` is no further from zero than `b`, and lies on
/// the side of `a`, where `a` is no further from zero than `c`.
pub proof fn lemma_quot_within(a: int, b: int, c: int)
    requires
        0 < c,
        0 <= b,
        absolute(a) <= c,
    ensures
        a >= 0 ==> 0 <= quot(a * b, c) <= b,
        a <= 0 ==> -b <= quot(a * b, c) <= 0,
{
    let m = absolute(a) * b;
    assert(0 <= m <= c * b) by (nonlinear_arith)
        requires
            0 <= absolute(a) <= c,
            0 <= b,
            m == absolute(a) * b,
    ;
    assert(0 <= m / c <= b) by (nonlinear_arith)
        requires
            0 < c,
            0 <= m <= c * b,
    ;
    let q = m / c;
    assert(a == 0 ==> m == 0) by (nonlinear_arith)
        requires
            m == absolute(a) * b,
    ;
    if m == 0 {
        assert(q == 0) by (nonlinear_arith)
            requires
                q == m / c,
                m == 0,
                c > 0,
        ;
    }
    if a >= 0 {
        assert(a * b == m);
        assert(quot(a * b, c) == q);
    } else {
        assert(a * b == -m) by (nonlinear_arith)
            requires
                a < 0,
                m == (-a) * b,
        ;
        if m == 0 {
            assert(q == 0);
            assert(quot(a * b, c) == 0);
        } else {
            assert(quot(a * b, c) == -q);
        }
    }
}

/// The square of a share `a * b / c` of `b`, times the square of `c`, is at
/// most the square of `a` times the square of `b`: rounding toward zero makes
/// the share no larger.
pub proof fn lemma_quot_square(a: int, b: int, c: int)
    requires
        0 < c,
        0 <= b,
    ensures
        quot(a * b, c) * quot(a * b, c) * (c * c) <= (a * a) * (b * b),
{
    let m = absolute(a) * b;
    let q = m / c;
    assert(0 <= m) by (nonlinear_arith)
        requires
            m == absolute(a) * b,
            0 <= b,
            0 <= absolute(a),
    ;
    assert(0 <= q && q * c <= m) by (nonlinear_arith)
        requires
            0 < c,
            0 <= m,
            q == m / c,
    ;
    assert((q * c) * (q * c) <= m * m) by (nonlinear_arith)
        requires
            0 <= q * c <= m,
    ;
    assert((q * c) * (q * c) == q * q * (c * c)) by (nonlinear_arith);
    assert(m * m == (a * a) * (b * b)) by (nonlinear_arith)
        requires
            m == absolute(a) * b,
            absolute(a) == a || absolute(a) == -a,
    ;
    assert(a * b == m || a * b == -m) by (nonlinear_arith)
        requires
            m == absolute(a) * b,
            absolute(a) == a || absolute(a) == -a,
    ;
    assert(quot(a * b, c) == q || quot(a * b, c) == -q);
    assert(quot(a * b, c) * quot(a * b, c) == q * q) by (nonlinear_arith)
        requires
            quot(a * b, c) == q || quot(a * b, c) == -q,
    ;
}

/// The square root of a number is at most `s` where the number is at most
/// the square of `s`.
pub proof fn lemma_root_at_most(n: int, s: int)
    requires
        0 <= n <= s * s,
        0 <= s,
    ensures
        root(n) <= s,
{
    lemma_root_exists(n);
    let r = root(n);
    if r > s {
        assert(r * r >= (s + 1) * (s + 1)) by (nonlinear_arith)
            requires
                r >= s + 1,
                0 <= s,
        ;
        assert((s + 1) * (s + 1) > s * s) by (nonlinear_arith)
            requires
                0 <= s,
        ;
    }
}

/// The square root rounded up is a whole number whose square is not below
/// the number.
pub proof fn lemma_ceil_root(n: int)
    requires
        0 <= n,
    ensures
        0 <= ceil_root(n),
        n <= ceil_root(n) * ceil_root(n),
        n > 0 ==> ceil_root(n) >= 1,
{
    lemma_root_exists(n);
}

/// A whole number is the square root of its square.
pub proof fn lemma_root_of_square(s: int)
    requires
        0 <= s,
    ensures
        root(s * s) == s,
{
    assert(s * s < (s + 1) * (s + 1)) by (nonlinear_arith)
        requires
            0 <= s,
    ;
    lemma_root_is(s * s, s);
}

/// The arch stays between zero and one.
pub proof fn lemma_arch_range(x: int)
    requires
        0 <= x <= HALF_TURN,
    ensures
        0 <= arch(x) <= UNIT,
{
    let p = x * (HALF_TURN - x);
    assert(0 <= p && 4 * p <= HALF_TURN * HALF_TURN) by (nonlinear_arith)
        requires
            0 <= x <= 3142,
            p == x * (3142 - x),
    {
    }
    let den = 5 * HALF_TURN * HALF_TURN - 4 * p;
    assert(HALF_TURN * HALF_TURN == 9872164) by (nonlinear_arith);
    assert(16 * UNIT * p == 16000 * p) by (nonlinear_arith);
    assert(0 <= (16000 * p) / den <= 1000) by (nonlinear_arith)
        requires
            den > 0,
            0 <= 16000 * p <= 1000 * den,
    ;
}

/// The sine stays between minus one and one.
pub proof fn lemma_sine_range(angle: int)
    ensures
        -UNIT <= sine(angle) <= UNIT,
{
    let t = angle % (FULL_TURN as int);
    if t <= HALF_TURN {
        lemma_arch_range(t);
    } else {
        lemma_arch_range(t - HALF_TURN);
    }
}

/// Narrows a wide integer to the nearest `i64`.
pub fn saturate(n: i128) -> (r: i64)
    ensures
        r == clamp(n as int),
{
    if n < i64::MIN as i128 {
        i64::MIN
    } else if n > i64::MAX as i128 {
        i64::MAX
    } else {
        n as i64
    }
}

/// The saturating sum of two numbers.
pub fn plus(a: i64, b: i64) -> (r: i64)
    ensures
        r == clamp(a + b),
{
    saturate(a as i128 + b as i128)
}

/// The saturating difference of two numbers.
pub fn minus(a: i64, b: i64) -> (r: i64)
    ensures
        r == clamp(a - b),
{
    saturate(a as i128 - b as i128)
}

/// The saturating negation of a number.
pub fn negated(a: i64) -> (r: i64)
    ensures
        r == clamp(-a),
{
    saturate(-(a as i128))
}

/// The absolute value of a number, saturating.
pub fn magnitude(a: i64) -> (r: i64)
    ensures
        r == clamp(absolute(a as int)),
{
    if a < 0 {
        negated(a)
    } else {
        a
    }
}

/// The fixed-point product of two fixed-point numbers.
pub fn times(a: i64, b: i64) -> (r: i64)
    ensures
        r == product(a as int, b as int),
{
    proof {
        lemma_product_bound(a as int, b as int, 0x8000_0000_0000_0000, 0x8000_0000_0000_0000);
    }
    let wide: i128 = (a as i128) * (b as i128);
    saturate(wide / 1000)
}

/// `a * b / c` for a positive `c`, rounded toward zero and saturating.
pub fn scaled(a: i64, b: i64, c: i64) -> (r: i64)
    requires
        c > 0,
    ensures
        r == ratio(a as int, b as int, c as int),
{
    proof {
        lemma_product_bound(a as int, b as int, 0x8000_0000_0000_0000, 0x8000_0000_0000_0000);
    }
    let wide: i128 = (a as i128) * (b as i128);
    saturate(wide / (c as i128))
}

/// The integer square root of `n`.
pub fn isqrt(n: u128) -> (r: u64)
    ensures
        is_root(n as int, r as int),
        r == root(n as int),
{
    let mut lo: u128 = 0;
    let mut hi: u128 = 0x1_0000_0000_0000_0000;
    while hi - lo > 1
        invariant
            lo < hi <= 0x1_0000_0000_0000_0000,
            lo * lo <= n < hi * hi,
        decreases hi - lo,
    {
        let mid: u128 = lo + (hi - lo) / 2;
        assert(mid * mid <= 0xffff_ffff_ffff_ffff * 0xffff_ffff_ffff_ffff) by (nonlinear_arith)
            requires
                0 <= mid <= 0xffff_ffff_ffff_ffff,
        ;
        if mid * mid <= n {
            lo = mid;
        } else {
            hi = mid;
        }
    }
    proof {
        lemma_root_is(n as int, lo as int);
    }
    lo as u64
}

/// One arch of the sine wave, for `0 <= x <= HALF_TURN`.
fn arch_of(x: i64) -> (r: i64)
    requires
        0 <= x <= HALF_TURN,
    ensures
        r == arch(x as int),
        0 <= r <= UNIT,
{
    assert(0 <= x * (3142 - x) <= 2468041) by (nonlinear_arith)
        requires
            0 <= x <= 3142,
    {
    }
    let p: i64 = x * (3142 - x);
    let num: i64 = 16000 * p;
    let den: i64 = 49360820 - 4 * p;
    proof {
        assert(HALF_TURN * HALF_TURN == 9872164) by (nonlinear_arith);
        assert(16 * UNIT * (p as int) == num) by (nonlinear_arith)
            requires
                num == 16000 * p,
        ;
        lemma_arch_range(x as int);
    }
    num / den
}

/// The sine of an angle given in thousandths of a radian, in thousandths.
pub fn sin(angle: i64) -> (r: i64)
    ensures
        r == sine(angle as int),
        -UNIT <= r <= UNIT,
{
    let m: i64 = angle % FULL_TURN;
    let t: i64 = if m < 0 {
        m + FULL_TURN
    } else {
        m
    };
    assert(t == (angle as int) % (FULL_TURN as int));
    if t <= HALF_TURN {
        arch_of(t)
    } else {
        -arch_of(t - HALF_TURN)
    }
}

} // verus!
