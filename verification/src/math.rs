//! Fixed-point scalar and 2D-vector arithmetic.
//!
//! Every scalar is an `i64` in milli-units: the value 1000 stands for one
//! world unit. Products of two milli-unit scalars are divided by `SCALE`
//! to return to milli-units; divisions truncate toward zero.

use vstd::prelude::*;
use vstd::arithmetic::div_mod::lemma_fundamental_div_mod;

verus! {

/// Milli-units per world unit.
pub const SCALE: i64 = 1000;

/// Largest coordinate magnitude the engine works with, in milli-units.
pub const COORD_LIMIT: i64 = 1_000_000_000;

/// Largest velocity-component magnitude, in milli-units per second.
pub const VEL_LIMIT: i64 = 30_000_000;

/// Largest dexterity value, in milli-units.
pub const DEX_LIMIT: i64 = 1_000_000;

// ---------------------------------------------------------------------
// Spec-level arithmetic
// ---------------------------------------------------------------------

/// Division truncating toward zero, for positive divisors.
pub open spec fn div_tz(a: int, b: int) -> int {
    if a >= 0 {
        a / b
    } else {
        -((-a) / b)
    }
}

/// Division truncating toward zero, for any nonzero divisor.
pub open spec fn div_trunc(a: int, b: int) -> int {
    if b >= 0 {
        div_tz(a, b)
    } else {
        div_tz(-a, -b)
    }
}

/// Clamp `v` into `[lo, hi]`.
pub open spec fn clamp_int(v: int, lo: int, hi: int) -> int {
    if v < lo {
        lo
    } else if v > hi {
        hi
    } else {
        v
    }
}

/// The magnitude of `a`.
pub open spec fn abs_int(a: int) -> int {
    if a >= 0 {
        a
    } else {
        -a
    }
}

/// The larger of `a` and `b`.
pub open spec fn max_int(a: int, b: int) -> int {
    if a >= b {
        a
    } else {
        b
    }
}

/// Squared length of the vector `(x, y)`.
pub open spec fn sq_len(x: int, y: int) -> int {
    x * x + y * y
}

/// `r` is the integer square root of `n`, rounded down.
pub open spec fn is_sqrt_floor(n: int, r: int) -> bool {
    0 <= r && r * r <= n && n < (r + 1) * (r + 1)
}

/// The integer square root of `n`, rounded down.
pub open spec fn sqrt_floor(n: int) -> int {
    choose|r: int| is_sqrt_floor(n, r)
}

/// The integer square root of `n`, rounded up.
pub open spec fn sqrt_ceil(n: int) -> int {
    if sqrt_floor(n) * sqrt_floor(n) == n {
        sqrt_floor(n)
    } else {
        sqrt_floor(n) + 1
    }
}

// ---------------------------------------------------------------------
// Arithmetic lemmas
// ---------------------------------------------------------------------

pub proof fn lemma_mul_bounds(a: int, am: int, b: int, bm: int)
    by (nonlinear_arith)
    requires
        -am <= a <= am,
        -bm <= b <= bm,
        0 <= am,
        0 <= bm,
    ensures
        -(am * bm) <= a * b <= am * bm,
{
}

pub proof fn lemma_sq_bounds(a: int, am: int)
    by (nonlinear_arith)
    requires
        -am <= a <= am,
        0 <= am,
    ensures
        0 <= a * a <= am * am,
{
}

pub proof fn lemma_sq_le_implies_abs_le(v: int, m: int)
    by (nonlinear_arith)
    requires
        0 <= m,
        v * v <= m * m,
    ensures
        -m <= v <= m,
{
}

/// A vector of squared length at most `m * m` has both components in
/// `[-m, m]`.
pub proof fn lemma_comp_bounded(x: int, y: int, m: int)
    requires
        0 <= m,
        sq_len(x, y) <= m * m,
    ensures
        -m <= x <= m,
        -m <= y <= m,
{
    assert(x * x >= 0 && y * y >= 0) by (nonlinear_arith);
    lemma_sq_le_implies_abs_le(x, m);
    lemma_sq_le_implies_abs_le(y, m);
}

proof fn lemma_sq_strict_mono(a: int, b: int)
    by (nonlinear_arith)
    requires
        0 <= a < b,
    ensures
        a * a < b * b,
{
}

/// The two defining inequalities pin the rounded-down square root:
/// any value satisfying them equals `sqrt_floor(n)`.
pub proof fn lemma_sqrt_floor_is(n: int, r: int)
    requires
        is_sqrt_floor(n, r),
    ensures
        sqrt_floor(n) == r,
{
    assert(exists|s: int| is_sqrt_floor(n, s));
    let s = sqrt_floor(n);
    assert(is_sqrt_floor(n, s));
    if s < r {
        lemma_sq_strict_mono(s, s + 1);
        if s + 1 < r {
            lemma_sq_strict_mono(s + 1, r);
        }
        assert(false);
    }
    if r < s {
        lemma_sq_strict_mono(r, r + 1);
        if r + 1 < s {
            lemma_sq_strict_mono(r + 1, s);
        }
        assert(false);
    }
}

/// Every nonnegative integer has an integer square root.
pub proof fn lemma_sqrt_exists(n: int)
    requires
        0 <= n,
    ensures
        exists|r: int| is_sqrt_floor(n, r),
    decreases n,
{
    if n == 0 {
        assert(is_sqrt_floor(0, 0));
    } else {
        lemma_sqrt_exists(n - 1);
        let m = n - 1;
        assert(exists|r: int| is_sqrt_floor(m, r));
        let r = choose|r: int| is_sqrt_floor(m, r);
        if (r + 1) * (r + 1) <= n {
            assert(is_sqrt_floor(n, r + 1)) by (nonlinear_arith)
                requires
                    is_sqrt_floor(n - 1, r),
                    (r + 1) * (r + 1) <= n,
            ;
        } else {
            assert(is_sqrt_floor(n, r));
        }
    }
}

/// The defining properties of `sqrt_floor` and `sqrt_ceil`.
pub proof fn lemma_sqrt_props(n: int)
    requires
        0 <= n,
    ensures
        is_sqrt_floor(n, sqrt_floor(n)),
        sqrt_ceil(n) * sqrt_ceil(n) >= n,
        0 <= sqrt_ceil(n),
        n >= 1 ==> sqrt_ceil(n) >= 1,
{
    lemma_sqrt_exists(n);
    let f = sqrt_floor(n);
    assert(is_sqrt_floor(n, f));
    if f * f != n {
        assert(sqrt_ceil(n) * sqrt_ceil(n) == (f + 1) * (f + 1));
    }
}

/// Multiplying a truncated quotient back by the divisor stays between
/// zero and the dividend, and within one divisor of it.
pub proof fn lemma_div_tz_mul_bound(a: int, b: int)
    requires
        1 <= b,
    ensures
        a >= 0 ==> 0 <= div_tz(a, b) * b <= a && a - div_tz(a, b) * b < b,
        a < 0 ==> a <= div_tz(a, b) * b <= 0 && div_tz(a, b) * b - a < b,
{
    if a >= 0 {
        lemma_fundamental_div_mod(a, b);
        let q = a / b;
        assert(b * q == a - a % b);
        assert(q * b == b * q) by (nonlinear_arith);
        if q < 0 {
            assert(q * b <= -b) by (nonlinear_arith)
                requires
                    q <= -1,
                    1 <= b,
            ;
            assert(false);
        }
    } else {
        lemma_fundamental_div_mod(-a, b);
        let q = (-a) / b;
        assert(b * q == -a - (-a) % b);
        assert(q * b == b * q) by (nonlinear_arith);
        if q < 0 {
            assert(q * b <= -b) by (nonlinear_arith)
                requires
                    q <= -1,
                    1 <= b,
            ;
            assert(false);
        }
        assert(div_tz(a, b) * b == -(q * b)) by (nonlinear_arith)
            requires
                div_tz(a, b) == -q,
        ;
    }
}

/// Truncating division shrinks magnitudes: if `|a| <= m * b`, then
/// `|a / b| <= m`.
pub proof fn lemma_div_tz_abs_le(a: int, b: int, m: int)
    requires
        1 <= b,
        0 <= m,
        -(m * b) <= a <= m * b,
    ensures
        -m <= div_tz(a, b) <= m,
{
    lemma_div_tz_mul_bound(a, b);
    let q = div_tz(a, b);
    if q > m {
        assert(q * b >= (m + 1) * b > m * b) by (nonlinear_arith)
            requires
                q >= m + 1,
                1 <= b,
                0 <= m,
        ;
    }
    if q < -m {
        assert(q * b <= (-m - 1) * b < -(m * b)) by (nonlinear_arith)
            requires
                q <= -m - 1,
                1 <= b,
                0 <= m,
        ;
    }
}

/// Truncating division of nonnegative values is monotone in the
/// dividend.
pub proof fn lemma_div_tz_le(a: int, b: int, d: int)
    requires
        0 <= a <= b,
        1 <= d,
    ensures
        div_tz(a, d) <= div_tz(b, d),
{
    vstd::arithmetic::div_mod::lemma_div_is_ordered(a, b, d);
}

/// Scaling a vector of length at most `c` by `l / c` keeps its squared
/// length at most `l * l`.
pub proof fn lemma_scaled_sq_le(x: int, y: int, l: int, c: int)
    requires
        1 <= c,
        0 <= l,
        sq_len(x, y) <= c * c,
    ensures
        sq_len(div_tz(x * l, c), div_tz(y * l, c)) <= l * l,
{
    let qx = div_tz(x * l, c);
    let qy = div_tz(y * l, c);
    lemma_div_tz_mul_bound(x * l, c);
    lemma_div_tz_mul_bound(y * l, c);
    assert(qx * qx * (c * c) <= (x * l) * (x * l)) by (nonlinear_arith)
        requires
            x * l >= 0 ==> 0 <= qx * c <= x * l,
            x * l < 0 ==> x * l <= qx * c <= 0,
    ;
    assert(qy * qy * (c * c) <= (y * l) * (y * l)) by (nonlinear_arith)
        requires
            y * l >= 0 ==> 0 <= qy * c <= y * l,
            y * l < 0 ==> y * l <= qy * c <= 0,
    ;
    assert((x * l) * (x * l) + (y * l) * (y * l) == (x * x + y * y) * (l * l))
        by (nonlinear_arith);
    assert((x * x + y * y) * (l * l) <= (c * c) * (l * l)) by (nonlinear_arith)
        requires
            x * x + y * y <= c * c,
            0 <= l,
    ;
    assert(qx * qx + qy * qy <= l * l) by (nonlinear_arith)
        requires
            1 <= c,
            qx * qx * (c * c) + qy * qy * (c * c) <= (c * c) * (l * l),
    ;
}

// ---------------------------------------------------------------------
// Executable arithmetic
// ---------------------------------------------------------------------

/// Division truncating toward zero, as Rust's `/` does.
pub fn div_tz_i64(a: i64, b: i64) -> (r: i64)
    requires
        1 <= b,
        i64::MIN < a,
    ensures
        r == div_tz(a as int, b as int),
        a >= 0 ==> 0 <= r <= a,
        a < 0 ==> a <= r <= 0,
{
    proof {
        lemma_div_tz_mul_bound(a as int, b as int);
        if a >= 0 {
            assert(div_tz(a as int, b as int) <= a) by (nonlinear_arith)
                requires
                    1 <= b,
                    0 <= div_tz(a as int, b as int) * b <= a,
                    a >= 0,
            ;
        } else {
            assert(a <= div_tz(a as int, b as int)) by (nonlinear_arith)
                requires
                    1 <= b,
                    a <= div_tz(a as int, b as int) * b <= 0,
                    a < 0,
            ;
        }
    }
    if a >= 0 {
        a / b
    } else {
        -((-a) / b)
    }
}

/// Clamp `v` into `[lo, hi]`.
pub fn clamp_i64(v: i64, lo: i64, hi: i64) -> (r: i64)
    requires
        lo <= hi,
    ensures
        r == clamp_int(v as int, lo as int, hi as int),
{
    if v < lo {
        lo
    } else if v > hi {
        hi
    } else {
        v
    }
}

/// A product of nonnegative factors is nonnegative.
pub proof fn lemma_mul_nonneg(a: int, b: int)
    by (nonlinear_arith)
    requires
        0 <= a,
        0 <= b,
    ensures
        0 <= a * b,
{
}

/// Integer square root, rounded down.
pub fn isqrt(n: u64) -> (r: u64)
    ensures
        r == sqrt_floor(n as int),
        is_sqrt_floor(n as int, r as int),
        r <= 4_294_967_295,
{
    let mut lo: u64 = 0;
    let mut hi: u64 = 4_294_967_296;
    assert((4_294_967_296 as int) * (4_294_967_296 as int) > n as int);
    while lo + 1 < hi
        invariant
            lo < hi <= 4_294_967_296,
            (lo as int) * (lo as int) <= n as int,
            (n as int) < (hi as int) * (hi as int),
        decreases hi - lo,
    {
        let mid = lo + (hi - lo) / 2;
        assert((mid as int) * (mid as int) <= (4_294_967_295 as int) * (4_294_967_295 as int))
            by (nonlinear_arith)
            requires
                0 <= mid <= 4_294_967_295,
        ;
        if mid * mid <= n {
            lo = mid;
        } else {
            hi = mid;
        }
    }
    proof {
        lemma_sqrt_floor_is(n as int, lo as int);
    }
    lo
}

/// Integer square root, rounded up.
pub fn isqrt_ceil(n: u64) -> (r: u64)
    ensures
        r == sqrt_ceil(n as int),
        (r as int) * (r as int) >= n as int,
        n >= 1 ==> r >= 1,
        r <= 4_294_967_296,
{
    let f = isqrt(n);
    proof {
        assert((f as int) * (f as int) <= 18_446_744_065_119_617_025) by (nonlinear_arith)
            requires
                0 <= f <= 4_294_967_295,
        ;
    }
    if f < 4_294_967_296 && f * f == n {
        f
    } else {
        assert(f < 4_294_967_296) by {
            if f >= 4_294_967_296 {
                assert((f as int) * (f as int) >= (4_294_967_296 as int) * (4_294_967_296 as int))
                    by (nonlinear_arith)
                    requires
                        f >= 4_294_967_296,
                ;
            }
        }
        f + 1
    }
}

/// Linearly remap `v` from the scale `[old_lo, old_hi]` onto the scale
/// `[new_lo, new_hi]` — the map sending `old_lo` to `new_lo` and
/// `old_hi` to `new_hi`: `new_lo + (v - old_lo) * (new_hi - new_lo) /
/// (old_hi - old_lo)`, truncating toward zero. A degenerate source
/// range — equal endpoints — is rejected by the precondition.
pub fn range_scale(v: i64, old_lo: i64, old_hi: i64, new_lo: i64, new_hi: i64) -> (r: i64)
    requires
        old_lo != old_hi,
        -COORD_LIMIT <= v <= COORD_LIMIT,
        -COORD_LIMIT <= old_lo <= COORD_LIMIT,
        -COORD_LIMIT <= old_hi <= COORD_LIMIT,
        -COORD_LIMIT <= new_lo <= COORD_LIMIT,
        -COORD_LIMIT <= new_hi <= COORD_LIMIT,
    ensures
        r == new_lo + div_trunc((v - old_lo) * (new_hi - new_lo), old_hi - old_lo),
{
    proof {
        lemma_mul_bounds(v - old_lo, 2_000_000_000, new_hi - new_lo, 2_000_000_000);
    }
    let num = (v - old_lo) * (new_hi - new_lo);
    let den = old_hi - old_lo;
    let q = if den > 0 {
        div_tz_i64(num, den)
    } else {
        div_tz_i64(-num, -den)
    };
    new_lo + q
}

// ---------------------------------------------------------------------
// 2D vectors
// ---------------------------------------------------------------------

/// A 2D vector with milli-unit components.
#[derive(Clone, Copy, Debug, PartialEq, Eq, Structural)]
pub struct Vec2i {
    pub x: i64,
    pub y: i64,
}

/// Scale a vector that fits in `[-c, c]²` so that its length becomes at
/// most `l`: each component is multiplied by `l` and divided, truncating,
/// by the rounded-up length of the vector.
pub open spec fn scale_to_spec(v: Vec2i, l: int) -> Vec2i {
    let c = sqrt_ceil(sq_len(v.x as int, v.y as int));
    Vec2i { x: div_tz(v.x * l, c) as i64, y: div_tz(v.y * l, c) as i64 }
}

/// Leave a vector of squared length at most `m * m` alone; shorten any
/// other vector to length at most `m`.
pub open spec fn clamp_len_spec(v: Vec2i, m: int) -> Vec2i {
    if sq_len(v.x as int, v.y as int) <= m * m {
        v
    } else {
        scale_to_spec(v, m)
    }
}

/// The spec-level counterpart of `clamp_len`'s length bound: clamping
/// to `m` leaves a squared length of at most `m * m`.
pub proof fn lemma_clamp_len_sq(v: Vec2i, m: int)
    requires
        0 <= m <= 100_000_000,
    ensures
        clamp_len_spec(v, m).sq() <= m * m,
{
    let s = v.sq();
    if s <= m * m {
    } else {
        assert((v.x as int) * (v.x as int) >= 0 && (v.y as int) * (v.y as int) >= 0)
            by (nonlinear_arith);
        lemma_sqrt_props(s);
        let c = sqrt_ceil(s);
        assert(s >= 1);
        lemma_scaled_sq_le(v.x as int, v.y as int, m, c);
        let qx = div_tz(v.x * m, c);
        let qy = div_tz(v.y * m, c);
        lemma_div_tz_mul_bound(v.x * m, c);
        lemma_div_tz_mul_bound(v.y * m, c);
        assert(qx * qx + qy * qy <= m * m);
        assert(-(m * m) <= qx * qx <= m * m && -(m * m) <= qy * qy <= m * m) by (nonlinear_arith)
            requires
                qx * qx + qy * qy <= m * m,
        ;
        lemma_sq_le_implies_abs_le(qx, m);
        lemma_sq_le_implies_abs_le(qy, m);
        assert(i64::MIN <= qx <= i64::MAX && i64::MIN <= qy <= i64::MAX);
        assert(clamp_len_spec(v, m).x == qx as i64 && clamp_len_spec(v, m).y == qy as i64);
    }
}

/// Scaling a long vector — squared length at least `300_000²` — to a
/// drawn length `l` in `[10_000, 80_000]` loses at most 19 milli-units
/// of length to rounding: the result's squared length lies between
/// `(l - 19)²` and `l²`.
pub proof fn lemma_scale_to_sq_bounds(v: Vec2i, l: int)
    requires
        90_000_000_000 <= v.sq(),
        10_000 <= l <= 80_000,
    ensures
        (l - 19) * (l - 19) <= scale_to_spec(v, l).sq(),
        scale_to_spec(v, l).sq() <= l * l,
{
    let s = v.sq();
    let x = v.x as int;
    let y = v.y as int;
    lemma_sqrt_props(s);
    let c = sqrt_ceil(s);
    let f = sqrt_floor(s);
    assert(c * c >= s);
    if c <= 299_999 {
        assert(c * c <= 299_999 * 299_999) by (nonlinear_arith)
            requires
                0 <= c <= 299_999,
        ;
        assert(false);
    }
    // The rounded-up root overshoots the squared length by less than
    // one step: s >= (c - 1)².
    assert(c - 1 <= f);
    assert((c - 1) * (c - 1) <= f * f) by (nonlinear_arith)
        requires
            0 <= c - 1 <= f,
    ;
    // Components are bounded by the rounded-up length.
    assert(x * x >= 0 && y * y >= 0) by (nonlinear_arith);
    lemma_sq_le_implies_abs_le(x, c);
    lemma_sq_le_implies_abs_le(y, c);
    // Upper bound, and with it the identity of the casts.
    lemma_scaled_sq_le(x, y, l, c);
    let qx = div_tz(x * l, c);
    let qy = div_tz(y * l, c);
    assert(qx * qx >= 0 && qy * qy >= 0) by (nonlinear_arith);
    lemma_sq_le_implies_abs_le(qx, l);
    lemma_sq_le_implies_abs_le(qy, l);
    assert(scale_to_spec(v, l).x == qx as i64 && scale_to_spec(v, l).y == qy as i64);
    assert(scale_to_spec(v, l).sq() == qx * qx + qy * qy);
    // Lower bound per component: each truncated quotient, scaled back,
    // is within one divisor of the exact product.
    lemma_div_tz_mul_bound(x * l, c);
    lemma_div_tz_mul_bound(y * l, c);
    assert((qx * c) * (qx * c) >= (x * l) * (x * l) - 2 * ((c * c) * l)) by (nonlinear_arith)
        requires
            x * l >= 0 ==> 0 <= qx * c <= x * l && (x * l) - qx * c < c,
            x * l < 0 ==> x * l <= qx * c <= 0 && qx * c - (x * l) < c,
            -c <= x <= c,
            1 <= c,
            0 <= l,
    ;
    assert((qy * c) * (qy * c) >= (y * l) * (y * l) - 2 * ((c * c) * l)) by (nonlinear_arith)
        requires
            y * l >= 0 ==> 0 <= qy * c <= y * l && (y * l) - qy * c < c,
            y * l < 0 ==> y * l <= qy * c <= 0 && qy * c - (y * l) < c,
            -c <= y <= c,
            1 <= c,
            0 <= l,
    ;
    assert((qx * qx + qy * qy) * (c * c) == (qx * c) * (qx * c) + (qy * c) * (qy * c))
        by (nonlinear_arith);
    assert((x * l) * (x * l) + (y * l) * (y * l) == s * (l * l)) by (nonlinear_arith)
        requires
            s == x * x + y * y,
    ;
    assert((qx * qx + qy * qy) * (c * c) >= s * (l * l) - 4 * ((c * c) * l));
    assert(s * (l * l) >= ((c - 1) * (c - 1)) * (l * l)) by (nonlinear_arith)
        requires
            s >= (c - 1) * (c - 1),
            0 <= l,
    ;
    // With the rounded-up length at least 300_000, the relative loss
    // stays below 19 milli-units of the drawn length.
    assert(c * (34 * l - 361) >= 2 * (l * l)) by (nonlinear_arith)
        requires
            c >= 300_000,
            10_000 <= l <= 80_000,
    ;
    assert(((c - 1) * (c - 1)) * (l * l) - 4 * ((c * c) * l) >= ((l - 19) * (l - 19)) * (c * c))
        by (nonlinear_arith)
        requires
            c * (34 * l - 361) >= 2 * (l * l),
            c >= 1,
    ;
    assert(qx * qx + qy * qy >= (l - 19) * (l - 19)) by (nonlinear_arith)
        requires
            (qx * qx + qy * qy) * (c * c) >= ((l - 19) * (l - 19)) * (c * c),
            c >= 1,
    ;
}

impl Vec2i {
    /// Both components lie in `[-m, m]`.
    pub open spec fn bounded(self, m: int) -> bool {
        -m <= self.x <= m && -m <= self.y <= m
    }

    /// The zero vector.
    pub open spec fn is_zero(self) -> bool {
        self.x == 0 && self.y == 0
    }

    pub open spec fn sq(self) -> int {
        sq_len(self.x as int, self.y as int)
    }

    pub fn bounded_check(&self, m: i64) -> (r: bool)
        requires
            0 <= m,
        ensures
            r == self.bounded(m as int),
    {
        -m <= self.x && self.x <= m && -m <= self.y && self.y <= m
    }

    pub fn zero() -> (r: Vec2i)
        ensures
            r.x == 0,
            r.y == 0,
    {
        Vec2i { x: 0, y: 0 }
    }

    pub fn plus(self, o: Vec2i) -> (r: Vec2i)
        requires
            i64::MIN <= self.x + o.x <= i64::MAX,
            i64::MIN <= self.y + o.y <= i64::MAX,
        ensures
            r.x == self.x + o.x,
            r.y == self.y + o.y,
    {
        Vec2i { x: self.x + o.x, y: self.y + o.y }
    }

    pub fn minus(self, o: Vec2i) -> (r: Vec2i)
        requires
            i64::MIN <= self.x - o.x <= i64::MAX,
            i64::MIN <= self.y - o.y <= i64::MAX,
        ensures
            r.x == self.x - o.x,
            r.y == self.y - o.y,
    {
        Vec2i { x: self.x - o.x, y: self.y - o.y }
    }

    /// Squared length; the components must be small enough that the sum
    /// of their squares fits an `i64`.
    pub fn len_sq(self) -> (r: i64)
        requires
            self.bounded(2_000_000_000),
        ensures
            r == self.sq(),
            r >= 0,
    {
        proof {
            lemma_sq_bounds(self.x as int, 2_000_000_000);
            lemma_sq_bounds(self.y as int, 2_000_000_000);
        }
        self.x * self.x + self.y * self.y
    }

    /// Redirect this (nonzero) vector to length at most `l`, keeping its
    /// direction up to rounding.
    pub fn scale_to_length(self, l: i64) -> (r: Vec2i)
        requires
            self.bounded(2_000_000_000),
            !self.is_zero(),
            0 <= l <= 100_000_000,
        ensures
            r == scale_to_spec(self, l as int),
            sq_len(r.x as int, r.y as int) <= l * l,
            r.bounded(l as int),
    {
        let s = self.len_sq();
        proof {
            if self.x != 0 {
                lemma_sq_bounds(self.y as int, 2_000_000_000);
                assert(self.x * self.x >= 1) by (nonlinear_arith)
                    requires
                        self.x != 0,
                ;
            } else {
                lemma_sq_bounds(self.x as int, 2_000_000_000);
                assert(self.y * self.y >= 1) by (nonlinear_arith)
                    requires
                        self.y != 0,
                ;
            }
        }
        let c64 = isqrt_ceil(s as u64);
        let c: i64 = c64 as i64;
        proof {
            lemma_mul_bounds(self.x as int, 2_000_000_000, l as int, 100_000_000);
            lemma_mul_bounds(self.y as int, 2_000_000_000, l as int, 100_000_000);
        }
        let rx = div_tz_i64(self.x * l, c);
        let ry = div_tz_i64(self.y * l, c);
        proof {
            lemma_scaled_sq_le(self.x as int, self.y as int, l as int, c as int);
            assert((rx as int) * (rx as int) >= 0) by (nonlinear_arith);
            assert((ry as int) * (ry as int) >= 0) by (nonlinear_arith);
            lemma_sq_le_implies_abs_le(rx as int, l as int);
            lemma_sq_le_implies_abs_le(ry as int, l as int);
        }
        Vec2i { x: rx, y: ry }
    }

    /// Clamp the length of this vector to at most `m`.
    pub fn clamp_len(self, m: i64) -> (r: Vec2i)
        requires
            self.bounded(2_000_000_000),
            0 <= m <= 100_000_000,
        ensures
            r == clamp_len_spec(self, m as int),
            sq_len(r.x as int, r.y as int) <= m * m,
            r.bounded(m as int),
    {
        let s = self.len_sq();
        proof {
            lemma_sq_bounds(m as int, 100_000_000);
        }
        if s <= m * m {
            proof {
                lemma_comp_bounded(self.x as int, self.y as int, m as int);
            }
            self
        } else {
            proof {
                if self.is_zero() {
                    assert(self.sq() == 0) by (nonlinear_arith)
                        requires
                            self.x == 0,
                            self.y == 0,
                    ;
                    assert(false);
                }
            }
            self.scale_to_length(m)
        }
    }
}

} // verus!
