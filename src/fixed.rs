//! Fixed-point real numbers.
//!
//! A `Real` counts millionths of a unit in an `i64`. Every operation rounds
//! toward zero, except the reciprocal, which rounds away from zero so that
//! no finite nonzero value has a zero inverse, and the axes of a unit
//! vector, which round to nearest so that its length stays within a
//! millionth of 1. Results saturate at `±MAX`
//! (five million units), so the representable range is symmetric and
//! negation is exact on every well-formed value. A saturated
//! value stands for an unbounded quantity, the way an infinite float would.
use vstd::prelude::*;

verus! {

/// Number of raw steps in one unit.
pub const SCALE: i64 = 1_000_000;

/// Largest raw magnitude; both `MAX` and `-MAX` are representable.
pub const MAX: i64 = 5_000_000_000_000;

/// Saturates an integer to the representable raw range.
pub open spec fn clamp_raw(x: int) -> int {
    if x > MAX {
        MAX as int
    } else if x < -MAX {
        -MAX
    } else {
        x
    }
}

/// Magnitude of an integer.
pub open spec fn abs_int(x: int) -> int {
    if x < 0 {
        -x
    } else {
        x
    }
}

/// Quotient rounded toward zero.
pub open spec fn div_trunc(n: int, d: int) -> int {
    if (n >= 0) == (d > 0) {
        abs_int(n) / abs_int(d)
    } else {
        -(abs_int(n) / abs_int(d))
    }
}

/// Quotient of non-negative `n` by positive `d`, rounded up.
pub open spec fn ceil_div(n: int, d: int) -> int {
    (n + d - 1) / d
}

/// The integer square root: the largest `r` with `r * r <= n`.
pub open spec fn is_sqrt_floor(n: int, r: int) -> bool {
    0 <= r && r * r <= n && n < (r + 1) * (r + 1)
}

pub open spec fn sqrt_floor(n: int) -> int {
    choose|r: int| is_sqrt_floor(n, r)
}

#[derive(Clone, Copy, Debug, PartialEq, Eq, Structural)]
pub struct Real {
    /// The value in millionths of a unit.
    pub micros: i64,
}

/// The `Real` whose raw value is `x`, saturated.
pub open spec fn real_of(x: int) -> Real {
    Real { micros: clamp_raw(x) as i64 }
}

impl Real {
    pub open spec fn val(self) -> int {
        self.micros as int
    }

    /// Inside the symmetric range.
    pub open spec fn wf(self) -> bool {
        -MAX <= self.micros <= MAX
    }

    /// Stands for an unbounded quantity.
    pub open spec fn is_saturated(self) -> bool {
        abs_int(self.val()) >= MAX
    }

    pub open spec fn spec_neg(self) -> Real {
        real_of(-self.val())
    }

    pub open spec fn spec_add(self, o: Real) -> Real {
        real_of(self.val() + o.val())
    }

    pub open spec fn spec_sub(self, o: Real) -> Real {
        real_of(self.val() - o.val())
    }

    pub open spec fn spec_mul(self, o: Real) -> Real {
        real_of(div_trunc(self.val() * o.val(), SCALE as int))
    }

    pub open spec fn spec_div(self, o: Real) -> Real {
        real_of(div_trunc(self.val() * SCALE, o.val()))
    }

    /// `1 / self` rounded away from zero, or zero where `self` is zero or
    /// saturated.
    pub open spec fn spec_recip(self) -> Real {
        if self.val() == 0 || self.is_saturated() {
            real_of(0)
        } else if self.val() > 0 {
            real_of(ceil_div(SCALE * SCALE, self.val()))
        } else {
            real_of(-ceil_div(SCALE * SCALE, -self.val()))
        }
    }

    /// Square root, or zero where `self` is not positive.
    pub open spec fn spec_sqrt(self) -> Real {
        if self.val() <= 0 {
            real_of(0)
        } else {
            real_of(sqrt_floor(self.val() * SCALE))
        }
    }

    pub open spec fn spec_abs(self) -> Real {
        real_of(abs_int(self.val()))
    }

    /// `1` for a positive value, `-1` for a negative one, `0` for zero.
    pub open spec fn spec_signum(self) -> Real {
        if self.val() > 0 {
            real_of(SCALE as int)
        } else if self.val() < 0 {
            real_of(-SCALE)
        } else {
            real_of(0)
        }
    }

    pub open spec fn spec_clamp(self, lo: Real, hi: Real) -> Real {
        if self.val() < lo.val() {
            lo
        } else if self.val() > hi.val() {
            hi
        } else {
            self
        }
    }

    pub fn from_micros(micros: i64) -> (r: Real)
        ensures
            r == real_of(micros as int),
    {
        Real::saturate(micros as i128)
    }

    /// A whole number of units.
    pub fn from_int(n: i32) -> (r: Real)
        ensures
            r == real_of(n * SCALE),
    {
        assert(-2147483648 * 1_000_000 <= n * SCALE <= 2147483647 * 1_000_000) by (nonlinear_arith)
            requires
                -2147483648 <= n <= 2147483647,
        ;
        Real::from_micros(n as i64 * SCALE)
    }

    pub fn zero() -> (r: Real)
        ensures
            r == real_of(0),
    {
        Real { micros: 0 }
    }

    pub fn one() -> (r: Real)
        ensures
            r == real_of(SCALE as int),
    {
        Real { micros: SCALE }
    }

    /// The largest value, which stands for an unbounded quantity.
    pub fn infinity() -> (r: Real)
        ensures
            r == real_of(MAX as int),
            r.is_saturated(),
    {
        Real { micros: MAX }
    }

    fn saturate(x: i128) -> (r: Real)
        ensures
            r == real_of(x as int),
    {
        if x > MAX as i128 {
            Real { micros: MAX }
        } else if x < -(MAX as i128) {
            Real { micros: -MAX }
        } else {
            Real { micros: x as i64 }
        }
    }

    /// Quotient rounded toward zero; `d` is not zero.
    fn div_i128(n: i128, d: i128) -> (r: i128)
        requires
            d != 0,
            n > i128::MIN,
            d > i128::MIN,
        ensures
            r == div_trunc(n as int, d as int),
    {
        let an: i128 = if n < 0 { -n } else { n };
        let ad: i128 = if d < 0 { -d } else { d };
        let q: i128 = an / ad;
        if (n >= 0) == (d > 0) {
            q
        } else {
            -q
        }
    }

    pub fn neg(self) -> (r: Real)
        ensures
            r == self.spec_neg(),
    {
        Real::saturate(-(self.micros as i128))
    }

    pub fn add(self, o: Real) -> (r: Real)
        ensures
            r == self.spec_add(o),
    {
        Real::saturate(self.micros as i128 + o.micros as i128)
    }

    pub fn sub(self, o: Real) -> (r: Real)
        ensures
            r == self.spec_sub(o),
    {
        Real::saturate(self.micros as i128 - o.micros as i128)
    }

    pub fn mul(self, o: Real) -> (r: Real)
        ensures
            r == self.spec_mul(o),
    {
        let a: i128 = self.micros as i128;
        let b: i128 = o.micros as i128;
        assert(-0x4000_0000_0000_0000_0000_0000_0000_0000 <= a * b
            <= 0x4000_0000_0000_0000_0000_0000_0000_0000) by (nonlinear_arith)
            requires
                -0x8000_0000_0000_0000 <= a <= 0x8000_0000_0000_0000,
                -0x8000_0000_0000_0000 <= b <= 0x8000_0000_0000_0000,
        ;
        Real::saturate(Real::div_i128(a * b, SCALE as i128))
    }

    /// Quotient; the divisor is not zero.
    pub fn div(self, o: Real) -> (r: Real)
        requires
            o.val() != 0,
        ensures
            r == self.spec_div(o),
    {
        let a: i128 = self.micros as i128;
        assert(-0x8000_0000_0000_0000_0000_0000 <= a * 1_000_000 <= 0x8000_0000_0000_0000_0000_0000)
            by (nonlinear_arith)
            requires
                -0x8000_0000_0000_0000 <= a <= 0x8000_0000_0000_0000,
        ;
        Real::saturate(Real::div_i128(a * (SCALE as i128), o.micros as i128))
    }

    pub fn recip(self) -> (r: Real)
        ensures
            r == self.spec_recip(),
    {
        if self.micros == 0 || self.micros >= MAX || self.micros <= -MAX {
            Real::zero()
        } else {
            let k: i128 = 1_000_000_000_000;
            let m: i128 = if self.micros < 0 {
                -(self.micros as i128)
            } else {
                self.micros as i128
            };
            let q: i128 = (k + m - 1) / m;
            if self.micros < 0 {
                Real::saturate(-q)
            } else {
                Real::saturate(q)
            }
        }
    }

    pub fn sqrt(self) -> (r: Real)
        ensures
            r == self.spec_sqrt(),
    {
        if self.micros <= 0 {
            Real::zero()
        } else {
            let n: u128 = self.micros as u128 * SCALE as u128;
            let s = isqrt(n);
            proof {
                lemma_sqrt_floor_unique(n as int, s as int);
            }
            Real::saturate(s as i128)
        }
    }

    pub fn abs(self) -> (r: Real)
        ensures
            r == self.spec_abs(),
    {
        if self.micros < 0 {
            Real::saturate(-(self.micros as i128))
        } else {
            Real::saturate(self.micros as i128)
        }
    }

    pub fn signum(self) -> (r: Real)
        ensures
            r == self.spec_signum(),
    {
        if self.micros > 0 {
            Real { micros: SCALE }
        } else if self.micros < 0 {
            Real { micros: -SCALE }
        } else {
            Real::zero()
        }
    }

    pub fn clamp(self, lo: Real, hi: Real) -> (r: Real)
        ensures
            r == self.spec_clamp(lo, hi),
    {
        if self.micros < lo.micros {
            lo
        } else if self.micros > hi.micros {
            hi
        } else {
            self
        }
    }
}

/// Integer square root by bisection.
pub fn isqrt(n: u128) -> (r: u64)
    ensures
        is_sqrt_floor(n as int, r as int),
{
    let mut lo: u128 = 0;
    let mut hi: u128 = 0x1_0000_0000_0000_0000;
    assert(n < hi * hi) by (nonlinear_arith)
        requires
            hi == 0x1_0000_0000_0000_0000u128,
            n <= u128::MAX,
    ;
    while hi - lo > 1
        invariant
            lo < hi <= 0x1_0000_0000_0000_0000u128,
            lo * lo <= n,
            n < hi * hi,
        decreases hi - lo,
    {
        let mid: u128 = lo + (hi - lo) / 2;
        assert(mid * mid < 0x1_0000_0000_0000_0000_0000_0000_0000_0000) by (nonlinear_arith)
            requires
                mid < 0x1_0000_0000_0000_0000u128,
        ;
        if mid * mid <= n {
            lo = mid;
        } else {
            hi = mid;
        }
    }
    lo as u64
}

/// Saturation commutes with negation.
pub proof fn lemma_clamp_raw_odd(x: int)
    ensures
        clamp_raw(-x) == -clamp_raw(x),
        -MAX <= clamp_raw(x) <= MAX,
{
}

/// Rounding toward zero commutes with negating either operand.
pub proof fn lemma_div_trunc_odd(n: int, d: int)
    requires
        d != 0,
    ensures
        div_trunc(-n, d) == -div_trunc(n, d),
        div_trunc(n, -d) == -div_trunc(n, d),
        div_trunc(0, d) == 0,
{
    assert(abs_int(-n) == abs_int(n));
    assert(abs_int(-d) == abs_int(d));
    assert(0int / abs_int(d) == 0);
    if n == 0 {
        assert(abs_int(n) / abs_int(d) == 0);
    }
}

/// The laws of negation on well-formed values.
pub proof fn lemma_real_neg(a: Real, b: Real)
    requires
        a.wf(),
        b.wf(),
    ensures
        a.spec_neg().val() == -a.val(),
        a.spec_neg().spec_neg() == a,
        a.spec_add(b).spec_neg() == a.spec_neg().spec_add(b.spec_neg()),
        b.spec_sub(a) == a.spec_sub(b).spec_neg(),
        a.spec_add(b) == b.spec_add(a),
        a.spec_neg().spec_mul(b) == a.spec_mul(b).spec_neg(),
        a.spec_mul(b.spec_neg()) == a.spec_mul(b).spec_neg(),
        a.spec_neg().spec_abs() == a.spec_abs(),
        a.spec_neg().spec_signum() == a.spec_signum().spec_neg(),
        a.spec_mul(b) == b.spec_mul(a),
{
    lemma_clamp_raw_odd(a.val());
    lemma_clamp_raw_odd(a.val() + b.val());
    lemma_clamp_raw_odd(a.val() - b.val());
    let x = a.val();
    let y = b.val();
    let p = x * y;
    assert((-x) * y == -(x * y)) by (nonlinear_arith);
    assert(x * (-y) == -(x * y)) by (nonlinear_arith);
    assert(y * x == x * y) by (nonlinear_arith);
    lemma_div_trunc_odd(p, SCALE as int);
    lemma_clamp_raw_odd(div_trunc(p, SCALE as int));
    lemma_clamp_raw_odd(SCALE as int);
}

/// Zero absorbs products and is the identity of addition.
pub proof fn lemma_real_zero(a: Real)
    ensures
        a.wf() ==> a.spec_add(real_of(0)) == a,
        a.spec_mul(real_of(0)) == real_of(0),
        real_of(0).spec_mul(a) == real_of(0),
        real_of(0).spec_neg() == real_of(0),
        real_of(0).spec_abs() == real_of(0),
        real_of(0).spec_signum() == real_of(0),
        real_of(0).spec_recip() == real_of(0),
        real_of(0).val() == 0,
{
    assert(a.val() * 0 == 0) by (nonlinear_arith);
    assert(0 * a.val() == 0) by (nonlinear_arith);
    lemma_div_trunc_odd(0, SCALE as int);
}

/// One is the identity of the product.
pub proof fn lemma_real_mul_one(a: Real)
    requires
        a.wf(),
    ensures
        a.spec_mul(real_of(SCALE as int)) == a,
{
    let x = a.val();
    if x >= 0 {
        vstd::arithmetic::div_mod::lemma_div_by_multiple(x, SCALE as int);
    } else {
        vstd::arithmetic::div_mod::lemma_div_by_multiple(-x, SCALE as int);
        assert((-x) * SCALE == -(x * SCALE)) by (nonlinear_arith);
    }
}

/// The square of a raw value, which is never negative.
pub fn square(a: Real) -> (r: u128)
    ensures
        r == a.val() * a.val(),
        r <= 0x4000_0000_0000_0000_0000_0000_0000_0000,
{
    let v: i128 = a.micros as i128;
    assert(0 <= v * v <= 0x4000_0000_0000_0000_0000_0000_0000_0000) by (nonlinear_arith)
        requires
            -0x8000_0000_0000_0000 <= v <= 0x8000_0000_0000_0000,
    ;
    (v * v) as u128
}

/// The saturated square root of a raw sum of squares: a Euclidean length.
pub fn root_of_squares(n: u128) -> (r: Real)
    ensures
        r == real_of(sqrt_floor(n as int)),
{
    let s = isqrt(n);
    proof {
        lemma_sqrt_floor_unique(n as int, s as int);
    }
    if s > MAX as u64 {
        Real::infinity()
    } else {
        Real::from_micros(s as i64)
    }
}

/// The reciprocal of a finite nonzero value is nonzero, and within one
/// step above the exact reciprocal in magnitude.
pub proof fn lemma_recip_bounds(a: Real)
    requires
        a.val() != 0,
        !a.is_saturated(),
    ensures
        a.spec_recip().val() != 0,
        abs_int(a.spec_recip().val()) * abs_int(a.val()) >= SCALE * SCALE,
        (abs_int(a.spec_recip().val()) - 1) * abs_int(a.val()) < SCALE * SCALE,
        (a.val() > 0) == (a.spec_recip().val() > 0),
        abs_int(a.spec_recip().val()) <= SCALE * SCALE,
{
    let m = abs_int(a.val());
    let k = SCALE * SCALE;
    lemma_ceil_div(k, m);
}

/// Rounding a quotient up: `q * d` reaches `n`, and `(q - 1) * d` does not.
pub proof fn lemma_ceil_div(n: int, d: int)
    requires
        n > 0,
        d > 0,
    ensures
        ceil_div(n, d) * d >= n,
        (ceil_div(n, d) - 1) * d < n,
        1 <= ceil_div(n, d) <= n,
{
    let q = ceil_div(n, d);
    let r = (n + d - 1) % d;
    vstd::arithmetic::div_mod::lemma_fundamental_div_mod(n + d - 1, d);
    assert(0 <= r < d);
    assert(q * d + r == n + d - 1);
    assert(q * d >= n) by (nonlinear_arith)
        requires
            q * d + r == n + d - 1,
            r < d,
    ;
    assert((q - 1) * d < n) by (nonlinear_arith)
        requires
            q * d + r == n + d - 1,
            r >= 0,
    ;
    assert(1 <= q) by (nonlinear_arith)
        requires
            q * d >= n,
            n > 0,
            d > 0,
    ;
    assert(q <= n) by (nonlinear_arith)
        requires
            (q - 1) * d < n,
            d >= 1,
            n > 0,
    ;
}

/// A raw value saturated to the representable range.
pub fn clamped_raw(a: Real) -> (r: i128)
    ensures
        r == clamp_raw(a.val()),
{
    if a.micros > MAX {
        MAX as i128
    } else if a.micros < -MAX {
        -(MAX as i128)
    } else {
        a.micros as i128
    }
}

/// `4 * SCALE * SCALE`: the exact unit vector's squared length, doubled
/// on each axis so that halves can be rounded in integers.
pub open spec fn four_k() -> int {
    4 * (SCALE * SCALE)
}

/// One axis of a unit vector: the raw component `c` over the length
/// `sqrt(s)`, rounded to the nearest millionth (halves away from zero).
/// It is computed as `(t + 1) / 2`, where `t` is twice the exact value
/// rounded down.
pub open spec fn unit_axis(c: int, s: int) -> int {
    let t = sqrt_floor(c * c * four_k() / s);
    let m = (t + 1) / 2;
    if c < 0 {
        -m
    } else {
        m
    }
}

/// Computes `unit_axis` for a saturated component and a positive sum of
/// squares of at most three saturated components.
pub fn unit_component(c: i128, s: u128) -> (r: Real)
    requires
        -MAX <= c <= MAX,
        c * c <= s,
        0 < s <= 3 * MAX * MAX,
    ensures
        r == real_of(unit_axis(c as int, s as int)),
{
    let m: i128 = if c < 0 { -c } else { c };
    assert(m * m == c * c) by (nonlinear_arith)
        requires
            m == c || m == -c,
    ;
    assert(0 <= m * m <= 25_000_000_000_000_000_000_000_000) by (nonlinear_arith)
        requires
            0 <= m <= 5_000_000_000_000,
    ;
    let sq: u128 = (m * m) as u128;
    assert(sq * 4_000_000_000_000 <= 100_000_000_000_000_000_000_000_000_000_000_000_000) by (nonlinear_arith)
        requires
            sq <= 25_000_000_000_000_000_000_000_000,
    ;
    let q: u128 = sq * 4_000_000_000_000 / s;
    let t = isqrt(q);
    proof {
        lemma_sqrt_floor_unique(q as int, t as int);
        assert(c * c * four_k() == sq * 4_000_000_000_000);
    }
    let half: i128 = (t as i128 + 1) / 2;
    if c < 0 {
        Real::saturate(-half)
    } else {
        Real::saturate(half)
    }
}

/// A component saturated to the representable range, with its square.
pub fn clamped_square(a: Real) -> (r: (i128, u128))
    ensures
        r.0 == clamp_raw(a.val()),
        r.1 == r.0 * r.0,
        r.1 <= MAX * MAX,
{
    let c = clamped_raw(a);
    assert(0 <= c * c <= 25_000_000_000_000_000_000_000_000) by (nonlinear_arith)
        requires
            -5_000_000_000_000 <= c <= 5_000_000_000_000,
    ;
    (c, (c * c) as u128)
}

/// A unit axis is odd in its component.
pub proof fn lemma_unit_axis_odd(c: int, s: int)
    requires
        s > 0,
    ensures
        unit_axis(-c, s) == -unit_axis(c, s),
        real_of(unit_axis(-c, s)) == real_of(unit_axis(c, s)).spec_neg(),
{
    assert((-c) * (-c) == c * c) by (nonlinear_arith);
    if c == 0 {
        assert(c * c * four_k() == 0) by (nonlinear_arith)
            requires
                c == 0,
        ;
        vstd::arithmetic::div_mod::lemma_div_of0(s);
        assert(is_sqrt_floor(0, 0));
        lemma_sqrt_floor_unique(0, 0);
        assert((0int + 1) / 2 == 0);
    }
    lemma_clamp_raw_odd(unit_axis(c, s));
    lemma_clamp_raw_odd(clamp_raw(unit_axis(c, s)));
}

/// Every non-negative integer has an integer square root, which
/// `sqrt_floor` picks.
pub proof fn lemma_sqrt_floor(n: int)
    requires
        n >= 0,
    ensures
        is_sqrt_floor(n, sqrt_floor(n)),
{
    let w = isqrt_spec_witness(n);
    assert(is_sqrt_floor(n, w));
}

/// One unit axis `m` (in magnitude) against the exact value `x = |c| *
/// SCALE / sqrt(s)`: `m - 1/2 <= x < m + 1/2`, written over integers.
pub proof fn lemma_unit_axis(c: int, s: int)
    requires
        c * c <= s,
        s > 0,
    ensures
        ({
            let n = c * c * four_k();
            let m = abs_int(unit_axis(c, s));
            &&& 0 <= m <= SCALE
            &&& (2 * m + 1) * (2 * m + 1) * s > n
            &&& m >= 1 ==> (2 * m - 1) * (2 * m - 1) * s <= n
            &&& c == 0 ==> m == 0
        }),
{
    let k = four_k();
    let n = c * c * k;
    assert(0 <= c * c) by (nonlinear_arith);
    assert(0 <= n) by (nonlinear_arith)
        requires
            0 <= c * c,
            n == c * c * k,
            k > 0,
    ;
    let q = n / s;
    vstd::arithmetic::div_mod::lemma_fundamental_div_mod(n, s);
    let r = n % s;
    assert(q * s <= n) by (nonlinear_arith)
        requires
            q * s + r == n,
            r >= 0,
    ;
    assert((q + 1) * s > n) by (nonlinear_arith)
        requires
            q * s + r == n,
            r < s,
    ;
    assert(0 <= q) by (nonlinear_arith)
        requires
            (q + 1) * s > n,
            n >= 0,
            s > 0,
    ;
    assert(q <= k) by (nonlinear_arith)
        requires
            q * s <= n,
            n == c * c * k,
            c * c <= s,
            s > 0,
            k > 0,
    ;
    lemma_sqrt_floor(q);
    let t = sqrt_floor(q);
    let m = (t + 1) / 2;
    vstd::arithmetic::div_mod::lemma_fundamental_div_mod(t + 1, 2);
    assert(t + 1 == 2 * m || t + 1 == 2 * m + 1);
    assert(m == abs_int(unit_axis(c, s)));
    assert(t <= 2 * SCALE) by (nonlinear_arith)
        requires
            t * t <= q,
            q <= 4 * (1_000_000 * 1_000_000),
            t >= 0,
    ;
    assert((2 * m + 1) * (2 * m + 1) >= q + 1) by (nonlinear_arith)
        requires
            q < (t + 1) * (t + 1),
            2 * m + 1 >= t + 1,
            t >= 0,
    ;
    assert((2 * m + 1) * (2 * m + 1) * s > n) by (nonlinear_arith)
        requires
            (2 * m + 1) * (2 * m + 1) >= q + 1,
            (q + 1) * s > n,
            s > 0,
    ;
    if m >= 1 {
        assert((2 * m - 1) * (2 * m - 1) <= q) by (nonlinear_arith)
            requires
                t * t <= q,
                2 * m - 1 <= t,
                2 * m - 1 >= 0,
        ;
        assert((2 * m - 1) * (2 * m - 1) * s <= n) by (nonlinear_arith)
            requires
                (2 * m - 1) * (2 * m - 1) <= q,
                q * s <= n,
                s > 0,
        ;
    }
    if c == 0 {
        assert(n == 0) by (nonlinear_arith)
            requires
                c == 0,
                n == c * c * k,
        ;
        vstd::arithmetic::div_mod::lemma_div_of0(s);
        assert(is_sqrt_floor(0, 0));
        lemma_sqrt_floor_unique(0, 0);
    }
}

/// Bounds on the bias terms of one rounded axis: with `d = 2m - 1` (or 0
/// when `m = 0`) and `e = 2m + 1`, `d² s <= n < e² s`.
proof fn lemma_axis_terms(m: int, n: int, s: int) -> (d: int)
    requires
        m >= 0,
        n >= 0,
        s > 0,
        (2 * m + 1) * (2 * m + 1) * s > n,
        m >= 1 ==> (2 * m - 1) * (2 * m - 1) * s <= n,
    ensures
        d >= 0,
        d * d * s <= n,
        4 * m * m <= d * d + 2 * d + 1,
        2 * m <= d + 1,
{
    if m >= 1 {
        assert(4 * m * m == (2 * m - 1) * (2 * m - 1) + 2 * (2 * m - 1) + 1) by (nonlinear_arith);
        2 * m - 1
    } else {
        assert(0 * 0 * s == 0) by (nonlinear_arith);
        0
    }
}

/// A vector of up to three axes rounded to the nearest millionth has a
/// squared length within one millionth of 1: `(SCALE - 1)² <= Σ m² <
/// (SCALE + 1)²`.
pub proof fn lemma_rounded_unit_sum(c1: int, c2: int, c3: int)
    requires
        c1 * c1 + c2 * c2 + c3 * c3 > 0,
    ensures
        ({
            let s = c1 * c1 + c2 * c2 + c3 * c3;
            let (m1, m2, m3) = (
                abs_int(unit_axis(c1, s)),
                abs_int(unit_axis(c2, s)),
                abs_int(unit_axis(c3, s)),
            );
            let sum = m1 * m1 + m2 * m2 + m3 * m3;
            (SCALE - 1) * (SCALE - 1) <= sum < (SCALE + 1) * (SCALE + 1)
        }),
{
    let s = c1 * c1 + c2 * c2 + c3 * c3;
    let k = four_k();
    assert(0 <= c1 * c1 && 0 <= c2 * c2 && 0 <= c3 * c3) by (nonlinear_arith);
    lemma_unit_axis(c1, s);
    lemma_unit_axis(c2, s);
    lemma_unit_axis(c3, s);
    let (m1, m2, m3) = (abs_int(unit_axis(c1, s)), abs_int(unit_axis(c2, s)), abs_int(unit_axis(c3, s)));
    let (n1, n2, n3) = (c1 * c1 * k, c2 * c2 * k, c3 * c3 * k);
    assert(n1 >= 0 && n2 >= 0 && n3 >= 0) by (nonlinear_arith)
        requires
            0 <= c1 * c1,
            0 <= c2 * c2,
            0 <= c3 * c3,
            n1 == c1 * c1 * k,
            n2 == c2 * c2 * k,
            n3 == c3 * c3 * k,
            k > 0,
    ;
    assert(n1 + n2 + n3 == k * s) by (nonlinear_arith)
        requires
            n1 == c1 * c1 * k,
            n2 == c2 * c2 * k,
            n3 == c3 * c3 * k,
            s == c1 * c1 + c2 * c2 + c3 * c3,
    ;
    let d1 = lemma_axis_terms(m1, n1, s);
    let d2 = lemma_axis_terms(m2, n2, s);
    let d3 = lemma_axis_terms(m3, n3, s);
    let dd = d1 * d1 + d2 * d2 + d3 * d3;
    assert(dd <= k) by (nonlinear_arith)
        requires
            d1 * d1 * s <= n1,
            d2 * d2 * s <= n2,
            d3 * d3 * s <= n3,
            n1 + n2 + n3 == k * s,
            dd == d1 * d1 + d2 * d2 + d3 * d3,
            s > 0,
    ;
    let y = d1 + d2 + d3;
    assert(y * y <= 3 * dd) by (nonlinear_arith)
        requires
            y == d1 + d2 + d3,
            dd == d1 * d1 + d2 * d2 + d3 * d3,
    ;
    assert(100 * y < 347 * SCALE) by (nonlinear_arith)
        requires
            y * y <= 3 * dd,
            dd <= 4 * (1_000_000 * 1_000_000),
            y >= 0,
    ;
    let sum = m1 * m1 + m2 * m2 + m3 * m3;
    assert(4 * sum <= dd + 2 * y + 3) by (nonlinear_arith)
        requires
            4 * m1 * m1 <= d1 * d1 + 2 * d1 + 1,
            4 * m2 * m2 <= d2 * d2 + 2 * d2 + 1,
            4 * m3 * m3 <= d3 * d3 + 2 * d3 + 1,
            sum == m1 * m1 + m2 * m2 + m3 * m3,
            dd == d1 * d1 + d2 * d2 + d3 * d3,
            y == d1 + d2 + d3,
    ;
    assert(sum < (SCALE + 1) * (SCALE + 1)) by (nonlinear_arith)
        requires
            4 * sum <= dd + 2 * y + 3,
            dd <= 4 * (1_000_000 * 1_000_000),
            100 * y < 347 * 1_000_000,
    ;
    let ee = (2 * m1 + 1) * (2 * m1 + 1) + (2 * m2 + 1) * (2 * m2 + 1) + (2 * m3 + 1) * (2 * m3 + 1);
    assert(ee > k) by (nonlinear_arith)
        requires
            (2 * m1 + 1) * (2 * m1 + 1) * s > n1,
            (2 * m2 + 1) * (2 * m2 + 1) * s > n2,
            (2 * m3 + 1) * (2 * m3 + 1) * s > n3,
            n1 + n2 + n3 == k * s,
            ee == (2 * m1 + 1) * (2 * m1 + 1) + (2 * m2 + 1) * (2 * m2 + 1) + (2 * m3 + 1) * (2
                * m3 + 1),
            s > 0,
    ;
    assert(ee == 4 * sum + 4 * (m1 + m2 + m3) + 3) by (nonlinear_arith)
        requires
            sum == m1 * m1 + m2 * m2 + m3 * m3,
            ee == (2 * m1 + 1) * (2 * m1 + 1) + (2 * m2 + 1) * (2 * m2 + 1) + (2 * m3 + 1) * (2
                * m3 + 1),
    ;
    assert((SCALE - 1) * (SCALE - 1) <= sum) by (nonlinear_arith)
        requires
            ee > 4 * (1_000_000 * 1_000_000),
            ee == 4 * sum + 4 * (m1 + m2 + m3) + 3,
            2 * m1 <= d1 + 1,
            2 * m2 <= d2 + 1,
            2 * m3 <= d3 + 1,
            y == d1 + d2 + d3,
            100 * y < 347 * 1_000_000,
    ;
}

/// The integer square root of a sum within one millionth of `SCALE²` is
/// within one of `SCALE`.
pub proof fn lemma_root_near_scale(sum: int)
    requires
        (SCALE - 1) * (SCALE - 1) <= sum < (SCALE + 1) * (SCALE + 1),
    ensures
        SCALE - 1 <= sqrt_floor(sum) <= SCALE,
{
    lemma_sqrt_floor(sum);
    let r = sqrt_floor(sum);
    assert(r <= SCALE) by (nonlinear_arith)
        requires
            r * r <= sum,
            sum < (1_000_000 + 1) * (1_000_000 + 1),
            r >= 0,
    ;
    assert(r >= SCALE - 1) by (nonlinear_arith)
        requires
            sum < (r + 1) * (r + 1),
            (1_000_000 - 1) * (1_000_000 - 1) <= sum,
            r >= 0,
    ;
}

/// Every non-negative integer has an integer square root.
proof fn isqrt_spec_witness(q: int) -> (w: int)
    requires
        q >= 0,
    ensures
        is_sqrt_floor(q, w),
    decreases q,
{
    if q == 0 {
        0
    } else {
        let p = isqrt_spec_witness(q - 1);
        assert(0 <= p && p * p <= q - 1 && q - 1 < (p + 1) * (p + 1));
        if (p + 1) * (p + 1) <= q {
            assert(q < (p + 2) * (p + 2)) by (nonlinear_arith)
                requires
                    q - 1 < (p + 1) * (p + 1),
                    p >= 0,
            ;
            assert(is_sqrt_floor(q, p + 1));
            p + 1
        } else {
            assert(is_sqrt_floor(q, p));
            p
        }
    }
}

/// A witness of the integer square root is the one `sqrt_floor` picks.
pub proof fn lemma_sqrt_floor_unique(n: int, r: int)
    requires
        is_sqrt_floor(n, r),
    ensures
        sqrt_floor(n) == r,
{
    let c = sqrt_floor(n);
    assert(is_sqrt_floor(n, c));
    if c < r {
        assert((c + 1) * (c + 1) <= r * r) by (nonlinear_arith)
            requires
                0 <= c < r,
        ;
    } else if r < c {
        assert((r + 1) * (r + 1) <= c * c) by (nonlinear_arith)
            requires
                0 <= r < c,
        ;
    }
}

} // verus!
