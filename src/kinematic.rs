//! The capabilities a position or velocity quantity offers the spring
//! solver, with the laws the solver's guarantees rest on, and the scalar,
//! planar and spatial quantities that provide them.
use vstd::prelude::*;
use crate::fixed::{
    clamp_raw, clamped_square, lemma_clamp_raw_odd, lemma_real_mul_one, lemma_real_neg,
    lemma_root_near_scale, lemma_rounded_unit_sum, lemma_unit_axis, lemma_unit_axis_odd, unit_axis, unit_component, abs_int, lemma_real_zero, lemma_sqrt_floor_unique, real_of,
    root_of_squares, sqrt_floor, square, Real, SCALE,
};

verus! {

/// A quantity the solver can work with: a vector space over `Real` with a
/// length, a normalisation, a dot product and a per-axis inverse.
///
/// The inverse is exactly zero on an axis that is zero or saturated: this is
/// how an unbounded mass or inertia drops out of a reduced inertia.
pub trait Kinematic: Sized + Copy {
    spec fn wf(self) -> bool;

    spec fn spec_zero() -> Self;

    spec fn spec_add(self, o: Self) -> Self;

    spec fn spec_sub(self, o: Self) -> Self;

    spec fn spec_neg(self) -> Self;

    /// Per-axis product.
    spec fn spec_mul(self, o: Self) -> Self;

    spec fn spec_scale(self, s: Real) -> Self;

    spec fn spec_length(self) -> Real;

    spec fn spec_normalize_or_zero(self) -> Self;

    spec fn spec_dot(self, o: Self) -> Real;

    /// Per-axis reciprocal, zero where the axis is zero or saturated.
    spec fn spec_inverse(self) -> Self;

    fn zero() -> (r: Self)
        ensures
            r == Self::spec_zero(),
    ;

    fn add(self, o: Self) -> (r: Self)
        ensures
            r == self.spec_add(o),
    ;

    fn sub(self, o: Self) -> (r: Self)
        ensures
            r == self.spec_sub(o),
    ;

    fn neg(self) -> (r: Self)
        ensures
            r == self.spec_neg(),
    ;

    fn mul(self, o: Self) -> (r: Self)
        ensures
            r == self.spec_mul(o),
    ;

    fn scale(self, s: Real) -> (r: Self)
        ensures
            r == self.spec_scale(s),
    ;

    fn length(self) -> (r: Real)
        ensures
            r == self.spec_length(),
    ;

    fn normalize_or_zero(self) -> (r: Self)
        ensures
            r == self.spec_normalize_or_zero(),
    ;

    fn dot(self, o: Self) -> (r: Real)
        ensures
            r == self.spec_dot(o),
    ;

    fn inverse(self) -> (r: Self)
        ensures
            r == self.spec_inverse(),
    ;

    /// Every operation stays inside the well-formed values.
    proof fn lemma_wf(a: Self, b: Self, s: Real)
        ensures
            Self::spec_zero().wf(),
            a.spec_add(b).wf(),
            a.spec_sub(b).wf(),
            a.spec_neg().wf(),
            a.spec_mul(b).wf(),
            a.spec_scale(s).wf(),
            a.spec_normalize_or_zero().wf(),
            a.spec_inverse().wf(),
            a.spec_length().wf(),
            a.spec_dot(b).wf(),
    ;

    /// Negation is exact, and every operation commutes with it.
    proof fn lemma_neg(a: Self, b: Self, s: Real)
        requires
            a.wf(),
            b.wf(),
            s.wf(),
        ensures
            a.spec_neg().spec_neg() == a,
            a.spec_add(b).spec_neg() == a.spec_neg().spec_add(b.spec_neg()),
            b.spec_sub(a) == a.spec_sub(b).spec_neg(),
            a.spec_add(b) == b.spec_add(a),
            a.spec_neg().spec_mul(b) == a.spec_mul(b).spec_neg(),
            a.spec_neg().spec_scale(s) == a.spec_scale(s).spec_neg(),
            a.spec_scale(s.spec_neg()) == a.spec_scale(s).spec_neg(),
            a.spec_neg().spec_length() == a.spec_length(),
            a.spec_neg().spec_normalize_or_zero() == a.spec_normalize_or_zero().spec_neg(),
            a.spec_neg().spec_dot(b) == a.spec_dot(b).spec_neg(),
            a.spec_dot(b.spec_neg()) == a.spec_dot(b).spec_neg(),
    ;

    /// Zero absorbs products and is the identity of addition.
    proof fn lemma_zero(a: Self, s: Real)
        requires
            a.wf(),
        ensures
            Self::spec_zero().spec_neg() == Self::spec_zero(),
            a.spec_add(Self::spec_zero()) == a,
            a.spec_mul(Self::spec_zero()) == Self::spec_zero(),
            Self::spec_zero().spec_mul(a) == Self::spec_zero(),
            Self::spec_zero().spec_scale(s) == Self::spec_zero(),
            a.spec_scale(real_of(0)) == Self::spec_zero(),
            Self::spec_zero().spec_length() == real_of(0),
            Self::spec_zero().spec_normalize_or_zero() == Self::spec_zero(),
            Self::spec_zero().spec_dot(a) == real_of(0),
            Self::spec_zero().spec_inverse() == Self::spec_zero(),
    ;
}

/// A scalar: its length is its magnitude and its unit is its sign.
impl Kinematic for Real {
    open spec fn wf(self) -> bool {
        Real::wf(self)
    }

    open spec fn spec_zero() -> Real {
        real_of(0)
    }

    open spec fn spec_add(self, o: Real) -> Real {
        Real::spec_add(self, o)
    }

    open spec fn spec_sub(self, o: Real) -> Real {
        Real::spec_sub(self, o)
    }

    open spec fn spec_neg(self) -> Real {
        Real::spec_neg(self)
    }

    open spec fn spec_mul(self, o: Real) -> Real {
        Real::spec_mul(self, o)
    }

    open spec fn spec_scale(self, s: Real) -> Real {
        Real::spec_mul(self, s)
    }

    open spec fn spec_length(self) -> Real {
        self.spec_abs()
    }

    open spec fn spec_normalize_or_zero(self) -> Real {
        self.spec_signum()
    }

    open spec fn spec_dot(self, o: Real) -> Real {
        Real::spec_mul(self, o)
    }

    open spec fn spec_inverse(self) -> Real {
        self.spec_recip()
    }

    fn zero() -> (r: Real) {
        Real::zero()
    }

    fn add(self, o: Real) -> (r: Real) {
        Real::add(self, o)
    }

    fn sub(self, o: Real) -> (r: Real) {
        Real::sub(self, o)
    }

    fn neg(self) -> (r: Real) {
        Real::neg(self)
    }

    fn mul(self, o: Real) -> (r: Real) {
        Real::mul(self, o)
    }

    fn scale(self, s: Real) -> (r: Real) {
        Real::mul(self, s)
    }

    fn length(self) -> (r: Real) {
        self.abs()
    }

    fn normalize_or_zero(self) -> (r: Real) {
        self.signum()
    }

    fn dot(self, o: Real) -> (r: Real) {
        Real::mul(self, o)
    }

    fn inverse(self) -> (r: Real) {
        self.recip()
    }

    proof fn lemma_wf(a: Real, b: Real, s: Real) {
    }

    proof fn lemma_neg(a: Real, b: Real, s: Real) {
        lemma_real_neg(a, b);
        lemma_real_neg(a, s);
        lemma_real_neg(s, a);
    }

    proof fn lemma_zero(a: Real, s: Real) {
        lemma_real_zero(a);
        lemma_real_zero(s);
        lemma_real_zero(real_of(0));
    }
}

} // verus!

verus! {

/// A planar quantity.
#[derive(Clone, Copy, Debug, PartialEq, Eq, Structural)]
pub struct Vec2 {
    pub x: Real,
    pub y: Real,
}

/// A spatial quantity.
#[derive(Clone, Copy, Debug, PartialEq, Eq, Structural)]
pub struct Vec3 {
    pub x: Real,
    pub y: Real,
    pub z: Real,
}

impl Vec2 {
    pub fn new(x: Real, y: Real) -> (r: Vec2)
        ensures
            r == (Vec2 { x, y }),
    {
        Vec2 { x, y }
    }

    /// The same value on both axes.
    pub fn splat(v: Real) -> (r: Vec2)
        ensures
            r == (Vec2 { x: v, y: v }),
    {
        Vec2 { x: v, y: v }
    }

    pub open spec fn sum_of_squares(self) -> int {
        self.x.val() * self.x.val() + self.y.val() * self.y.val()
    }
}

impl Vec3 {
    pub fn new(x: Real, y: Real, z: Real) -> (r: Vec3)
        ensures
            r == (Vec3 { x, y, z }),
    {
        Vec3 { x, y, z }
    }

    /// The same value on all three axes.
    pub fn splat(v: Real) -> (r: Vec3)
        ensures
            r == (Vec3 { x: v, y: v, z: v }),
    {
        Vec3 { x: v, y: v, z: v }
    }

    pub open spec fn sum_of_squares(self) -> int {
        self.x.val() * self.x.val() + self.y.val() * self.y.val() + self.z.val() * self.z.val()
    }

    pub open spec fn spec_cross(self, o: Vec3) -> Vec3 {
        Vec3 {
            x: self.y.spec_mul(o.z).spec_sub(self.z.spec_mul(o.y)),
            y: self.z.spec_mul(o.x).spec_sub(self.x.spec_mul(o.z)),
            z: self.x.spec_mul(o.y).spec_sub(self.y.spec_mul(o.x)),
        }
    }

    /// The cross product.
    pub fn cross(self, o: Vec3) -> (r: Vec3)
        ensures
            r == self.spec_cross(o),
    {
        Vec3 {
            x: self.y.mul(o.z).sub(self.z.mul(o.y)),
            y: self.z.mul(o.x).sub(self.x.mul(o.z)),
            z: self.x.mul(o.y).sub(self.y.mul(o.x)),
        }
    }
}

/// A linear map of space, by the images of the three axes.
#[derive(Clone, Copy, Debug, PartialEq, Eq, Structural)]
pub struct Mat3 {
    pub x_axis: Vec3,
    pub y_axis: Vec3,
    pub z_axis: Vec3,
}

impl Mat3 {
    pub open spec fn spec_mul_vec3(self, v: Vec3) -> Vec3 {
        self.x_axis.spec_scale(v.x).spec_add(self.y_axis.spec_scale(v.y)).spec_add(
            self.z_axis.spec_scale(v.z),
        )
    }

    pub open spec fn wf(self) -> bool {
        self.x_axis.wf() && self.y_axis.wf() && self.z_axis.wf()
    }

    /// The images of the unit axes are the columns.
    pub proof fn lemma_axes(self)
        requires
            self.wf(),
        ensures
            self.spec_mul_vec3(Vec3 { x: real_of(SCALE as int), y: real_of(0), z: real_of(0) })
                == self.x_axis,
            self.spec_mul_vec3(Vec3 { x: real_of(0), y: real_of(SCALE as int), z: real_of(0) })
                == self.y_axis,
            self.spec_mul_vec3(Vec3 { x: real_of(0), y: real_of(0), z: real_of(SCALE as int) })
                == self.z_axis,
    {
        let (a, b, c) = (self.x_axis, self.y_axis, self.z_axis);
        lemma_real_mul_one(a.x);
        lemma_real_mul_one(a.y);
        lemma_real_mul_one(a.z);
        lemma_real_mul_one(b.x);
        lemma_real_mul_one(b.y);
        lemma_real_mul_one(b.z);
        lemma_real_mul_one(c.x);
        lemma_real_mul_one(c.y);
        lemma_real_mul_one(c.z);
        Vec3::lemma_zero(a, real_of(0));
        Vec3::lemma_zero(b, real_of(0));
        Vec3::lemma_zero(c, real_of(0));
        Vec3::lemma_neg(Vec3::spec_zero(), b, real_of(0));
        Vec3::lemma_neg(Vec3::spec_zero(), c, real_of(0));
    }

    /// The image of `v`.
    pub fn mul_vec3(&self, v: Vec3) -> (r: Vec3)
        ensures
            r == self.spec_mul_vec3(v),
    {
        self.x_axis.scale(v.x).add(self.y_axis.scale(v.y)).add(self.z_axis.scale(v.z))
    }
}

/// A unit axis as a raw value: within range, so saturation leaves it,
/// and its square is that of its magnitude.
proof fn lemma_axis_value(c: int, s: int)
    requires
        c * c <= s,
        s > 0,
    ensures
        real_of(unit_axis(c, s)).val() == unit_axis(c, s),
        unit_axis(c, s) * unit_axis(c, s) == abs_int(unit_axis(c, s)) * abs_int(unit_axis(c, s)),
{
    lemma_unit_axis(c, s);
    let u = unit_axis(c, s);
    assert(u * u == abs_int(u) * abs_int(u)) by (nonlinear_arith)
        requires
            abs_int(u) == u || abs_int(u) == -u,
    ;
}

impl Vec2 {
    /// A nonzero vector normalizes to length 1 within one millionth: its
    /// squared length lies between `(1 - 1e-6)²` and `(1 + 1e-6)²`, and its
    /// computed length is 1 or one millionth less.
    pub proof fn lemma_unit_length(a: Vec2)
        requires
            a.wf(),
            a != Vec2::spec_zero(),
        ensures
            (SCALE - 1) * (SCALE - 1) <= a.spec_normalize_or_zero().sum_of_squares() < (SCALE + 1)
                * (SCALE + 1),
            abs_int(a.spec_normalize_or_zero().spec_length().val() - SCALE) <= 1,
    {
        let (cx, cy) = (a.x.val(), a.y.val());
        let s = cx * cx + cy * cy;
        assert(0 <= cx * cx && 0 <= cy * cy) by (nonlinear_arith);
        if s == 0 {
            assert(cx == 0 && cy == 0) by (nonlinear_arith)
                requires
                    cx * cx + cy * cy == 0,
                    0 <= cx * cx,
                    0 <= cy * cy,
            ;
            assert(a == Vec2::spec_zero());
        }
        assert(0int * 0 == 0);
        lemma_axis_value(cx, s);
        lemma_axis_value(cy, s);
        lemma_rounded_unit_sum(cx, cy, 0);
        lemma_unit_axis(0, s);
        let n = a.spec_normalize_or_zero();
        lemma_root_near_scale(n.sum_of_squares());
    }
}

impl Vec3 {
    /// A nonzero vector normalizes to length 1 within one millionth: its
    /// squared length lies between `(1 - 1e-6)²` and `(1 + 1e-6)²`, and its
    /// computed length is 1 or one millionth less.
    pub proof fn lemma_unit_length(a: Vec3)
        requires
            a.wf(),
            a != Vec3::spec_zero(),
        ensures
            (SCALE - 1) * (SCALE - 1) <= a.spec_normalize_or_zero().sum_of_squares() < (SCALE + 1)
                * (SCALE + 1),
            abs_int(a.spec_normalize_or_zero().spec_length().val() - SCALE) <= 1,
    {
        let (cx, cy, cz) = (a.x.val(), a.y.val(), a.z.val());
        let s = cx * cx + cy * cy + cz * cz;
        assert(0 <= cx * cx && 0 <= cy * cy && 0 <= cz * cz) by (nonlinear_arith);
        if s == 0 {
            assert(cx == 0 && cy == 0 && cz == 0) by (nonlinear_arith)
                requires
                    cx * cx + cy * cy + cz * cz == 0,
                    0 <= cx * cx,
                    0 <= cy * cy,
                    0 <= cz * cz,
            ;
            assert(a == Vec3::spec_zero());
        }
        lemma_axis_value(cx, s);
        lemma_axis_value(cy, s);
        lemma_axis_value(cz, s);
        lemma_rounded_unit_sum(cx, cy, cz);
        let n = a.spec_normalize_or_zero();
        lemma_root_near_scale(n.sum_of_squares());
    }
}

proof fn lemma_square_neg(x: int)
    ensures
        (-x) * (-x) == x * x,
{
    assert((-x) * (-x) == x * x) by (nonlinear_arith);
}

impl Kinematic for Vec2 {
    open spec fn wf(self) -> bool {
        self.x.wf() && self.y.wf()
    }

    open spec fn spec_zero() -> Vec2 {
        Vec2 { x: real_of(0), y: real_of(0) }
    }

    open spec fn spec_add(self, o: Vec2) -> Vec2 {
        Vec2 { x: self.x.spec_add(o.x), y: self.y.spec_add(o.y) }
    }

    open spec fn spec_sub(self, o: Vec2) -> Vec2 {
        Vec2 { x: self.x.spec_sub(o.x), y: self.y.spec_sub(o.y) }
    }

    open spec fn spec_neg(self) -> Vec2 {
        Vec2 { x: self.x.spec_neg(), y: self.y.spec_neg() }
    }

    open spec fn spec_mul(self, o: Vec2) -> Vec2 {
        Vec2 { x: self.x.spec_mul(o.x), y: self.y.spec_mul(o.y) }
    }

    open spec fn spec_scale(self, s: Real) -> Vec2 {
        Vec2 { x: self.x.spec_mul(s), y: self.y.spec_mul(s) }
    }

    open spec fn spec_length(self) -> Real {
        real_of(sqrt_floor(self.sum_of_squares()))
    }

    /// Each axis is the component over the length, rounded to the nearest
    /// millionth; the length is taken exactly, not rounded first.
    open spec fn spec_normalize_or_zero(self) -> Vec2 {
        let cx = clamp_raw(self.x.val());
        let cy = clamp_raw(self.y.val());
        let s = cx * cx + cy * cy;
        if s == 0 {
            Vec2 { x: real_of(0), y: real_of(0) }
        } else {
            Vec2 { x: real_of(unit_axis(cx, s)), y: real_of(unit_axis(cy, s)) }
        }
    }

    open spec fn spec_dot(self, o: Vec2) -> Real {
        self.x.spec_mul(o.x).spec_add(self.y.spec_mul(o.y))
    }

    open spec fn spec_inverse(self) -> Vec2 {
        Vec2 { x: self.x.spec_recip(), y: self.y.spec_recip() }
    }

    fn zero() -> (r: Vec2) {
        Vec2 { x: Real::zero(), y: Real::zero() }
    }

    fn add(self, o: Vec2) -> (r: Vec2) {
        Vec2 { x: self.x.add(o.x), y: self.y.add(o.y) }
    }

    fn sub(self, o: Vec2) -> (r: Vec2) {
        Vec2 { x: self.x.sub(o.x), y: self.y.sub(o.y) }
    }

    fn neg(self) -> (r: Vec2) {
        Vec2 { x: self.x.neg(), y: self.y.neg() }
    }

    fn mul(self, o: Vec2) -> (r: Vec2) {
        Vec2 { x: self.x.mul(o.x), y: self.y.mul(o.y) }
    }

    fn scale(self, s: Real) -> (r: Vec2) {
        Vec2 { x: self.x.mul(s), y: self.y.mul(s) }
    }

    fn length(self) -> (r: Real) {
        root_of_squares(square(self.x) + square(self.y))
    }

    fn normalize_or_zero(self) -> (r: Vec2) {
        let (cx, qx) = clamped_square(self.x);
        let (cy, qy) = clamped_square(self.y);
        let s: u128 = qx + qy;
        if s == 0 {
            Vec2 { x: Real::zero(), y: Real::zero() }
        } else {
            Vec2 { x: unit_component(cx, s), y: unit_component(cy, s) }
        }
    }

    fn dot(self, o: Vec2) -> (r: Real) {
        self.x.mul(o.x).add(self.y.mul(o.y))
    }

    fn inverse(self) -> (r: Vec2) {
        Vec2 { x: self.x.recip(), y: self.y.recip() }
    }

    proof fn lemma_wf(a: Vec2, b: Vec2, s: Real) {
    }

    proof fn lemma_neg(a: Vec2, b: Vec2, s: Real) {
        lemma_real_neg(a.x, b.x);
        lemma_real_neg(a.y, b.y);
        lemma_real_neg(a.x, s);
        lemma_real_neg(a.y, s);
        lemma_real_neg(a.x.spec_mul(b.x), a.y.spec_mul(b.y));
        lemma_square_neg(a.x.val());
        lemma_square_neg(a.y.val());
        lemma_clamp_raw_odd(a.x.val());
        lemma_clamp_raw_odd(a.y.val());
        let cx = clamp_raw(a.x.val());
        let cy = clamp_raw(a.y.val());
        let sum = cx * cx + cy * cy;
        if sum > 0 {
            lemma_unit_axis_odd(cx, sum);
            lemma_unit_axis_odd(cy, sum);
        }
        lemma_square_neg(cx);
        lemma_square_neg(cy);
    }

    proof fn lemma_zero(a: Vec2, s: Real) {
        lemma_real_zero(a.x);
        lemma_real_zero(a.y);
        lemma_real_zero(s);
        lemma_real_zero(real_of(0));
        assert(0int * 0int + 0int * 0int == 0);
        lemma_sqrt_floor_unique(0, 0);
    }
}

impl Kinematic for Vec3 {
    open spec fn wf(self) -> bool {
        self.x.wf() && self.y.wf() && self.z.wf()
    }

    open spec fn spec_zero() -> Vec3 {
        Vec3 { x: real_of(0), y: real_of(0), z: real_of(0) }
    }

    open spec fn spec_add(self, o: Vec3) -> Vec3 {
        Vec3 { x: self.x.spec_add(o.x), y: self.y.spec_add(o.y), z: self.z.spec_add(o.z) }
    }

    open spec fn spec_sub(self, o: Vec3) -> Vec3 {
        Vec3 { x: self.x.spec_sub(o.x), y: self.y.spec_sub(o.y), z: self.z.spec_sub(o.z) }
    }

    open spec fn spec_neg(self) -> Vec3 {
        Vec3 { x: self.x.spec_neg(), y: self.y.spec_neg(), z: self.z.spec_neg() }
    }

    open spec fn spec_mul(self, o: Vec3) -> Vec3 {
        Vec3 { x: self.x.spec_mul(o.x), y: self.y.spec_mul(o.y), z: self.z.spec_mul(o.z) }
    }

    open spec fn spec_scale(self, s: Real) -> Vec3 {
        Vec3 { x: self.x.spec_mul(s), y: self.y.spec_mul(s), z: self.z.spec_mul(s) }
    }

    open spec fn spec_length(self) -> Real {
        real_of(sqrt_floor(self.sum_of_squares()))
    }

    /// Each axis is the component over the length, rounded to the nearest
    /// millionth; the length is taken exactly, not rounded first.
    open spec fn spec_normalize_or_zero(self) -> Vec3 {
        let cx = clamp_raw(self.x.val());
        let cy = clamp_raw(self.y.val());
        let cz = clamp_raw(self.z.val());
        let s = cx * cx + cy * cy + cz * cz;
        if s == 0 {
            Vec3 { x: real_of(0), y: real_of(0), z: real_of(0) }
        } else {
            Vec3 { x: real_of(unit_axis(cx, s)), y: real_of(unit_axis(cy, s)), z: real_of(unit_axis(cz, s)) }
        }
    }

    open spec fn spec_dot(self, o: Vec3) -> Real {
        self.x.spec_mul(o.x).spec_add(self.y.spec_mul(o.y)).spec_add(self.z.spec_mul(o.z))
    }

    open spec fn spec_inverse(self) -> Vec3 {
        Vec3 { x: self.x.spec_recip(), y: self.y.spec_recip(), z: self.z.spec_recip() }
    }

    fn zero() -> (r: Vec3) {
        Vec3 { x: Real::zero(), y: Real::zero(), z: Real::zero() }
    }

    fn add(self, o: Vec3) -> (r: Vec3) {
        Vec3 { x: self.x.add(o.x), y: self.y.add(o.y), z: self.z.add(o.z) }
    }

    fn sub(self, o: Vec3) -> (r: Vec3) {
        Vec3 { x: self.x.sub(o.x), y: self.y.sub(o.y), z: self.z.sub(o.z) }
    }

    fn neg(self) -> (r: Vec3) {
        Vec3 { x: self.x.neg(), y: self.y.neg(), z: self.z.neg() }
    }

    fn mul(self, o: Vec3) -> (r: Vec3) {
        Vec3 { x: self.x.mul(o.x), y: self.y.mul(o.y), z: self.z.mul(o.z) }
    }

    fn scale(self, s: Real) -> (r: Vec3) {
        Vec3 { x: self.x.mul(s), y: self.y.mul(s), z: self.z.mul(s) }
    }

    fn length(self) -> (r: Real) {
        root_of_squares(square(self.x) + square(self.y) + square(self.z))
    }

    fn normalize_or_zero(self) -> (r: Vec3) {
        let (cx, qx) = clamped_square(self.x);
        let (cy, qy) = clamped_square(self.y);
        let (cz, qz) = clamped_square(self.z);
        let s: u128 = qx + qy + qz;
        if s == 0 {
            Vec3 { x: Real::zero(), y: Real::zero(), z: Real::zero() }
        } else {
            Vec3 { x: unit_component(cx, s), y: unit_component(cy, s), z: unit_component(cz, s) }
        }
    }

    fn dot(self, o: Vec3) -> (r: Real) {
        self.x.mul(o.x).add(self.y.mul(o.y)).add(self.z.mul(o.z))
    }

    fn inverse(self) -> (r: Vec3) {
        Vec3 { x: self.x.recip(), y: self.y.recip(), z: self.z.recip() }
    }

    proof fn lemma_wf(a: Vec3, b: Vec3, s: Real) {
    }

    proof fn lemma_neg(a: Vec3, b: Vec3, s: Real) {
        lemma_real_neg(a.x, b.x);
        lemma_real_neg(a.y, b.y);
        lemma_real_neg(a.z, b.z);
        lemma_real_neg(a.x, s);
        lemma_real_neg(a.y, s);
        lemma_real_neg(a.z, s);
        let xy = a.x.spec_mul(b.x).spec_add(a.y.spec_mul(b.y));
        lemma_real_neg(a.x.spec_mul(b.x), a.y.spec_mul(b.y));
        lemma_real_neg(xy, a.z.spec_mul(b.z));
        lemma_square_neg(a.x.val());
        lemma_square_neg(a.y.val());
        lemma_square_neg(a.z.val());
        lemma_clamp_raw_odd(a.x.val());
        lemma_clamp_raw_odd(a.y.val());
        lemma_clamp_raw_odd(a.z.val());
        let cx = clamp_raw(a.x.val());
        let cy = clamp_raw(a.y.val());
        let cz = clamp_raw(a.z.val());
        let sum = cx * cx + cy * cy + cz * cz;
        if sum > 0 {
            lemma_unit_axis_odd(cx, sum);
            lemma_unit_axis_odd(cy, sum);
            lemma_unit_axis_odd(cz, sum);
        }
        lemma_square_neg(cx);
        lemma_square_neg(cy);
        lemma_square_neg(cz);
    }

    proof fn lemma_zero(a: Vec3, s: Real) {
        lemma_real_zero(a.x);
        lemma_real_zero(a.y);
        lemma_real_zero(a.z);
        lemma_real_zero(s);
        lemma_real_zero(real_of(0));
        assert(0int * 0int + 0int * 0int + 0int * 0int == 0);
        lemma_sqrt_floor_unique(0, 0);
    }
}

} // verus!
