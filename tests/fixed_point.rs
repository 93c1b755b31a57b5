use springy::fixed::{isqrt, Real, MAX};
use springy::kinematic::{Kinematic, Mat3, Vec2, Vec3};

fn r(micros: i64) -> Real {
    Real::from_micros(micros)
}

fn n(units: i32) -> Real {
    Real::from_int(units)
}

#[test]
fn from_int_counts_millionths() {
    assert_eq!(n(3).micros, 3_000_000);
    assert_eq!(n(-2).micros, -2_000_000);
}

#[test]
fn from_micros_saturates_the_minimum() {
    assert_eq!(r(i64::MIN).micros, -MAX);
    assert_eq!(r(5).micros, 5);
}

#[test]
fn product_rounds_toward_zero() {
    assert_eq!(n(3).mul(n(4)), n(12));
    assert_eq!(r(1_500_000).mul(r(1_500_000)), r(2_250_000));
    assert_eq!(r(3).mul(r(500_000)), r(1));
    assert_eq!(r(-3).mul(r(500_000)), r(-1));
}

#[test]
fn sum_saturates() {
    assert_eq!(Real::infinity().add(n(1)), Real::infinity());
    assert_eq!(Real::infinity().neg().sub(n(1)).micros, -MAX);
    assert_eq!(Real::infinity().mul(n(2)), Real::infinity());
}

#[test]
fn quotient_rounds_toward_zero() {
    assert_eq!(n(1).div(r(10_000)), n(100));
    assert_eq!(n(1).div(n(3)), r(333_333));
    assert_eq!(n(-1).div(n(3)), r(-333_333));
    assert_eq!(n(1).div(n(-3)), r(-333_333));
}

#[test]
fn reciprocal_is_zero_where_not_normal() {
    assert_eq!(n(4).recip(), r(250_000));
    assert_eq!(n(-2).recip(), r(-500_000));
    assert_eq!(Real::zero().recip(), Real::zero());
    assert_eq!(Real::infinity().recip(), Real::zero());
    assert_eq!(Real::infinity().neg().recip(), Real::zero());
}

#[test]
fn square_root_of_units() {
    assert_eq!(n(4).sqrt(), n(2));
    assert_eq!(r(250_000).sqrt(), r(500_000));
    assert_eq!(n(2).sqrt(), r(1_414_213));
    assert_eq!(n(-4).sqrt(), Real::zero());
}

#[test]
fn integer_square_root_bounds() {
    assert_eq!(isqrt(0), 0);
    assert_eq!(isqrt(15), 3);
    assert_eq!(isqrt(16), 4);
    assert_eq!(isqrt(u128::MAX), u64::MAX);
}

#[test]
fn clamp_and_sign() {
    assert_eq!(n(5).clamp(Real::zero(), Real::one()), Real::one());
    assert_eq!(n(-5).clamp(Real::zero(), Real::one()), Real::zero());
    assert_eq!(r(300_000).clamp(Real::zero(), Real::one()), r(300_000));
    assert_eq!(n(-7).signum(), n(-1));
    assert_eq!(n(-7).abs(), n(7));
}

#[test]
fn scalar_length_is_magnitude_and_unit_is_sign() {
    assert_eq!(Kinematic::length(n(-10)), n(10));
    assert_eq!(Kinematic::normalize_or_zero(n(-10)), n(-1));
    assert_eq!(Kinematic::normalize_or_zero(n(0)), n(0));
    assert_eq!(Kinematic::inverse(n(0)), n(0));
}

#[test]
fn planar_length_and_unit() {
    let v = Vec2::new(n(3), n(4));
    assert_eq!(v.length(), n(5));
    assert_eq!(v.normalize_or_zero(), Vec2::new(r(600_000), r(800_000)));
    assert_eq!(Vec2::zero().normalize_or_zero(), Vec2::zero());
    assert_eq!(v.dot(Vec2::new(n(1), n(2))), n(11));
}

#[test]
fn planar_inverse_per_axis() {
    let v = Vec2::new(n(2), Real::infinity());
    assert_eq!(v.inverse(), Vec2::new(r(500_000), Real::zero()));
}

#[test]
fn spatial_length_cross_and_dot() {
    let v = Vec3::new(n(2), n(3), n(6));
    assert_eq!(v.length(), n(7));
    let x = Vec3::new(n(1), n(0), n(0));
    let y = Vec3::new(n(0), n(1), n(0));
    assert_eq!(x.cross(y), Vec3::new(n(0), n(0), n(1)));
    assert_eq!(y.cross(x), Vec3::new(n(0), n(0), n(-1)));
    assert_eq!(v.dot(v), n(49));
    assert_eq!(v.neg(), Vec3::new(n(-2), n(-3), n(-6)));
}

#[test]
fn spatial_length_saturates() {
    let big = Vec3::splat(Real::infinity());
    assert_eq!(big.length(), Real::infinity());
}

#[test]
fn rotation_maps_axes() {
    let quarter_turn = Mat3 {
        x_axis: Vec3::new(n(0), n(1), n(0)),
        y_axis: Vec3::new(n(-1), n(0), n(0)),
        z_axis: Vec3::new(n(0), n(0), n(1)),
    };
    assert_eq!(quarter_turn.mul_vec3(Vec3::new(n(1), n(0), n(0))), Vec3::new(n(0), n(1), n(0)));
    assert_eq!(quarter_turn.mul_vec3(Vec3::new(n(2), n(3), n(0))), Vec3::new(n(-3), n(2), n(0)));
}

#[test]
fn tiny_planar_vector_normalizes_to_unit_length() {
    let u = Vec2::new(r(1), r(1)).normalize_or_zero();
    assert_eq!(u, Vec2::new(r(707_107), r(707_107)));
    assert_eq!(u.length(), n(1));
    assert_eq!(Vec3::new(r(1), r(1), r(0)).normalize_or_zero().length(), n(1));
}

#[test]
fn tiny_spatial_vector_normalizes_to_unit_length() {
    let u = Vec3::new(r(1), r(1), r(1)).normalize_or_zero();
    assert_eq!(u, Vec3::splat(r(577_350)));
    assert_eq!(u.length(), r(999_999));
    assert_eq!(
        Vec3::new(r(2), r(1), r(1)).normalize_or_zero(),
        Vec3::new(r(816_497), r(408_248), r(408_248))
    );
    assert_eq!(
        Vec3::new(r(-2), r(-1), r(-1)).normalize_or_zero(),
        Vec3::new(r(-816_497), r(-408_248), r(-408_248))
    );
    let w = Vec3::new(r(1), r(2), r(3)).normalize_or_zero();
    assert_eq!(w, Vec3::new(r(267_261), r(534_522), r(801_784)));
    assert_eq!(w.length(), r(999_999));
}

#[test]
fn reciprocal_of_a_finite_value_is_never_zero() {
    assert_eq!(n(2_000_000).recip(), r(1));
    assert_eq!(r(1).recip(), n(1_000_000));
    assert_eq!(n(3).recip(), r(333_334));
    assert_eq!(n(-3).recip(), r(-333_334));
}

#[test]
fn range_saturates_at_five_million_units() {
    assert_eq!(MAX, 5_000_000_000_000);
    assert_eq!(n(20_000_000), Real::infinity());
    assert_eq!(n(3_000_000).add(n(4_000_000)), Real::infinity());
    assert_eq!(n(3_000_000).add(n(1_000_000)), n(4_000_000));
    assert_eq!(Real::infinity().recip(), Real::zero());
}
