use springmass::scalar::Scalar;
use springmass::vec2::Vec2;

fn v(x: i64, y: i64) -> Vec2 {
    Vec2::new(Scalar::Finite(x), Scalar::Finite(y))
}

#[test]
fn component_wise_arithmetic() {
    let a = v(1_000_000, -2_000_000);
    let b = v(250_000, 750_000);
    assert_eq!(a.added(&b), v(1_250_000, -1_250_000));
    assert_eq!(a.subtracted(&b), v(750_000, -2_750_000));
    assert_eq!(a.scaled(Scalar::Finite(2_000_000)), v(2_000_000, -4_000_000));
}

#[test]
fn distance_matches_the_triple() {
    // (1,2) to (4,6) is a 3-4-5 triangle
    let a = v(1_000_000, 2_000_000);
    let b = v(4_000_000, 6_000_000);
    assert_eq!(a.dist(&b), Scalar::Finite(5_000_000));
}

#[test]
fn distance_is_symmetric_on_samples() {
    let a = v(-3_000_000, 7_500_000);
    let b = v(2_250_000, -1_000_000);
    assert_eq!(a.dist(&b), b.dist(&a));
    let c = v(0, 0);
    assert_eq!(a.dist(&c), c.dist(&a));
}

#[test]
fn magnitude_is_invariant_under_negation() {
    let a = v(3_000_000, -4_000_000);
    let negated = a.scaled(Scalar::Finite(-1_000_000));
    assert_eq!(negated, v(-3_000_000, 4_000_000));
    assert_eq!(negated.mag(), a.mag());
    assert_eq!(a.mag(), Scalar::Finite(5_000_000));
}

#[test]
fn normalizing_a_zero_vector_yields_zero() {
    let z = v(0, 0);
    assert_eq!(z.normalized(), z);
    assert!(z.normalized().is_finite());
}

#[test]
fn rescaling_a_zero_vector_yields_zero() {
    let z = v(0, 0);
    assert_eq!(z.with_mag(Scalar::Finite(7_000_000)), z);
    assert_eq!(z.with_mag(Scalar::Finite(-2_500_000)), z);
    assert_eq!(z.with_mag(Scalar::Finite(0)), z);
}

#[test]
fn normalized_vector_has_unit_magnitude() {
    // (3,4)/5 == (0.6, 0.8), whose magnitude is exactly 1
    let a = v(3_000_000, 4_000_000);
    let n = a.normalized();
    assert_eq!(n, v(600_000, 800_000));
    assert_eq!(n.mag(), Scalar::Finite(1_000_000));
}

#[test]
fn normalized_magnitude_stays_within_the_tolerance_band() {
    // not an exact triple: sqrt(1.25) is irrational, so truncation
    // bites, but the magnitude must stay within 0.11 percent below one
    let a = v(1_000_000, 500_000);
    match a.normalized().mag() {
        Scalar::Finite(u) => assert!(998_997 <= u && u <= 1_000_000),
        other => panic!("normalisation diverged to {:?}", other),
    }
    let b = v(-7_250_000, 3_100_000);
    match b.normalized().mag() {
        Scalar::Finite(u) => assert!(998_997 <= u && u <= 1_000_000),
        other => panic!("normalisation diverged to {:?}", other),
    }
}

#[test]
fn with_mag_scales_the_direction() {
    let a = v(3_000_000, 4_000_000);
    assert_eq!(a.with_mag(Scalar::Finite(10_000_000)), v(6_000_000, 8_000_000));
}

#[test]
fn finiteness_needs_both_components() {
    assert!(v(1, 2).is_finite());
    assert!(!Vec2::new(Scalar::Inf, Scalar::Finite(0)).is_finite());
    assert!(!Vec2::new(Scalar::Finite(0), Scalar::NaN).is_finite());
}
