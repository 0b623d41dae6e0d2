use springmass::scalar::Scalar;

#[test]
fn from_units_builds_finite_values() {
    assert_eq!(Scalar::from_units(2_500_000), Scalar::Finite(2_500_000));
    assert_eq!(Scalar::from_units(0), Scalar::Finite(0));
    // The one count outside the symmetric range saturates.
    assert_eq!(Scalar::from_units(i64::MIN), Scalar::NegInf);
}

#[test]
fn addition_is_exact_on_finite_values() {
    let a = Scalar::Finite(1_500_000);
    let b = Scalar::Finite(-400_000);
    assert_eq!(a.plus(b), Scalar::Finite(1_100_000));
    assert_eq!(a.minus(b), Scalar::Finite(1_900_000));
}

#[test]
fn addition_saturates_to_infinity() {
    let big = Scalar::Finite(i64::MAX);
    assert_eq!(big.plus(Scalar::Finite(1_000_000)), Scalar::Inf);
    assert_eq!(big.neg().minus(Scalar::Finite(1_000_000)), Scalar::NegInf);
}

#[test]
fn opposite_infinities_are_indeterminate() {
    assert_eq!(Scalar::Inf.plus(Scalar::NegInf), Scalar::NaN);
    assert_eq!(Scalar::Inf.plus(Scalar::Inf), Scalar::Inf);
    assert_eq!(Scalar::Inf.plus(Scalar::Finite(7)), Scalar::Inf);
}

#[test]
fn multiplication_truncates_toward_zero() {
    // 2.5 * 4.0 == 10.0 exactly
    assert_eq!(
        Scalar::Finite(2_500_000).times(Scalar::Finite(4_000_000)),
        Scalar::Finite(10_000_000)
    );
    // one micro-unit squared truncates to zero
    assert_eq!(Scalar::Finite(1).times(Scalar::Finite(1)), Scalar::Finite(0));
    // (-1.5) * 0.5 == -0.75
    assert_eq!(
        Scalar::Finite(-1_500_000).times(Scalar::Finite(500_000)),
        Scalar::Finite(-750_000)
    );
}

#[test]
fn zero_times_infinity_is_indeterminate() {
    assert_eq!(Scalar::Finite(0).times(Scalar::Inf), Scalar::NaN);
    assert_eq!(Scalar::NegInf.times(Scalar::Finite(0)), Scalar::NaN);
    assert_eq!(Scalar::Inf.times(Scalar::Finite(-2_000_000)), Scalar::NegInf);
}

#[test]
fn division_by_zero_follows_the_sign() {
    assert_eq!(Scalar::Finite(1_000_000).divided_by(Scalar::Finite(0)), Scalar::Inf);
    assert_eq!(Scalar::Finite(-3).divided_by(Scalar::Finite(0)), Scalar::NegInf);
    assert_eq!(Scalar::Finite(0).divided_by(Scalar::Finite(0)), Scalar::NaN);
}

#[test]
fn division_is_exact_where_representable() {
    // 1.0 / 2.0 == 0.5
    assert_eq!(
        Scalar::one().divided_by(Scalar::Finite(2_000_000)),
        Scalar::Finite(500_000)
    );
    // finite over infinite is zero
    assert_eq!(Scalar::Finite(5_000_000).divided_by(Scalar::Inf), Scalar::Finite(0));
    // infinite over infinite is indeterminate
    assert_eq!(Scalar::Inf.divided_by(Scalar::NegInf), Scalar::NaN);
}

#[test]
fn hypot_matches_the_pythagorean_triples() {
    // 3-4-5, at unit scale
    assert_eq!(
        Scalar::Finite(3_000_000).hypot(Scalar::Finite(4_000_000)),
        Scalar::Finite(5_000_000)
    );
    // sqrt(2), rounded down to the unit grid
    assert_eq!(
        Scalar::Finite(1_000_000).hypot(Scalar::Finite(1_000_000)),
        Scalar::Finite(1_414_213)
    );
    assert_eq!(Scalar::Finite(0).hypot(Scalar::Finite(0)), Scalar::Finite(0));
}

#[test]
fn hypot_treats_infinity_as_dominant() {
    assert_eq!(Scalar::Inf.hypot(Scalar::NaN), Scalar::Inf);
    assert_eq!(Scalar::Finite(3).hypot(Scalar::NegInf), Scalar::Inf);
    assert_eq!(Scalar::NaN.hypot(Scalar::Finite(1)), Scalar::NaN);
}

#[test]
fn finiteness_query_rejects_all_non_finite_values() {
    assert!(Scalar::Finite(-123).is_finite());
    assert!(!Scalar::Inf.is_finite());
    assert!(!Scalar::NegInf.is_finite());
    assert!(!Scalar::NaN.is_finite());
}
