use springmass::scalar::Scalar;
use springmass::scene::Scene;

const UNIT: i64 = 1_000_000;

#[test]
fn new_scene_has_the_documented_defaults() {
    let s = Scene::new();
    assert_eq!(s.get_mass(), Scalar::Finite(UNIT));
    assert_eq!(s.get_spring_rate(), Scalar::Finite(100 * UNIT));
    assert_eq!(s.get_gravity_acceleration_x(), Scalar::Finite(0));
    assert_eq!(s.get_gravity_acceleration_y(), Scalar::Finite(-9_810_000));
    assert_eq!(s.get_drag(), Scalar::Finite(500_000));
    assert_eq!(s.get_position_x(), Scalar::Finite(0));
    assert_eq!(s.get_position_y(), Scalar::Finite(0));
    assert_eq!(s.get_velocity_x(), Scalar::Finite(0));
    assert_eq!(s.get_velocity_y(), Scalar::Finite(0));
    assert!(s.has_finite_pos_vel());
}

#[test]
fn accessors_round_trip() {
    let mut s = Scene::new();
    s.set_position(Scalar::Finite(3 * UNIT), Scalar::Finite(-2 * UNIT));
    assert_eq!(s.get_position_x(), Scalar::Finite(3 * UNIT));
    assert_eq!(s.get_position_y(), Scalar::Finite(-2 * UNIT));
    s.set_velocity(Scalar::Finite(UNIT / 2), Scalar::Finite(UNIT / 4));
    assert_eq!(s.get_velocity_x(), Scalar::Finite(UNIT / 2));
    assert_eq!(s.get_velocity_y(), Scalar::Finite(UNIT / 4));
    s.set_mass(Scalar::Finite(2 * UNIT));
    assert_eq!(s.get_mass(), Scalar::Finite(2 * UNIT));
    s.set_spring_rate(Scalar::Finite(7 * UNIT));
    assert_eq!(s.get_spring_rate(), Scalar::Finite(7 * UNIT));
    s.set_gravity_acceleration(Scalar::Finite(UNIT), Scalar::Finite(-UNIT));
    assert_eq!(s.get_gravity_acceleration_x(), Scalar::Finite(UNIT));
    assert_eq!(s.get_gravity_acceleration_y(), Scalar::Finite(-UNIT));
    s.set_gravity_acceleration_x(Scalar::Finite(0));
    s.set_gravity_acceleration_y(Scalar::Finite(-9_810_000));
    assert_eq!(s.get_gravity_acceleration_x(), Scalar::Finite(0));
    assert_eq!(s.get_gravity_acceleration_y(), Scalar::Finite(-9_810_000));
    s.set_drag(Scalar::Finite(UNIT));
    assert_eq!(s.get_drag(), Scalar::Finite(UNIT));
}

#[test]
fn body_at_equilibrium_stays_put() {
    let mut s = Scene::new();
    // keep the spring (default rate), remove gravity and drag
    s.set_gravity_acceleration(Scalar::Finite(0), Scalar::Finite(0));
    s.set_drag(Scalar::Finite(0));
    s.set_spring_equilibrium_position(Scalar::Finite(2 * UNIT), Scalar::Finite(-UNIT));
    s.set_position(Scalar::Finite(2 * UNIT), Scalar::Finite(-UNIT));
    for _ in 0..50 {
        s.tick(Scalar::Finite(250_000));
        assert_eq!(s.get_position_x(), Scalar::Finite(2 * UNIT));
        assert_eq!(s.get_position_y(), Scalar::Finite(-UNIT));
        assert_eq!(s.get_velocity_x(), Scalar::Finite(0));
        assert_eq!(s.get_velocity_y(), Scalar::Finite(0));
    }
}

#[test]
fn one_second_of_free_fall() {
    let mut s = Scene::new();
    s.set_spring_rate(Scalar::Finite(0));
    s.set_drag(Scalar::Finite(0));
    // gravity (0, -9.81), mass 1, at rest at the origin
    s.tick(Scalar::Finite(UNIT));
    assert_eq!(s.get_velocity_x(), Scalar::Finite(0));
    assert_eq!(s.get_velocity_y(), Scalar::Finite(-9_810_000));
    assert_eq!(s.get_position_x(), Scalar::Finite(0));
    assert_eq!(s.get_position_y(), Scalar::Finite(-9_810_000));
}

#[test]
fn drag_decays_velocity_without_reaching_zero() {
    let mut s = Scene::new();
    s.set_spring_rate(Scalar::Finite(0));
    s.set_drag(Scalar::Finite(UNIT));
    s.set_gravity_acceleration(Scalar::Finite(0), Scalar::Finite(0));
    s.set_velocity(Scalar::Finite(10 * UNIT), Scalar::Finite(0));
    let mut previous: i64 = 10 * UNIT;
    for _ in 0..20 {
        s.tick(Scalar::Finite(UNIT / 2));
        match s.get_velocity_x() {
            Scalar::Finite(u) => {
                assert!(0 < u && u < previous);
                previous = u;
            }
            other => panic!("velocity diverged to {:?}", other),
        }
    }
    // halving each step: 10, 5, 2.5, ...
    assert_eq!(s.get_velocity_y(), Scalar::Finite(0));
}

#[test]
fn zero_mass_diverges_and_is_detected() {
    let mut s = Scene::new();
    s.set_mass(Scalar::Finite(0));
    s.tick(Scalar::Finite(16_667));
    assert!(!s.has_finite_pos_vel());
}

#[test]
fn zero_timestep_freezes_position_and_velocity() {
    let mut s = Scene::new();
    s.set_position(Scalar::Finite(UNIT), Scalar::Finite(2 * UNIT));
    s.set_velocity(Scalar::Finite(3 * UNIT), Scalar::Finite(4 * UNIT));
    for _ in 0..10 {
        s.tick(Scalar::Finite(0));
        assert_eq!(s.get_position_x(), Scalar::Finite(UNIT));
        assert_eq!(s.get_position_y(), Scalar::Finite(2 * UNIT));
        assert_eq!(s.get_velocity_x(), Scalar::Finite(3 * UNIT));
        assert_eq!(s.get_velocity_y(), Scalar::Finite(4 * UNIT));
    }
}

#[test]
fn spring_pulls_a_displaced_body_toward_equilibrium() {
    let mut s = Scene::new();
    s.set_drag(Scalar::Finite(0));
    s.set_gravity_acceleration(Scalar::Finite(0), Scalar::Finite(0));
    // displaced one metre along x from the default equilibrium at the
    // origin: the first tick must accelerate toward negative x
    s.set_position(Scalar::Finite(UNIT), Scalar::Finite(0));
    s.tick(Scalar::Finite(10_000));
    match s.get_velocity_x() {
        Scalar::Finite(u) => assert!(u < 0),
        other => panic!("velocity diverged to {:?}", other),
    }
    assert_eq!(s.get_velocity_y(), Scalar::Finite(0));
}
