//! The properties the simulation promises, proved once and for all
//! over the spec-level model that every executable contract of this
//! crate is stated against.

use vstd::prelude::*;

use vstd::arithmetic::div_mod::lemma_div_is_ordered;
use vstd::arithmetic::div_mod::lemma_div_is_ordered_by_denominator;
use vstd::arithmetic::div_mod::lemma_div_non_zero;
use vstd::arithmetic::div_mod::lemma_div_multiples_vanish;
use vstd::arithmetic::div_mod::lemma_div_nonincreasing;
use vstd::arithmetic::div_mod::lemma_div_pos_is_pos;
use vstd::arithmetic::div_mod::lemma_fundamental_div_mod;
use vstd::arithmetic::div_mod::lemma_mod_division_less_than_divisor;

use crate::scalar::MAX_UNITS;
use crate::scalar::SCALE;
use crate::scalar::Scalar;
use crate::scalar::abs_i;
use crate::scalar::lemma_component_le_isqrt;
use crate::scalar::lemma_isqrt_le;
use crate::scalar::is_isqrt;
use crate::scalar::lemma_isqrt_exists;
use crate::scalar::lemma_isqrt_unique;
use crate::scalar::mul_units;
use crate::scalar::sat;
use crate::scalar::spec_div;
use crate::scalar::spec_minus;
use crate::scalar::spec_plus;
use crate::scalar::spec_is_finite;
use crate::scalar::spec_isqrt;
use crate::scalar::spec_neg;
use crate::scalar::spec_one;
use crate::scalar::spec_times;
use crate::scalar::spec_zero;
use crate::scalar::units_of;
use crate::scalar::wf;
use crate::vec2::Vec2;
use crate::vec2::spec_dist;
use crate::vec2::spec_mag;
use crate::vec2::spec_mag_sq_units;
use crate::vec2::spec_subtracted;
use crate::vec2::spec_normalized;
use crate::vec2::spec_scaled;
use crate::vec2::spec_vec_is_finite;
use crate::vec2::spec_vec_wf;
use crate::vec2::spec_vec_zero;
use crate::vec2::spec_with_mag;
use crate::physics::spec_forces_on_body;
use crate::scene::Scene;
use crate::scene::spec_scene_tick;

verus! {

/// Scaling a finite, well-formed value by minus one negates its unit
/// count exactly.
proof fn lemma_times_minus_one(a: Scalar)
    requires
        spec_is_finite(a),
        wf(a),
    ensures
        spec_times(a, spec_neg(spec_one())) == Scalar::Finite((-units_of(a)) as i64),
{
    let u = units_of(a);
    lemma_div_multiples_vanish(abs_i(u), SCALE as int);
    assert(abs_i(u) * (SCALE as int) / (SCALE as int) == abs_i(u));
    assert(mul_units(u, -(SCALE as int)) == -u);
}

/// The magnitude of a vector is invariant under negation: for every
/// finite, well-formed vector `v`, scaling by minus one preserves the
/// magnitude.
pub proof fn lemma_mag_of_negation(v: Vec2)
    requires
        spec_vec_is_finite(v),
        spec_vec_wf(v),
    ensures
        spec_mag(spec_scaled(v, spec_neg(spec_one()))) == spec_mag(v),
{
    lemma_times_minus_one(v.x);
    lemma_times_minus_one(v.y);
    let ux = units_of(v.x);
    let uy = units_of(v.y);
    assert((-ux) * (-ux) == ux * ux && (-uy) * (-uy) == uy * uy) by (nonlinear_arith);
}

/// Normalising the zero vector yields the zero vector exactly, never
/// an indeterminate value.
pub proof fn lemma_normalize_zero()
    ensures
        spec_normalized(spec_vec_zero()) == spec_vec_zero(),
{
    lemma_isqrt_exists(0);
    assert(is_isqrt(0, 0));
    lemma_isqrt_unique(0, spec_isqrt(0), 0);
}

/// Rescaling the zero vector to any finite target magnitude still
/// yields the zero vector: the zero-vector policy wins over the
/// requested length.
pub proof fn lemma_with_mag_zero(m: Scalar)
    requires
        spec_is_finite(m),
    ensures
        spec_with_mag(spec_vec_zero(), m) == spec_vec_zero(),
{
    lemma_normalize_zero();
    assert(0int * abs_i(units_of(m)) == 0) by (nonlinear_arith);
    assert(0int / (SCALE as int) == 0);
    assert(mul_units(0, units_of(m)) == 0);
}

/// Distance is symmetric: for all finite, well-formed `a` and `b`,
/// the distance from `a` to `b` equals the distance from `b` to `a`.
pub proof fn lemma_dist_symmetric(a: Vec2, b: Vec2)
    requires
        spec_vec_is_finite(a),
        spec_vec_wf(a),
        spec_vec_is_finite(b),
        spec_vec_wf(b),
    ensures
        spec_dist(a, b) == spec_dist(b, a),
{
    let dx = units_of(b.x) - units_of(a.x);
    let dy = units_of(b.y) - units_of(a.y);
    assert(dx * dx == (-dx) * (-dx) && dy * dy == (-dy) * (-dy)) by (nonlinear_arith);
}

/// A product with a non-finite factor is never finite.
proof fn lemma_times_nonfinite(a: Scalar, b: Scalar)
    requires
        !(a is Finite) || !(b is Finite),
    ensures
        !(spec_times(a, b) is Finite),
{
}

/// A sum with a non-finite term is never finite.
proof fn lemma_plus_nonfinite(a: Scalar, b: Scalar)
    requires
        !(a is Finite) || !(b is Finite),
    ensures
        !(spec_plus(a, b) is Finite),
{
}

/// Multiplying a finite value by zero yields exactly zero.
proof fn lemma_times_zero_right(a: Scalar)
    requires
        spec_is_finite(a),
    ensures
        spec_times(a, spec_zero()) == spec_zero(),
{
    assert(abs_i(units_of(a)) * abs_i(0) == 0) by (nonlinear_arith);
    assert(0int / (SCALE as int) == 0);
}

/// Adding zero to a finite, well-formed value changes nothing.
proof fn lemma_plus_zero_right(a: Scalar)
    requires
        spec_is_finite(a),
        wf(a),
    ensures
        spec_plus(a, spec_zero()) == a,
{
}

/// Setting the mass to zero makes the next step diverge: whatever the
/// timestep and the rest of the state, the body's velocity and
/// position are non-finite afterwards, so the host's finiteness probe
/// reports false.
pub proof fn lemma_zero_mass_diverges(s: Scene, timestep: Scalar)
    requires
        s.body.mass == spec_zero(),
    ensures
        !spec_vec_is_finite(spec_scene_tick(s, timestep).body.velocity),
        !spec_vec_is_finite(spec_scene_tick(s, timestep).body.position),
{
    let force = spec_forces_on_body(s.environment, s.body);
    let recip = spec_div(spec_one(), spec_zero());
    assert(recip == Scalar::Inf);
    lemma_times_nonfinite(force.x, recip);
    lemma_times_nonfinite(force.y, recip);
    let after = spec_scene_tick(s, timestep).body;
    lemma_times_nonfinite(after.acceleration.x, timestep);
    lemma_times_nonfinite(after.acceleration.y, timestep);
    lemma_plus_nonfinite(s.body.velocity.x, spec_times(after.acceleration.x, timestep));
    lemma_plus_nonfinite(s.body.velocity.y, spec_times(after.acceleration.y, timestep));
    lemma_times_nonfinite(after.velocity.x, timestep);
    lemma_times_nonfinite(after.velocity.y, timestep);
    lemma_plus_nonfinite(s.body.position.x, spec_times(after.velocity.x, timestep));
    lemma_plus_nonfinite(s.body.position.y, spec_times(after.velocity.y, timestep));
}

/// A step of timestep zero leaves position and velocity unchanged,
/// provided the state is finite and the acceleration the step computes
/// is itself finite (a zero mass, say, breaks that and diverges
/// instead).
pub proof fn lemma_zero_timestep_freezes(s: Scene)
    requires
        spec_vec_is_finite(s.body.velocity),
        spec_vec_wf(s.body.velocity),
        spec_vec_is_finite(s.body.position),
        spec_vec_wf(s.body.position),
        spec_vec_is_finite(spec_scene_tick(s, spec_zero()).body.acceleration),
    ensures
        spec_scene_tick(s, spec_zero()).body.velocity == s.body.velocity,
        spec_scene_tick(s, spec_zero()).body.position == s.body.position,
{
    let after = spec_scene_tick(s, spec_zero()).body;
    lemma_times_zero_right(after.acceleration.x);
    lemma_times_zero_right(after.acceleration.y);
    lemma_plus_zero_right(s.body.velocity.x);
    lemma_plus_zero_right(s.body.velocity.y);
    lemma_times_zero_right(after.velocity.x);
    lemma_times_zero_right(after.velocity.y);
    lemma_plus_zero_right(s.body.position.x);
    lemma_plus_zero_right(s.body.position.y);
}

/// A finite, well-formed value minus itself is exactly zero.
proof fn lemma_minus_self(a: Scalar)
    requires
        spec_is_finite(a),
        wf(a),
    ensures
        spec_minus(a, a) == spec_zero(),
{
}

/// Multiplying zero by a finite value yields exactly zero.
proof fn lemma_times_zero_left(b: Scalar)
    requires
        spec_is_finite(b),
    ensures
        spec_times(spec_zero(), b) == spec_zero(),
{
    assert(abs_i(0) * abs_i(units_of(b)) == 0) by (nonlinear_arith);
    assert(0int / (SCALE as int) == 0);
}

/// The reciprocal of a finite, nonzero value is finite: the quotient
/// of the two scale factors by at least one unit stays in range.
proof fn lemma_recip_finite(m: Scalar)
    requires
        spec_is_finite(m),
        units_of(m) != 0,
    ensures
        spec_div(spec_one(), m) is Finite,
{
    let um = units_of(m);
    assert(abs_i(um) >= 1);
    lemma_div_pos_is_pos((SCALE as int) * (SCALE as int), abs_i(um));
    lemma_div_nonincreasing((SCALE as int) * (SCALE as int), abs_i(um));
}

/// The state the stationarity law speaks of: the body sits exactly at
/// the spring's equilibrium with zero velocity, under zero gravity and
/// zero drag, with a finite nonzero mass and a finite spring rate.
pub open spec fn at_rest_at_equilibrium(s: Scene) -> bool {
    &&& s.body.position == s.environment.spring_equilibrium_position
    &&& spec_vec_is_finite(s.body.position)
    &&& spec_vec_wf(s.body.position)
    &&& s.body.velocity == spec_vec_zero()
    &&& s.environment.gravity_acceleration == spec_vec_zero()
    &&& s.environment.drag == spec_zero()
    &&& spec_is_finite(s.body.mass)
    &&& units_of(s.body.mass) != 0
    &&& spec_is_finite(s.environment.spring_rate)
}

/// A body at rest exactly at the equilibrium, under zero gravity and
/// zero drag, feels zero net force, and one step of any finite
/// timestep leaves its position and velocity unchanged.
pub proof fn lemma_equilibrium_step_is_stationary(s: Scene, timestep: Scalar)
    requires
        at_rest_at_equilibrium(s),
        spec_is_finite(timestep),
    ensures
        spec_forces_on_body(s.environment, s.body) == spec_vec_zero(),
        spec_scene_tick(s, timestep).body.position == s.body.position,
        spec_scene_tick(s, timestep).body.velocity == spec_vec_zero(),
{
    let env = s.environment;
    let body = s.body;
    lemma_minus_self(body.position.x);
    lemma_minus_self(body.position.y);
    lemma_normalize_zero();
    lemma_isqrt_exists(0);
    assert(is_isqrt(0, 0));
    lemma_isqrt_unique(0, spec_isqrt(0), 0);
    let dist = spec_dist(env.spring_equilibrium_position, body.position);
    assert(dist == spec_zero());
    lemma_times_zero_right(env.spring_rate);
    lemma_with_mag_zero(spec_zero());
    lemma_times_zero_left(body.mass);
    lemma_times_zero_left(timestep);
    let recip = spec_div(spec_one(), body.mass);
    lemma_recip_finite(body.mass);
    lemma_times_zero_left(recip);
    lemma_plus_zero_right(body.position.x);
    lemma_plus_zero_right(body.position.y);
}

/// The scene after `n` frames of the same timestep.
pub open spec fn spec_scene_tick_n(s: Scene, timestep: Scalar, n: nat) -> Scene
    decreases n,
{
    if n == 0 {
        s
    } else {
        spec_scene_tick(spec_scene_tick_n(s, timestep, (n - 1) as nat), timestep)
    }
}

/// A body at rest exactly at the equilibrium, under zero gravity and
/// zero drag, remains stationary after any number of frames.
pub proof fn lemma_equilibrium_is_stationary(s: Scene, timestep: Scalar, n: nat)
    requires
        at_rest_at_equilibrium(s),
        spec_is_finite(timestep),
    ensures
        spec_scene_tick_n(s, timestep, n).body.position == s.body.position,
        spec_scene_tick_n(s, timestep, n).body.velocity == spec_vec_zero(),
        spec_scene_tick_n(s, timestep, n).environment == s.environment,
        spec_scene_tick_n(s, timestep, n).body.mass == s.body.mass,
    decreases n,
{
    if n > 0 {
        lemma_equilibrium_is_stationary(s, timestep, (n - 1) as nat);
        let before = spec_scene_tick_n(s, timestep, (n - 1) as nat);
        lemma_equilibrium_step_is_stationary(before, timestep);
    }
}

/// Multiplying a finite, well-formed value by one changes nothing.
proof fn lemma_times_one(a: Scalar)
    requires
        spec_is_finite(a),
        wf(a),
    ensures
        spec_times(a, spec_one()) == a,
{
    let u = units_of(a);
    lemma_div_multiples_vanish(abs_i(u), SCALE as int);
    assert(abs_i(u) * (SCALE as int) / (SCALE as int) == abs_i(u));
    assert(mul_units(u, SCALE as int) == u);
}

/// Normalising a finite vector always yields a finite vector, and one
/// whose components do not exceed one: truncation in the reciprocal
/// and in the rescaling can only shorten, never overshoot.
pub proof fn lemma_normalized_bounded(v: Vec2)
    requires
        spec_vec_is_finite(v),
    ensures
        spec_vec_is_finite(spec_normalized(v)),
        abs_i(units_of(spec_normalized(v).x)) <= SCALE as int,
        abs_i(units_of(spec_normalized(v).y)) <= SCALE as int,
{
    let m = spec_mag(v);
    let ux = units_of(v.x);
    let uy = units_of(v.y);
    let q = ux * ux + uy * uy;
    assert(ux * ux >= 0 && uy * uy >= 0) by (nonlinear_arith);
    lemma_isqrt_exists(q);
    let sq = spec_isqrt(q);
    if m == spec_zero() {
    } else if sq > MAX_UNITS as int {
        lemma_times_zero_right(v.x);
        lemma_times_zero_right(v.y);
    } else {
        assert(m == Scalar::Finite(sq as i64));
        assert(sq >= 1);
        let s = SCALE as int;
        lemma_div_pos_is_pos(s * s, sq);
        lemma_div_nonincreasing(s * s, sq);
        let r = s * s / sq;
        assert(spec_div(spec_one(), m) == sat(r));
        lemma_fundamental_div_mod(s * s, sq);
        lemma_mod_division_less_than_divisor(s * s, sq);
        assert(sq * r <= s * s);
        assert(abs_i(ux) * abs_i(ux) <= q && abs_i(uy) * abs_i(uy) <= q) by (nonlinear_arith)
            requires
                q == ux * ux + uy * uy,
                abs_i(ux) == (if ux < 0 { -ux } else { ux }),
                abs_i(uy) == (if uy < 0 { -uy } else { uy }),
        ;
        lemma_component_le_isqrt(abs_i(ux), q);
        lemma_component_le_isqrt(abs_i(uy), q);
        assert(abs_i(ux) * r <= sq * r && abs_i(uy) * r <= sq * r) by (nonlinear_arith)
            requires
                abs_i(ux) <= sq,
                abs_i(uy) <= sq,
                r >= 0,
        ;
        lemma_div_is_ordered(abs_i(ux) * r, s * s, s);
        lemma_div_is_ordered(abs_i(uy) * r, s * s, s);
        lemma_div_multiples_vanish(s, s);
        assert(s * s / s == s);
        lemma_div_pos_is_pos(abs_i(ux) * r, s);
        lemma_div_pos_is_pos(abs_i(uy) * r, s);
        assert(abs_i(mul_units(ux, r)) <= s);
        assert(abs_i(mul_units(uy, r)) <= s);
    }
}

/// Normalising scales the magnitude to one, within the truncation
/// error of the unit grid: for a finite vector whose magnitude lies
/// between one and one thousand, the normalised vector's magnitude is
/// at most one and falls short of one by less than 0.11 percent.
/// Truncation only ever shortens, so one is approached from below.
pub proof fn lemma_normalize_unit_magnitude(v: Vec2)
    requires
        spec_vec_is_finite(v),
        spec_mag(v) is Finite,
        SCALE as int <= units_of(spec_mag(v)) <= 1000 * (SCALE as int),
    ensures
        spec_mag(spec_normalized(v)) is Finite,
        (SCALE as int) - 1003 <= units_of(spec_mag(spec_normalized(v))) <= SCALE as int,
{
    let s = SCALE as int;
    let ux = units_of(v.x);
    let uy = units_of(v.y);
    let ax = abs_i(ux);
    let ay = abs_i(uy);
    let q = ux * ux + uy * uy;
    assert(ax * ax == ux * ux && ay * ay == uy * uy && 0 <= q) by (nonlinear_arith)
        requires
            q == ux * ux + uy * uy,
            ax == (if ux < 0 { -ux } else { ux }),
            ay == (if uy < 0 { -uy } else { uy }),
    ;
    lemma_isqrt_exists(q);
    let um = spec_isqrt(q);
    assert(spec_mag(v) == sat(um));
    assert(um == units_of(spec_mag(v)));
    assert(spec_mag(v) != spec_zero());

    // The truncated reciprocal of the magnitude.
    let r = s * s / um;
    lemma_fundamental_div_mod(s * s, um);
    lemma_mod_division_less_than_divisor(s * s, um);
    assert(r * um <= s * s);
    assert(s * s < r * um + um);
    lemma_div_non_zero(s * s, um);
    lemma_div_is_ordered_by_denominator(s * s, s, um);
    lemma_div_multiples_vanish(s, s);
    assert(s * s / s == s);
    assert(1 <= r <= s);
    assert(spec_div(spec_one(), spec_mag(v)) == sat(r));

    // Components never exceed the magnitude.
    lemma_component_le_isqrt(ax, q);
    lemma_component_le_isqrt(ay, q);
    let px = ax * r;
    let py = ay * r;
    assert(0 <= px <= um * r && 0 <= py <= um * r) by (nonlinear_arith)
        requires
            px == ax * r,
            py == ay * r,
            0 <= ax <= um,
            0 <= ay <= um,
            1 <= r,
    ;
    assert(um * r <= s * s);

    // The truncated rescaled components.
    let fx = px / s;
    let fy = py / s;
    lemma_fundamental_div_mod(px, s);
    lemma_mod_division_less_than_divisor(px, s);
    lemma_fundamental_div_mod(py, s);
    lemma_mod_division_less_than_divisor(py, s);
    lemma_div_pos_is_pos(px, s);
    lemma_div_pos_is_pos(py, s);
    assert(s * fx <= px && px - s < s * fx);
    assert(s * fy <= py && py - s < s * fy);
    lemma_div_is_ordered(px, s * s, s);
    lemma_div_is_ordered(py, s * s, s);
    assert(fx <= s && fy <= s);
    assert(mul_units(ux, r) == (if ux < 0 { -fx } else { fx }));
    assert(mul_units(uy, r) == (if uy < 0 { -fy } else { fy }));
    let n = spec_normalized(v);
    let q2 = fx * fx + fy * fy;
    assert(units_of(n.x) == (if ux < 0 { -fx } else { fx }));
    assert(units_of(n.y) == (if uy < 0 { -fy } else { fy }));
    assert(units_of(n.x) * units_of(n.x) + units_of(n.y) * units_of(n.y) == q2)
        by (nonlinear_arith)
        requires
            q2 == fx * fx + fy * fy,
            units_of(n.x) == fx || units_of(n.x) == -fx,
            units_of(n.y) == fy || units_of(n.y) == -fy,
    ;

    // Upper bound: truncation only shortens, so the new squared
    // magnitude stays below the square just past one.
    assert(s * s * q2 == (s * fx) * (s * fx) + (s * fy) * (s * fy)) by (nonlinear_arith)
        requires
            q2 == fx * fx + fy * fy,
    ;
    assert((s * fx) * (s * fx) <= px * px && (s * fy) * (s * fy) <= py * py)
        by (nonlinear_arith)
        requires
            0 <= s * fx <= px,
            0 <= s * fy <= py,
    ;
    assert(px * px + py * py == (r * r) * q) by (nonlinear_arith)
        requires
            px == ax * r,
            py == ay * r,
            ax * ax == ux * ux,
            ay * ay == uy * uy,
            q == ux * ux + uy * uy,
    ;
    assert((r * r) * q < (r * (um + 1)) * (r * (um + 1))) by (nonlinear_arith)
        requires
            q < (um + 1) * (um + 1),
            1 <= r,
    ;
    assert(r * (um + 1) <= s * s + s) by (nonlinear_arith)
        requires
            r * um <= s * s,
            r <= s,
    ;
    assert((r * (um + 1)) * (r * (um + 1)) <= (s * s + s) * (s * s + s)) by (nonlinear_arith)
        requires
            0 <= r * (um + 1) <= s * s + s,
    ;
    assert(q2 < (s + 1) * (s + 1)) by (nonlinear_arith)
        requires
            s * s * q2 < (s * s + s) * (s * s + s),
            s == 1_000_000,
    ;

    // Lower bound: each truncation loses less than one unit, the
    // reciprocal less than one more, and the root rounding one more.
    assert((r * um) * (r * um) > (s * s - um) * (s * s - um)) by (nonlinear_arith)
        requires
            r * um > s * s - um,
            s * s - um >= 0,
    ;
    assert((r * r) * q >= (r * um) * (r * um)) by (nonlinear_arith)
        requires
            q >= um * um,
            0 <= r,
    ;
    assert((s * fx) * (s * fx) >= (px - s) * (px - s) - s * s) by (nonlinear_arith)
        requires
            s * fx > px - s,
            0 <= s * fx,
            0 <= px,
            0 < s,
    ;
    assert((s * fy) * (s * fy) >= (py - s) * (py - s) - s * s) by (nonlinear_arith)
        requires
            s * fy > py - s,
            0 <= s * fy,
            0 <= py,
            0 < s,
    ;
    assert((px - s) * (px - s) + (py - s) * (py - s) == px * px + py * py - 2 * s * (px + py)
        + 2 * (s * s)) by (nonlinear_arith);
    assert(s * s * q2 >= (s * s - um) * (s * s - um) - 2 * s * (px + py));
    assert(2 * s * (px + py) <= 4 * (s * (s * s))) by (nonlinear_arith)
        requires
            0 <= px <= s * s,
            0 <= py <= s * s,
            0 < s,
    ;
    assert((s * s - um) * (s * s - um) >= (s * s - 1000 * s) * (s * s - 1000 * s))
        by (nonlinear_arith)
        requires
            um <= 1000 * s,
            s * s - 1000 * s >= 0,
            s * s - um >= 0,
    ;
    assert(s * s * q2 >= (s * s - 1000 * s) * (s * s - 1000 * s) - 4 * (s * (s * s)));
    assert(q2 >= 997_997_000_000) by (nonlinear_arith)
        requires
            s * s * q2 >= (s * s - 1000 * s) * (s * s - 1000 * s) - 4 * (s * (s * s)),
            s == 1_000_000,
    ;
    assert((s - 1003) * (s - 1003) <= q2) by (nonlinear_arith)
        requires
            q2 >= 997_997_000_000,
            s == 1_000_000,
    ;

    // Read the bounds back through the rounded square root.
    lemma_isqrt_exists(q2);
    let w = spec_isqrt(q2);
    lemma_component_le_isqrt(s - 1003, q2);
    assert(w <= s) by (nonlinear_arith)
        requires
            is_isqrt(q2, w),
            q2 < (s + 1) * (s + 1),
            0 < s,
    ;
    assert(spec_mag(n) == sat(w));
}

/// The conditions of the drag-decay law: unit mass, unit drag, no
/// spring, no gravity, a finite well-formed velocity, and a position
/// near enough to the equilibrium that the displacement and the
/// distance stay representable.
pub open spec fn drag_only(s: Scene) -> bool {
    &&& s.body.mass == spec_one()
    &&& s.environment.drag == spec_one()
    &&& s.environment.spring_rate == spec_zero()
    &&& s.environment.gravity_acceleration == spec_vec_zero()
    &&& spec_vec_is_finite(s.body.velocity)
    &&& spec_vec_wf(s.body.velocity)
    &&& spec_vec_is_finite(
        spec_subtracted(s.environment.spring_equilibrium_position, s.body.position),
    )
    &&& spec_dist(s.environment.spring_equilibrium_position, s.body.position) is Finite
}

/// Under the drag-decay conditions the net force is exactly the
/// negated velocity.
proof fn lemma_drag_only_force(s: Scene)
    requires
        drag_only(s),
    ensures
        spec_forces_on_body(s.environment, s.body) == (Vec2 {
            x: Scalar::Finite((-units_of(s.body.velocity.x)) as i64),
            y: Scalar::Finite((-units_of(s.body.velocity.y)) as i64),
        }),
{
    let env = s.environment;
    let body = s.body;
    let dist = spec_dist(env.spring_equilibrium_position, body.position);
    lemma_times_zero_left(dist);
    let dir = spec_subtracted(env.spring_equilibrium_position, body.position);
    lemma_normalized_bounded(dir);
    let n = spec_normalized(dir);
    lemma_times_zero_right(n.x);
    lemma_times_zero_right(n.y);
    lemma_times_zero_left(spec_one());
    lemma_times_minus_one(body.velocity.x);
    lemma_times_minus_one(body.velocity.y);
}

/// One drag step on a single velocity component: the truncated
/// decrement keeps the sign, never exceeds the component, is strictly
/// below it for a nonzero component, and is at least one unit as soon
/// as the product of component and timestep reaches one unit.
proof fn lemma_drag_component(uv: int, t: int)
    requires
        -(MAX_UNITS as int) <= uv <= MAX_UNITS as int,
        0 < t < SCALE as int,
    ensures
        ({
            let c = abs_i(uv) * t / (SCALE as int);
            &&& 0 <= c <= abs_i(uv)
            &&& (uv != 0 ==> c < abs_i(uv))
            &&& mul_units(-uv, t) == (if uv >= 0 { -c } else { c })
            &&& (abs_i(uv) * t >= SCALE as int ==> c >= 1)
        }),
{
    let s = SCALE as int;
    let a = abs_i(uv);
    let c = a * t / s;
    assert(0 <= a * t && a * t <= a * s) by (nonlinear_arith)
        requires
            0 <= a,
            0 < t <= s,
    ;
    lemma_div_pos_is_pos(a * t, s);
    lemma_div_is_ordered(a * t, a * s, s);
    lemma_div_multiples_vanish(a, s);
    assert(a * s / s == a);
    lemma_fundamental_div_mod(a * t, s);
    lemma_mod_division_less_than_divisor(a * t, s);
    let rem = a * t % s;
    if uv != 0 {
        assert(c < a) by (nonlinear_arith)
            requires
                a * t == s * c + rem,
                0 <= rem,
                1 <= a,
                0 < t < s,
        ;
    }
    if a * t >= s {
        assert(c >= 1) by (nonlinear_arith)
            requires
                a * t == s * c + rem,
                rem < s,
                a * t >= s,
                s > 0,
        ;
    }
}

/// The drag-decay law: under unit mass and unit drag, no spring and no
/// gravity, one step of a positive timestep below one second can only
/// shorten the velocity. The squared speed never grows, it strictly
/// shrinks as soon as a component's product with the timestep reaches
/// a whole unit, a nonzero velocity never becomes exactly zero, and a
/// finite magnitude never increases — decay approaches zero without
/// reaching it.
pub proof fn lemma_drag_decays_velocity(s: Scene, timestep: Scalar)
    requires
        drag_only(s),
        spec_is_finite(timestep),
        0 < units_of(timestep) < SCALE as int,
    ensures
        ({
            let v = s.body.velocity;
            let after = spec_scene_tick(s, timestep).body.velocity;
            let t = units_of(timestep);
            &&& spec_vec_is_finite(after)
            &&& spec_vec_wf(after)
            &&& spec_mag_sq_units(after) <= spec_mag_sq_units(v)
            &&& (v != spec_vec_zero() ==> after != spec_vec_zero())
            &&& ((abs_i(units_of(v.x)) * t >= SCALE as int || abs_i(units_of(v.y)) * t
                >= SCALE as int) ==> spec_mag_sq_units(after) < spec_mag_sq_units(v))
            &&& (spec_mag(v) is Finite ==> spec_mag(after) is Finite && units_of(spec_mag(after))
                <= units_of(spec_mag(v)))
        }),
{
    let v = s.body.velocity;
    let t = units_of(timestep);
    let uvx = units_of(v.x);
    let uvy = units_of(v.y);
    lemma_drag_only_force(s);
    let force = spec_forces_on_body(s.environment, s.body);
    lemma_div_multiples_vanish(SCALE as int, SCALE as int);
    assert(spec_div(spec_one(), spec_one()) == spec_one());
    lemma_times_one(force.x);
    lemma_times_one(force.y);
    lemma_drag_component(uvx, t);
    lemma_drag_component(uvy, t);
    let cx = abs_i(uvx) * t / (SCALE as int);
    let cy = abs_i(uvy) * t / (SCALE as int);
    let nvx = if uvx >= 0 { uvx - cx } else { uvx + cx };
    let nvy = if uvy >= 0 { uvy - cy } else { uvy + cy };
    let after = spec_scene_tick(s, timestep).body.velocity;
    assert(after.x == Scalar::Finite(nvx as i64));
    assert(after.y == Scalar::Finite(nvy as i64));
    assert(nvx * nvx <= uvx * uvx && (cx >= 1 ==> nvx * nvx < uvx * uvx)) by (nonlinear_arith)
        requires
            0 <= cx <= abs_i(uvx),
            nvx == (if uvx >= 0 { uvx - cx } else { uvx + cx }),
            abs_i(uvx) == (if uvx < 0 { -uvx } else { uvx }),
    ;
    assert(nvy * nvy <= uvy * uvy && (cy >= 1 ==> nvy * nvy < uvy * uvy)) by (nonlinear_arith)
        requires
            0 <= cy <= abs_i(uvy),
            nvy == (if uvy >= 0 { uvy - cy } else { uvy + cy }),
            abs_i(uvy) == (if uvy < 0 { -uvy } else { uvy }),
    ;
    let q_old = uvx * uvx + uvy * uvy;
    let q_new = nvx * nvx + nvy * nvy;
    assert(0 <= q_new) by (nonlinear_arith)
        requires
            q_new == nvx * nvx + nvy * nvy,
    ;
    lemma_isqrt_le(q_new, q_old);
    lemma_isqrt_exists(q_old);
    lemma_isqrt_exists(q_new);
}

} // verus!

