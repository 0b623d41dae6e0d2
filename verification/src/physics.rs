//! The force model and the integrator. `BodyForces` holds the
//! environment (spring, gravity, drag) and computes the net force on a
//! body; `Body` holds one point mass's state and advances it by one
//! explicit Euler step. The update order is fixed: acceleration from
//! the force captured before the step, then velocity from that
//! acceleration, then position from the new velocity.

use vstd::prelude::*;

use crate::scalar::Scalar;
use crate::scalar::spec_div;
use crate::scalar::spec_neg;
use crate::scalar::spec_one;
use crate::vec2::Vec2;
use crate::vec2::spec_added;
use crate::vec2::spec_dist;
use crate::vec2::spec_scaled;
use crate::vec2::spec_subtracted;
use crate::vec2::spec_vec_zero;
use crate::vec2::spec_with_mag;
use crate::scalar::spec_times;

verus! {

/// The environmental parameters a body moves under: a spring of the
/// given rate anchored at an equilibrium point, a constant
/// gravitational acceleration, and a linear drag coefficient.
#[derive(Clone, Copy, Debug, PartialEq, Eq, Structural)]
pub struct BodyForces {
    /// Spring rate, in millionths of a newton per metre.
    pub spring_rate: Scalar,
    /// Anchor the spring pulls the body toward, in metres.
    pub spring_equilibrium_position: Vec2,
    /// Constant acceleration applied to any mass, in metres per square
    /// second.
    pub gravity_acceleration: Vec2,
    /// Linear drag coefficient, in newton-seconds per metre.
    pub drag: Scalar,
}

/// The default environment: spring rate 100, equilibrium at the
/// origin, gravity pulling down at 9.81, drag 0.5.
pub open spec fn spec_default_forces() -> BodyForces {
    BodyForces {
        spring_rate: Scalar::Finite(100_000_000i64),
        spring_equilibrium_position: spec_vec_zero(),
        gravity_acceleration: Vec2 { x: Scalar::Finite(0i64), y: Scalar::Finite(-9_810_000i64) },
        drag: Scalar::Finite(500_000i64),
    }
}

/// Net force on a body: the spring force by Hooke's law (the
/// displacement direction rescaled to rate times distance, so a body
/// exactly at the equilibrium feels no spring force by the zero-vector
/// policy), plus gravity scaled by the mass, plus drag opposing the
/// velocity; summed in that order.
pub open spec fn spec_forces_on_body(env: BodyForces, body: Body) -> Vec2 {
    let dist = spec_dist(env.spring_equilibrium_position, body.position);
    let direction = spec_subtracted(env.spring_equilibrium_position, body.position);
    let spring_force = spec_with_mag(direction, spec_times(env.spring_rate, dist));
    let gravity_force = spec_scaled(env.gravity_acceleration, body.mass);
    let drag_force = spec_scaled(body.velocity, spec_neg(env.drag));
    spec_added(spec_added(spring_force, gravity_force), drag_force)
}

impl BodyForces {
    pub fn new() -> (r: BodyForces)
        ensures
            r == spec_default_forces(),
    {
        BodyForces {
            spring_rate: Scalar::Finite(100_000_000),
            spring_equilibrium_position: Vec2::zero(),
            gravity_acceleration: Vec2::new(Scalar::zero(), Scalar::Finite(-9_810_000)),
            drag: Scalar::Finite(500_000),
        }
    }

    /// Net force on `body` under this environment; a pure function of
    /// the two states.
    pub fn forces_on_body(&self, body: &Body) -> (r: Vec2)
        ensures
            r == spec_forces_on_body(*self, *body),
    {
        let dist = self.spring_equilibrium_position.dist(&body.position);

        // F = k * x
        let spring_force = self
            .spring_equilibrium_position
            .subtracted(&body.position)
            .with_mag(self.spring_rate.times(dist));

        // F = m * a
        let gravity_force = self.gravity_acceleration.scaled(body.mass);

        let drag_force = body.velocity.scaled(self.drag.neg());

        spring_force.added(&gravity_force).added(&drag_force)
    }
}

/// One point mass: its mass, kinematic state, and the force captured
/// for the next integration step.
#[derive(Clone, Copy, Debug, PartialEq, Eq, Structural)]
pub struct Body {
    /// Mass in kilograms; zero or negative values are not rejected and
    /// propagate as non-finite state instead.
    pub mass: Scalar,
    /// Position in metres.
    pub position: Vec2,
    /// Velocity in metres per second.
    pub velocity: Vec2,
    /// Acceleration in metres per square second, as computed by the
    /// last step.
    pub acceleration: Vec2,
    /// Net force in newtons, overwritten before every step.
    pub incoming_force: Vec2,
}

/// The default body: unit mass at rest at the origin.
pub open spec fn spec_default_body() -> Body {
    Body {
        mass: spec_one(),
        position: spec_vec_zero(),
        velocity: spec_vec_zero(),
        acceleration: spec_vec_zero(),
        incoming_force: spec_vec_zero(),
    }
}

/// One explicit Euler step of length `timestep`: acceleration is the
/// captured force over the mass (non-finite when the mass is zero),
/// velocity advances by that acceleration, and position by the new
/// velocity; mass and captured force are untouched.
pub open spec fn spec_body_tick(body: Body, timestep: Scalar) -> Body {
    let acceleration = spec_scaled(body.incoming_force, spec_div(spec_one(), body.mass));
    let velocity = spec_added(body.velocity, spec_scaled(acceleration, timestep));
    let position = spec_added(body.position, spec_scaled(velocity, timestep));
    Body { position, velocity, acceleration, ..body }
}

impl Body {
    pub fn new() -> (r: Body)
        ensures
            r == spec_default_body(),
    {
        Body {
            mass: Scalar::one(),
            position: Vec2::zero(),
            velocity: Vec2::zero(),
            acceleration: Vec2::zero(),
            incoming_force: Vec2::zero(),
        }
    }

    /// Advance this body by one step of `timestep` seconds under the
    /// force captured in `incoming_force`.
    pub fn tick(&mut self, timestep: Scalar)
        ensures
            *final(self) == spec_body_tick(*old(self), timestep),
    {
        // F = m * a
        self.acceleration = self.incoming_force.scaled(Scalar::one().divided_by(self.mass));

        // dv = a * dt
        self.velocity = self.velocity.added(&self.acceleration.scaled(timestep));

        // ds = v * dt
        self.position = self.position.added(&self.velocity.scaled(timestep));
    }
}

} // verus!
