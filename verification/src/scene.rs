//! The simulation session a host drives: exactly one force
//! environment and one body, advanced a frame at a time. The host sets
//! parameters between frames, calls `tick` once per frame, and may
//! poll `has_finite_pos_vel` to detect divergence.

use vstd::prelude::*;

use crate::physics::Body;
use crate::physics::BodyForces;
use crate::physics::spec_body_tick;
use crate::physics::spec_default_body;
use crate::physics::spec_default_forces;
use crate::physics::spec_forces_on_body;
use crate::scalar::Scalar;
use crate::vec2::Vec2;
use crate::vec2::spec_vec_is_finite;

verus! {

/// One simulation session: a single environment and a single body.
#[derive(Clone, Copy, Debug, PartialEq, Eq, Structural)]
pub struct Scene {
    pub environment: BodyForces,
    pub body: Body,
}

/// One frame: the net force on the body is captured first, then the
/// body advances one explicit Euler step of length `timestep` under
/// that force. The environment never changes during a frame.
pub open spec fn spec_scene_tick(s: Scene, timestep: Scalar) -> Scene {
    let captured = Body { incoming_force: spec_forces_on_body(s.environment, s.body), ..s.body };
    Scene { environment: s.environment, body: spec_body_tick(captured, timestep) }
}

impl Scene {
    /// A fresh session: the default environment around the default
    /// body.
    pub fn new() -> (r: Scene)
        ensures
            r.environment == spec_default_forces(),
            r.body == spec_default_body(),
    {
        Scene { environment: BodyForces::new(), body: Body::new() }
    }

    /// Advance the session one frame of `timestep` seconds.
    pub fn tick(&mut self, timestep: Scalar)
        ensures
            *final(self) == spec_scene_tick(*old(self), timestep),
    {
        self.body.incoming_force = self.environment.forces_on_body(&self.body);
        self.body.tick(timestep);
    }

    /// Override the body's position; everything else is untouched.
    pub fn set_position(&mut self, x: Scalar, y: Scalar)
        ensures
            final(self).body.position == (Vec2 { x, y }),
            final(self).environment == old(self).environment,
            final(self).body.mass == old(self).body.mass,
            final(self).body.velocity == old(self).body.velocity,
            final(self).body.acceleration == old(self).body.acceleration,
            final(self).body.incoming_force == old(self).body.incoming_force,
    {
        self.body.position = Vec2 { x, y };
    }

    pub fn get_position_x(&self) -> (r: Scalar)
        ensures
            r == self.body.position.x,
    {
        self.body.position.x
    }

    pub fn get_position_y(&self) -> (r: Scalar)
        ensures
            r == self.body.position.y,
    {
        self.body.position.y
    }

    /// Override the body's velocity; everything else is untouched.
    pub fn set_velocity(&mut self, x: Scalar, y: Scalar)
        ensures
            final(self).body.velocity == (Vec2 { x, y }),
            final(self).environment == old(self).environment,
            final(self).body.mass == old(self).body.mass,
            final(self).body.position == old(self).body.position,
            final(self).body.acceleration == old(self).body.acceleration,
            final(self).body.incoming_force == old(self).body.incoming_force,
    {
        self.body.velocity = Vec2 { x, y };
    }

    pub fn get_velocity_x(&self) -> (r: Scalar)
        ensures
            r == self.body.velocity.x,
    {
        self.body.velocity.x
    }

    pub fn get_velocity_y(&self) -> (r: Scalar)
        ensures
            r == self.body.velocity.y,
    {
        self.body.velocity.y
    }

    /// Set the body's mass; zero or negative values are accepted and
    /// propagate as non-finite state on the next `tick`.
    pub fn set_mass(&mut self, mass: Scalar)
        ensures
            final(self).body == (Body { mass, ..old(self).body }),
            final(self).environment == old(self).environment,
    {
        self.body.mass = mass;
    }

    pub fn get_mass(&self) -> (r: Scalar)
        ensures
            r == self.body.mass,
    {
        self.body.mass
    }

    pub fn set_spring_rate(&mut self, spring_rate: Scalar)
        ensures
            final(self).environment == (BodyForces { spring_rate, ..old(self).environment }),
            final(self).body == old(self).body,
    {
        self.environment.spring_rate = spring_rate;
    }

    pub fn get_spring_rate(&self) -> (r: Scalar)
        ensures
            r == self.environment.spring_rate,
    {
        self.environment.spring_rate
    }

    pub fn set_spring_equilibrium_position(&mut self, x: Scalar, y: Scalar)
        ensures
            final(self).environment == (BodyForces {
                spring_equilibrium_position: Vec2 { x, y },
                ..old(self).environment
            }),
            final(self).body == old(self).body,
    {
        self.environment.spring_equilibrium_position = Vec2 { x, y };
    }

    pub fn set_gravity_acceleration(&mut self, x: Scalar, y: Scalar)
        ensures
            final(self).environment == (BodyForces {
                gravity_acceleration: Vec2 { x, y },
                ..old(self).environment
            }),
            final(self).body == old(self).body,
    {
        self.environment.gravity_acceleration = Vec2 { x, y };
    }

    pub fn get_gravity_acceleration_x(&self) -> (r: Scalar)
        ensures
            r == self.environment.gravity_acceleration.x,
    {
        self.environment.gravity_acceleration.x
    }

    pub fn get_gravity_acceleration_y(&self) -> (r: Scalar)
        ensures
            r == self.environment.gravity_acceleration.y,
    {
        self.environment.gravity_acceleration.y
    }

    pub fn set_gravity_acceleration_x(&mut self, x: Scalar)
        ensures
            final(self).environment == (BodyForces {
                gravity_acceleration: Vec2 { x, y: old(self).environment.gravity_acceleration.y },
                ..old(self).environment
            }),
            final(self).body == old(self).body,
    {
        self.environment.gravity_acceleration.x = x;
    }

    pub fn set_gravity_acceleration_y(&mut self, y: Scalar)
        ensures
            final(self).environment == (BodyForces {
                gravity_acceleration: Vec2 { x: old(self).environment.gravity_acceleration.x, y },
                ..old(self).environment
            }),
            final(self).body == old(self).body,
    {
        self.environment.gravity_acceleration.y = y;
    }

    pub fn set_drag(&mut self, drag: Scalar)
        ensures
            final(self).environment == (BodyForces { drag, ..old(self).environment }),
            final(self).body == old(self).body,
    {
        self.environment.drag = drag;
    }

    pub fn get_drag(&self) -> (r: Scalar)
        ensures
            r == self.environment.drag,
    {
        self.environment.drag
    }

    /// Divergence probe for the host: true exactly when both the
    /// position and the velocity are finite in every component.
    pub fn has_finite_pos_vel(&self) -> (r: bool)
        ensures
            r == (spec_vec_is_finite(self.body.position)
                && spec_vec_is_finite(self.body.velocity)),
    {
        self.body.position.is_finite() && self.body.velocity.is_finite()
    }
}

} // verus!
