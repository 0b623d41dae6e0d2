//! A single-body spring/gravity/drag simulation over an exact,
//! saturating fixed-point number model with explicit non-finite values.
//!
//! The library is organised as a small pipeline: `scalar` holds the
//! number model, `vec2` the planar vector arithmetic, `physics` the
//! force accumulation and the explicit Euler integrator, `scene` the
//! session object a host drives, and `laws` the proved properties.

pub mod laws;
pub mod physics;
pub mod scalar;
pub mod scene;
pub mod vec2;
