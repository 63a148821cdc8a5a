//! A deterministic 2D flocking ("boids") simulation.
//!
//! Every agent carries a position and a velocity in fixed-point
//! coordinates (see [`fixed`]); each tick the world updates every agent
//! against an immutable snapshot of the whole flock, applying the classic
//! steering rules (separation, alignment, cohesion, boundary avoidance and
//! optional predator avoidance), then mirrors the positions into a flat
//! render buffer.

pub mod boid;
pub mod fixed;
pub mod laws;
pub mod params;
pub mod rng;
pub mod world;
