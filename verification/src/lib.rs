//! Arcade collision core for a brick-breaking game, on fixed-point integer
//! coordinates: a motion integrator and a swept box-against-box collision
//! resolver, with every function proved against its contract.
//!
//! Lengths, times and velocities are integers. The host picks the unit of
//! length, time is counted in microseconds, and a velocity is the distance
//! covered per microsecond, so no step of motion rounds. The host turns its
//! own measures into these at the edge.

pub mod bodies;
pub mod geometry;
pub mod integrator;
pub mod layout;
pub mod play;
pub mod resolver;
pub mod response;
pub mod session;
pub mod sweep;
