//! A Monte Carlo neutron-transport kernel.
//!
//! The crate covers the deterministic heart of a particle-transport
//! simulation: a reproducible, skip-ahead-capable pseudo-random stream,
//! the collision bookkeeping of a random walk, the life cycle of a
//! particle history, and the tie-break policies of the surface geometry.
//! All seed arithmetic is carried out modulo 2^64 and every public
//! operation states exactly what it returns.

pub mod collision_tally;
pub mod particle_data;
pub mod random_lcg;
pub mod random_walk;
pub mod surface;
pub mod teh_o_error;
