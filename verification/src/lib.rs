//! A feed-forward neural-network training engine: dense layers with a forward
//! pass, a backpropagation engine, gradient descent with momentum, and two
//! population-based optimizers (a genetic algorithm and particle-swarm
//! optimization) that search the same flattened parameter space.
//!
//! All numeric state is kept in a saturating fixed-point scalar type (see
//! [`fx`]), so every arithmetic step has an exact mathematical meaning.

pub mod activator;
pub mod error;
pub mod fx;
pub mod ga;
pub mod laws;
pub mod loss;
pub mod mlp;
pub mod models;
mod rng;
pub mod swarm;
pub mod train;
