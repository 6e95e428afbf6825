//! A deterministic 2-D artificial-life simulation engine.
//!
//! Soft-body cells built from mass–spring particle rings evolve, move,
//! feed, contract, divide and die under discrete-time physics.  All
//! quantities are fixed-point scalars ([`scalar::Scalar`]) so that every
//! computation is exact and fully specified.

pub mod bounding_box;
pub mod cell;
pub mod cell_rank;
pub mod collider;
pub mod engine;
pub mod collision;
pub mod genome;
pub mod laws;
pub mod neurons;
pub mod object_set;
pub mod particle;
pub mod polygon;
pub mod random;
pub mod resolver;
pub mod scalar;
pub mod simulator;
pub mod spring;
pub mod transcend;
pub mod vec2;

pub use scalar::Scalar;
pub use vec2::V2;
