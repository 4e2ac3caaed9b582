//! A small feed-forward neural network engine and the grid-walking agent it
//! steers.
//!
//! The numeric core ([`matrix`], [`network`]) is generic over its scalar type:
//! every result is stated exactly in terms of the scalar's own arithmetic, so
//! the contracts hold for any number representation that implements
//! [`scalar::Scalar`].
pub mod activation;
pub mod decision;
pub mod error;
pub mod grid;
pub mod matrix;
pub mod model;
pub mod network;
pub mod scalar;
pub mod world;
