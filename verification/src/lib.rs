//! A two-dimensional particle-life engine: typed point particles on a torus
//! attract and repel one another according to a table of coefficients.

pub mod config;
pub mod exact;
pub mod fixed;
pub mod grid;
pub mod laws;
pub mod order;
pub mod particle;
pub mod physics;
mod random;
pub mod reach;
pub mod scalar;
pub mod universe;
pub mod vector;
