//! A discrete-time simulation of circular molecules in a rectangular
//! container. Three walls mirror a molecule; the bottom wall is a deflector
//! that biases the velocity sideways. Molecules that overlap exchange their
//! velocities along the line of centres.
//!
//! All quantities are fixed-point numbers on a grid of thousandths.

pub mod collision;
pub mod config;
pub mod fixed;
pub mod laws;
pub mod molecule;
pub mod random;
pub mod store;
pub mod vector;
pub mod walls;

pub use config::{
    BOUNDARY_ANGLE_RADS, BOUNDARY_RATIO, HEIGHT, M, MOLECULE_RADIUS, MOLECULE_SPEED,
    NUM_MOLECULES, UNIT, WIDTH,
};
pub use molecule::Molecule;
pub use store::{Molecules, Phase};
pub use vector::Vec2;
