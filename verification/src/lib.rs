//! A flocking simulation on whole numbers.
//!
//! Agents steer by three rules: they move apart from neighbours that are too
//! close, toward the middle of the neighbours they can see, and along the way
//! those neighbours go. A planar variant keeps triangular agents inside a
//! viewport; a spatial variant keeps agents inside a cube and away from a
//! camera.
//!
//! Every length, position and velocity is a count of millionths of a world
//! unit, and every product or quotient is rounded toward zero, so that a step
//! of the simulation is a function of its input that can be stated exactly.
//!
//! - [`fixed`]: division that rounds toward zero, square roots that round up
//! - [`vector`]: vectors, their lengths, and capping a vector's length
//! - [`rules`]: what an agent gathers from its neighbours and how it steers
//! - [`random`]: random numbers for the first placement
//! - [`planar`]: triangles in a viewport
//! - [`spatial`]: segments in a cube
//! - [`trail`]: the positions an agent was last seen at
//! - [`clock`]: how many steps a frame is worth

pub mod fixed;
pub mod vector;
pub mod rules;
pub mod random;
pub mod planar;
pub mod spatial;
pub mod trail;
pub mod clock;
