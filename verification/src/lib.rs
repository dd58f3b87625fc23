//! Core of a live packet visualizer: Ethernet frames are classified into
//! pairs of endpoints, every endpoint is given a fixed place on a canvas, and
//! each pair becomes an animation that travels from its source to its
//! destination, one step per tick.

pub mod animation;
pub mod capture;
pub mod classifier;
pub mod engine;
pub mod geometry;
mod random;
pub mod registry;
pub mod scene;
pub mod text;
pub mod wire;
