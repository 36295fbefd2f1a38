//! Core of a block-breaking arcade game: a paddle deflects balls into a grid
//! of blocks while lives and score are tracked across four game states.
//!
//! All simulation state lives in integer units: positions in micropixels,
//! velocity components in per-mille of the speed constant, elapsed time in
//! milliseconds. The rendering and input surface converts at the boundary.

pub mod entities;
pub mod geom;
pub mod world;
