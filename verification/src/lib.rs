//! Core logic of a voxel game: chunk storage, terrain layering rules, block
//! and mesh registries, the fixed-step update clock and input handling.
pub mod engine;
pub mod game;
pub mod utils;
