//! Deterministic terrain column generation for a voxel world.
//!
//! The library holds the integer part of the generator: the local column
//! buffer and its addressing, cave masks, surface material rules, structure
//! placement, the compression of a finished column into vertical runs, and
//! the generation of a whole column from precomputed samples.

pub mod world;
pub mod structures;
pub mod runs;
pub mod caves;
pub mod geology;
pub mod placement;
pub mod spawn;
pub mod generation;
