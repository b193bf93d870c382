//! Voxel placement: resolving mouse-driven surface hits to integer grid
//! cells, and the per-frame decision of when a new unit cube is spawned.
//!
//! World-space positions are carried in a fixed-point representation
//! (thousandths of a world unit), so the whole placement computation is
//! exact integer arithmetic.

pub mod geometry;
pub mod placement;
pub mod scene;
