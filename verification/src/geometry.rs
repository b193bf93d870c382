//! Fixed-point world geometry.
//!
//! A world coordinate is stored in thousandths of a world unit
//! (`SCALE` subunits per unit), so that the half-unit offsets of the
//! placement rules are exact integers. A grid cell is an integer triple;
//! the cube in cell `(x, y, z)` is centred at world point `(x, y, z)`
//! and spans half a unit on each side of its centre on every axis.

use vstd::prelude::*;

verus! {

/// Fixed-point subunits per world unit.
pub const SCALE: i64 = 1000;

/// Half a world unit, in subunits: the distance from a cube's centre to
/// each of its faces.
pub const HALF: i64 = 500;

/// Largest world coordinate magnitude, in subunits, that the placement
/// arithmetic accepts. Generous for any scene, and small enough that
/// every intermediate sum stays far inside `i64`.
pub const WORLD_LIMIT: i64 = 1_000_000_000_000_000;

/// A world-space vector in fixed-point subunits.
#[derive(Clone, Copy, PartialEq, Eq, Structural, Debug)]
pub struct FixedVec {
    pub x: i64,
    pub y: i64,
    pub z: i64,
}

/// One ray/geometry intersection: the struck world-space point and the
/// outward surface normal at that point, both in fixed-point subunits.
#[derive(Clone, Copy, PartialEq, Eq, Structural, Debug)]
pub struct SurfaceHit {
    pub point: FixedVec,
    pub normal: FixedVec,
}

/// One unit-cube cell of the infinite axis-aligned lattice. The cube's
/// world-space centre is the coordinate itself.
#[derive(Clone, Copy, PartialEq, Eq, Structural, Debug)]
pub struct GridCoordinate {
    pub x: i64,
    pub y: i64,
    pub z: i64,
}

/// A single world coordinate within the accepted range.
pub open spec fn coord_in_world(v: int) -> bool {
    -WORLD_LIMIT <= v <= WORLD_LIMIT
}

impl FixedVec {
    /// Every component within the accepted world range.
    pub open spec fn in_world(self) -> bool {
        coord_in_world(self.x as int) && coord_in_world(self.y as int) && coord_in_world(
            self.z as int,
        )
    }
}

impl SurfaceHit {
    /// A hit the resolver accepts: the struck point lies within the world
    /// range. The normal only contributes its per-axis signs, so it needs
    /// no bound.
    pub open spec fn wf(self) -> bool {
        self.point.in_world()
    }
}

} // verus!
