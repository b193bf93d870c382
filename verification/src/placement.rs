//! The placement resolver: from a surface hit to the grid cell in which
//! the next unit cube belongs.
//!
//! Per axis, the rule is driven by the sign of the normal's component:
//!
//! - strictly positive: the lowest cell whose centre lies strictly above
//!   the struck coordinate — the neighbouring cell just past the face in
//!   the normal's direction;
//! - strictly negative: the highest cell whose centre lies strictly below
//!   the struck coordinate;
//! - zero: the cell nearest to the struck coordinate, so the cube stays
//!   in line with the face that was clicked.
//!
//! A coordinate exactly between two cells is pushed in the normal's
//! direction where the normal decides the axis; on a zero-normal axis the
//! nonnegative candidate sums round upward and the negative ones
//! downward, mirroring truncation toward zero after a half-unit centring
//! bias.

use vstd::arithmetic::div_mod::{
    lemma_fundamental_div_mod, lemma_fundamental_div_mod_converse, lemma_mod_bound,
};
use vstd::prelude::*;

use crate::geometry::{FixedVec, GridCoordinate, SurfaceHit, HALF, SCALE, WORLD_LIMIT};

verus! {

/// The cell index chosen on an axis whose normal component is zero: the
/// struck coordinate plus a half-unit centring bias, rounded down, with
/// negative sums shifted one subunit so that an exactly centred negative
/// coordinate also rounds down.
pub open spec fn round_cell(p: int) -> int {
    if p + HALF >= 0 {
        (p + HALF) / (SCALE as int)
    } else {
        (p + HALF - 1) / (SCALE as int)
    }
}

/// The cell index the resolver picks on one axis, from the struck
/// coordinate `p` (in subunits) and the normal component `n` on that
/// axis.
pub open spec fn cell_of(p: int, n: int) -> int {
    if n > 0 {
        p / (SCALE as int) + 1
    } else if n < 0 {
        (p - 1) / (SCALE as int)
    } else {
        round_cell(p)
    }
}

/// The grid cell a surface hit resolves to, axis by axis.
pub open spec fn resolved(hit: SurfaceHit) -> GridCoordinate {
    GridCoordinate {
        x: cell_of(hit.point.x as int, hit.normal.x as int) as i64,
        y: cell_of(hit.point.y as int, hit.normal.y as int) as i64,
        z: cell_of(hit.point.z as int, hit.normal.z as int) as i64,
    }
}

/// Shift added before dividing, so that the dividend is nonnegative:
/// a multiple of `SCALE`, larger than any in-range coordinate.
const SHIFT: i64 = 2_000_000_000_000_000;

/// `SHIFT` expressed in whole cells: `SHIFT / SCALE`.
const SHIFT_CELLS: i64 = 2_000_000_000_000;

/// Floor division of a subunit coordinate by `SCALE`, exact on negative
/// values as well (unlike Rust's truncating `/` on signed integers).
fn div_floor(a: i64) -> (q: i64)
    requires
        -(WORLD_LIMIT + SCALE) <= a <= WORLD_LIMIT + SCALE,
    ensures
        q == a as int / (SCALE as int),
{
    proof {
        lemma_fundamental_div_mod(a as int, SCALE as int);
        lemma_mod_bound(a as int, SCALE as int);
        lemma_fundamental_div_mod_converse(
            a + SHIFT,
            SCALE as int,
            a as int / (SCALE as int) + SHIFT_CELLS,
            a as int % (SCALE as int),
        );
    }
    let shifted: u64 = (a + SHIFT) as u64;
    let cells: u64 = shifted / (SCALE as u64);
    (cells as i64) - SHIFT_CELLS
}

/// Resolve one axis: the executable counterpart of `cell_of`.
fn resolve_axis(p: i64, n: i64) -> (c: i64)
    requires
        -WORLD_LIMIT <= p <= WORLD_LIMIT,
    ensures
        c == cell_of(p as int, n as int),
{
    if n > 0 {
        div_floor(p) + 1
    } else if n < 0 {
        div_floor(p - 1)
    } else {
        let t: i64 = p + HALF;
        if t >= 0 {
            div_floor(t)
        } else {
            div_floor(t - 1)
        }
    }
}

impl SurfaceHit {
    /// Compute the grid cell in which a cube placed against this hit's
    /// face belongs: the cell adjacent to the struck surface in the
    /// direction of the outward normal.
    pub fn resolve(&self) -> (c: GridCoordinate)
        requires
            self.wf(),
        ensures
            c == resolved(*self),
            c.x == cell_of(self.point.x as int, self.normal.x as int),
            c.y == cell_of(self.point.y as int, self.normal.y as int),
            c.z == cell_of(self.point.z as int, self.normal.z as int),
    {
        GridCoordinate {
            x: resolve_axis(self.point.x, self.normal.x),
            y: resolve_axis(self.point.y, self.normal.y),
            z: resolve_axis(self.point.z, self.normal.z),
        }
    }
}

/// Law: resolution is a pure function of the hit alone. Two equal hits
/// resolve to the same grid cell, so resolving one hit twice yields the
/// same coordinate both times.
pub proof fn lemma_resolve_idempotent(a: SurfaceHit, b: SurfaceHit)
    requires
        a == b,
    ensures
        resolved(a) == resolved(b),
{
}

/// On an axis with a strictly positive normal component, the chosen
/// cell's centre is the lowest one strictly above the struck coordinate.
pub proof fn lemma_cell_beyond_positive(p: int, n: int)
    requires
        n > 0,
    ensures
        (SCALE as int) * cell_of(p, n) > p,
        (SCALE as int) * (cell_of(p, n) - 1) <= p,
{
    lemma_fundamental_div_mod(p, SCALE as int);
    lemma_mod_bound(p, SCALE as int);
}

/// On an axis with a strictly negative normal component, the chosen
/// cell's centre is the highest one strictly below the struck coordinate.
pub proof fn lemma_cell_beyond_negative(p: int, n: int)
    requires
        n < 0,
    ensures
        (SCALE as int) * cell_of(p, n) < p,
        (SCALE as int) * (cell_of(p, n) + 1) >= p,
{
    lemma_fundamental_div_mod(p - 1, SCALE as int);
    lemma_mod_bound(p - 1, SCALE as int);
}

/// The per-axis sign of a normal component.
pub open spec fn axis_sign(n: int) -> int {
    if n > 0 {
        1
    } else if n < 0 {
        -1
    } else {
        0
    }
}

/// One axis of "the struck point lies on the `s`-side face of the cube
/// in cell index `c`": on the face plane itself when `s` picks this
/// axis, strictly inside the cube's extent when it does not.
pub open spec fn on_face_axis(p: int, c: int, s: int) -> bool {
    if s == 1 {
        p == (SCALE as int) * c + HALF
    } else if s == -1 {
        p == (SCALE as int) * c - HALF
    } else {
        (SCALE as int) * c - HALF < p < (SCALE as int) * c + HALF
    }
}

/// The hit strikes a face of the unit cube in cell `cube`, with the
/// outward axis-aligned normal of that face: `sx, sy, sz` are the
/// normal's per-axis signs and exactly one of them is nonzero.
pub open spec fn face_hit(
    hit: SurfaceHit,
    cube: GridCoordinate,
    sx: int,
    sy: int,
    sz: int,
) -> bool {
    &&& sx == axis_sign(hit.normal.x as int)
    &&& sy == axis_sign(hit.normal.y as int)
    &&& sz == axis_sign(hit.normal.z as int)
    &&& sx * sx + sy * sy + sz * sz == 1
    &&& on_face_axis(hit.point.x as int, cube.x as int, sx)
    &&& on_face_axis(hit.point.y as int, cube.y as int, sy)
    &&& on_face_axis(hit.point.z as int, cube.z as int, sz)
}

/// One axis of the adjacency law: on the face plane the resolver moves
/// one cell in the normal's direction, and on the remaining axes it
/// keeps the struck cube's index.
proof fn lemma_face_axis(p: int, n: int, c: int, s: int)
    requires
        s == axis_sign(n),
        on_face_axis(p, c, s),
    ensures
        cell_of(p, n) == c + s,
{
    if s == 1 {
        lemma_fundamental_div_mod_converse(p, SCALE as int, c, HALF as int);
    } else if s == -1 {
        lemma_fundamental_div_mod_converse(p - 1, SCALE as int, c - 1, (SCALE - HALF - 1) as int);
    } else {
        lemma_round_cell_interior(p, c);
    }
}

/// Law: a hit on a face of the cube in cell `cube`, with that face's
/// outward axis-aligned unit normal, resolves to the cell adjacent to
/// `cube` in the exact direction of the normal.
pub proof fn lemma_resolves_adjacent_cell(
    hit: SurfaceHit,
    cube: GridCoordinate,
    sx: int,
    sy: int,
    sz: int,
)
    requires
        hit.wf(),
        face_hit(hit, cube, sx, sy, sz),
    ensures
        resolved(hit).x == cube.x + sx,
        resolved(hit).y == cube.y + sy,
        resolved(hit).z == cube.z + sz,
{
    lemma_face_axis(hit.point.x as int, hit.normal.x as int, cube.x as int, sx);
    lemma_face_axis(hit.point.y as int, hit.normal.y as int, cube.y as int, sy);
    lemma_face_axis(hit.point.z as int, hit.normal.z as int, cube.z as int, sz);
}

/// On an axis with a zero normal component, a coordinate strictly inside
/// cell `c` stays in cell `c`.
pub proof fn lemma_round_cell_interior(p: int, c: int)
    requires
        (SCALE as int) * c - HALF < p < (SCALE as int) * c + HALF,
    ensures
        round_cell(p) == c,
{
    let t = p + HALF;
    let r = t - (SCALE as int) * c;
    if t >= 0 {
        lemma_fundamental_div_mod_converse(t, SCALE as int, c, r);
    } else {
        lemma_fundamental_div_mod_converse(t - 1, SCALE as int, c, r - 1);
    }
}

} // verus!
