//! The per-frame placement decision and the accumulated scene state.
//!
//! The host runtime owns the window, the camera, the raycaster and the
//! renderer. Each frame it hands this module the facts it gathered — the
//! pointer-button state and the ray intersections — and takes back at
//! most one spawn decision. A cube is spawned only when the button has
//! just gone down (a released-to-pressed transition, not merely held),
//! exactly one intersection exists, and the resolved cell is still free;
//! every other frame is a silent no-op.

use vstd::prelude::*;

use crate::geometry::{GridCoordinate, SurfaceHit};
use crate::placement::resolved;

verus! {

/// Number of cells along each horizontal side of the starting ground
/// grid.
pub const GRID_SIZE: u32 = 5;

/// What the host gathered during one frame: whether the primary pointer
/// button is down, and every intersection of the pointer ray with the
/// hittable geometry.
pub struct FrameInput {
    pub button_down: bool,
    pub hits: Vec<SurfaceHit>,
}

impl FrameInput {
    /// Every reported hit lies within the accepted world range.
    pub open spec fn wf(self) -> bool {
        forall|i: int| 0 <= i < self.hits@.len() ==> (#[trigger] self.hits@[i]).wf()
    }
}

/// No coordinate occurs twice in the sequence.
pub open spec fn all_distinct(s: Seq<GridCoordinate>) -> bool {
    forall|i: int, j: int| 0 <= i < j < s.len() ==> s[i] != s[j]
}

/// The accumulating scene: the cells occupied by placed cubes, in the
/// order they were placed, and the pointer-button state of the previous
/// frame (for edge detection).
pub struct Scene {
    placed: Vec<GridCoordinate>,
    button_was_down: bool,
}

impl Scene {
    /// The cells occupied so far, in placement order.
    pub closed spec fn placed_cells(self) -> Seq<GridCoordinate> {
        self.placed@
    }

    /// Whether the previous frame's pointer-button state was "down".
    pub closed spec fn button_state(self) -> bool {
        self.button_was_down
    }

    /// Scene invariant: one cube per cell — no coordinate is occupied
    /// twice.
    pub open spec fn wf(self) -> bool {
        all_distinct(self.placed_cells())
    }

    /// Whether a frame handed to a scene in this state must spawn a cube:
    /// the button transitions from released to pressed, exactly one
    /// intersection exists, and the cell it resolves to is still free.
    pub open spec fn spawn_expected(self, frame: FrameInput) -> bool {
        &&& frame.button_down
        &&& !self.button_state()
        &&& frame.hits@.len() == 1
        &&& !self.placed_cells().contains(resolved(frame.hits@[0]))
    }

    /// An empty scene: nothing placed, button released.
    pub fn new() -> (s: Scene)
        ensures
            s.wf(),
            s.placed_cells().len() == 0,
            !s.button_state(),
    {
        Scene { placed: Vec::new(), button_was_down: false }
    }

    /// Whether a cube already occupies cell `c`.
    pub fn occupied(&self, c: &GridCoordinate) -> (r: bool)
        ensures
            r == self.placed_cells().contains(*c),
    {
        let mut i: usize = 0;
        while i < self.placed.len()
            invariant
                0 <= i <= self.placed@.len(),
                forall|k: int| 0 <= k < i ==> self.placed@[k] != *c,
            decreases self.placed@.len() - i,
        {
            if self.placed[i] == *c {
                proof {
                    assert(self.placed_cells()[i as int] == *c);
                }
                return true;
            }
            i = i + 1;
        }
        false
    }

    /// Advance the scene by one frame. Returns the cell in which a new
    /// cube must be spawned, or `None` when the frame is a no-op. A cube
    /// is spawned exactly when `spawn_expected` held of the old state and
    /// the frame.
    pub fn step(&mut self, frame: &FrameInput) -> (spawned: Option<GridCoordinate>)
        requires
            old(self).wf(),
            frame.wf(),
        ensures
            final(self).wf(),
            final(self).button_state() == frame.button_down,
            old(self).spawn_expected(*frame) ==> {
                &&& spawned == Some(resolved(frame.hits@[0]))
                &&& final(self).placed_cells() == old(self).placed_cells().push(
                    resolved(frame.hits@[0]),
                )
            },
            !old(self).spawn_expected(*frame) ==> {
                &&& spawned is None
                &&& final(self).placed_cells() == old(self).placed_cells()
            },
    {
        let just_pressed = frame.button_down && !self.button_was_down;
        self.button_was_down = frame.button_down;
        if !just_pressed || frame.hits.len() != 1 {
            return None;
        }
        let cell = frame.hits[0].resolve();
        if self.occupied(&cell) {
            return None;
        }
        self.placed.push(cell);
        proof {
            let s = self.placed@;
            assert forall|i: int, j: int| 0 <= i < j < s.len() implies s[i] != s[j] by {
                if j == s.len() - 1 {
                    assert(old(self).placed_cells().contains(s[i]));
                }
            }
        }
        Some(cell)
    }
}

/// The coordinates of the starting ground grid: one cell at height zero
/// for every pair `(x, z)` with both components below `size`, laid out
/// row by row.
pub fn base_grid(size: u32) -> (g: Vec<GridCoordinate>)
    ensures
        g@.len() == (size as int) * (size as int),
        forall|x: int, z: int|
            0 <= x < size && 0 <= z < size ==> #[trigger] g@[x * (size as int) + z]
                == (GridCoordinate { x: x as i64, y: 0i64, z: z as i64 }),
{
    let mut g: Vec<GridCoordinate> = Vec::new();
    let mut x: u32 = 0;
    while x < size
        invariant
            0 <= x <= size,
            g@.len() == (x as int) * (size as int),
            forall|a: int, b: int|
                0 <= a < x && 0 <= b < size ==> #[trigger] g@[a * (size as int) + b]
                    == (GridCoordinate { x: a as i64, y: 0i64, z: b as i64 }),
        decreases size - x,
    {
        let mut z: u32 = 0;
        while z < size
            invariant
                0 <= x < size,
                0 <= z <= size,
                g@.len() == (x as int) * (size as int) + z,
                forall|a: int, b: int|
                    0 <= a < x && 0 <= b < size ==> #[trigger] g@[a * (size as int) + b]
                        == (GridCoordinate { x: a as i64, y: 0i64, z: b as i64 }),
                forall|b: int|
                    0 <= b < z ==> #[trigger] g@[(x as int) * (size as int) + b]
                        == (GridCoordinate { x: x as i64, y: 0i64, z: b as i64 }),
            decreases size - z,
        {
            g.push(GridCoordinate { x: x as i64, y: 0, z: z as i64 });
            proof {
                assert forall|a: int, b: int|
                    0 <= a < x && 0 <= b < size implies #[trigger] (a * (size as int) + b) < (
                x as int) * (size as int) by {
                    lemma_index_below_row(a, b, x as int, size as int);
                }
            }
            z = z + 1;
        }
        proof {
            assert(((x as int) + 1) * (size as int) == (x as int) * (size as int) + (size as int))
                by (nonlinear_arith);
        }
        x = x + 1;
    }
    g
}

/// Bound used while filling the grid: every index of a row below `x`
/// comes before the start of row `x`.
proof fn lemma_index_below_row(a: int, b: int, x: int, size: int)
    requires
        0 <= a < x,
        0 <= b < size,
    ensures
        a * size + b < x * size,
{
    assert(a * size + b < x * size) by (nonlinear_arith)
        requires
            0 <= a < x,
            0 <= b < size,
    ;
}

} // verus!
