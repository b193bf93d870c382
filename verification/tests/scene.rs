//! Frame-by-frame tests of the scene: click edge detection, one cube
//! per cell, and the starting ground grid.

use voxel_placement::geometry::{FixedVec, GridCoordinate, SurfaceHit};
use voxel_placement::scene::{base_grid, FrameInput, Scene, GRID_SIZE};

fn top_hit(x: i64, y_face: i64, z: i64) -> SurfaceHit {
    SurfaceHit {
        point: FixedVec { x: x * 1000, y: y_face, z: z * 1000 },
        normal: FixedVec { x: 0, y: 1000, z: 0 },
    }
}

#[test]
fn one_click_spawns_one_cube() {
    // Clicking once on the top face of the grid tile at (2, 0, 2) spawns
    // exactly one new cube at (2, 1, 2); holding the button produces no
    // second cube until it is released and pressed again.
    let mut scene = Scene::new();
    let press = FrameInput { button_down: true, hits: vec![top_hit(2, 500, 2)] };
    assert_eq!(scene.step(&press), Some(GridCoordinate { x: 2, y: 1, z: 2 }));

    let held = FrameInput { button_down: true, hits: vec![top_hit(2, 500, 2)] };
    assert_eq!(scene.step(&held), None);

    let released = FrameInput { button_down: false, hits: vec![top_hit(2, 500, 2)] };
    assert_eq!(scene.step(&released), None);

    // A fresh press: the ray now strikes the top of the cube just
    // placed, so the next cube stacks on it.
    let press_again = FrameInput { button_down: true, hits: vec![top_hit(2, 1500, 2)] };
    assert_eq!(scene.step(&press_again), Some(GridCoordinate { x: 2, y: 2, z: 2 }));

    assert!(scene.occupied(&GridCoordinate { x: 2, y: 1, z: 2 }));
    assert!(scene.occupied(&GridCoordinate { x: 2, y: 2, z: 2 }));
    assert!(!scene.occupied(&GridCoordinate { x: 2, y: 3, z: 2 }));
}

#[test]
fn an_occupied_cell_is_not_filled_twice() {
    let mut scene = Scene::new();
    let press = FrameInput { button_down: true, hits: vec![top_hit(2, 500, 2)] };
    assert_eq!(scene.step(&press), Some(GridCoordinate { x: 2, y: 1, z: 2 }));

    let released = FrameInput { button_down: false, hits: vec![] };
    assert_eq!(scene.step(&released), None);

    // The same face clicked again resolves to the occupied cell: no-op.
    let press_same = FrameInput { button_down: true, hits: vec![top_hit(2, 500, 2)] };
    assert_eq!(scene.step(&press_same), None);
}

#[test]
fn no_intersection_is_a_silent_no_op() {
    let mut scene = Scene::new();
    let press = FrameInput { button_down: true, hits: vec![] };
    assert_eq!(scene.step(&press), None);
}

#[test]
fn several_intersections_are_a_silent_no_op() {
    let mut scene = Scene::new();
    let press = FrameInput {
        button_down: true,
        hits: vec![top_hit(2, 500, 2), top_hit(3, 500, 2)],
    };
    assert_eq!(scene.step(&press), None);
}

#[test]
fn a_press_without_a_release_in_between_is_ignored() {
    let mut scene = Scene::new();
    let held = FrameInput { button_down: true, hits: vec![] };
    assert_eq!(scene.step(&held), None);
    // Still held while a hit appears: no released-to-pressed transition.
    let held_with_hit = FrameInput { button_down: true, hits: vec![top_hit(0, 500, 0)] };
    assert_eq!(scene.step(&held_with_hit), None);
}

#[test]
fn base_grid_lays_out_one_row_per_x() {
    let g = base_grid(GRID_SIZE);
    assert_eq!(g.len(), 25);
    assert_eq!(g[0], GridCoordinate { x: 0, y: 0, z: 0 });
    assert_eq!(g[7], GridCoordinate { x: 1, y: 0, z: 2 });
    assert_eq!(g[24], GridCoordinate { x: 4, y: 0, z: 4 });
}
