//! Collision of the viewer with the walls of the maze.

use vstd::prelude::*;
use crate::caster::{probe, probe_spec, Probe, Sample};
use crate::maze::{grid, Maze};

verus! {

/// Whether a world pixel is no place to stand: it lies in a wall or
/// outside the grid.
pub open spec fn blocked(g: Seq<Seq<char>>, block_size: int, point: (usize, usize)) -> bool {
    probe_spec(g, block_size, Sample::Pixel { x: point.0, y: point.1 }) != Probe::Open
}

/// Whether any of the first `n` points is blocked.
pub open spec fn any_blocked(
    g: Seq<Seq<char>>,
    block_size: int,
    points: Seq<(usize, usize)>,
    n: int,
) -> bool {
    exists|i: int| 0 <= i < n && blocked(g, block_size, #[trigger] points[i])
}

/// Which parts of a step the viewer takes. A step that is free is taken
/// whole. Otherwise the viewer slides: the part along x is taken if that
/// part alone is free, and likewise the part along y.
pub open spec fn resolve_move_spec(full_blocked: bool, x_blocked: bool, y_blocked: bool) -> (
    bool,
    bool,
) {
    if !full_blocked {
        (true, true)
    } else {
        (!x_blocked, !y_blocked)
    }
}

/// Tells whether a body touches a wall, given the world pixels of the
/// points that are probed around it.
pub fn check_collision(maze: &Maze, block_size: usize, points: &Vec<(usize, usize)>) -> (hit:
    bool)
    requires
        block_size > 0,
    ensures
        hit == any_blocked(grid(maze), block_size as int, points@, points@.len() as int),
{
    let mut i: usize = 0;
    while i < points.len()
        invariant
            i <= points.len(),
            block_size > 0,
            !any_blocked(grid(maze), block_size as int, points@, i as int),
        decreases points.len() - i,
    {
        let p = points[i];
        match probe(maze, block_size, Sample::Pixel { x: p.0, y: p.1 }) {
            Probe::Open => {},
            _ => {
                assert(blocked(grid(maze), block_size as int, points@[i as int]));
                return true;
            },
        }
        i += 1;
    }
    false
}

/// Decides which parts of a step to take: `.0` for the part along x, `.1`
/// for the part along y. `full_blocked` says whether the whole step ends
/// in a collision, `x_blocked` and `y_blocked` whether its part along one
/// axis alone does.
pub fn resolve_move(full_blocked: bool, x_blocked: bool, y_blocked: bool) -> (taken: (bool, bool))
    ensures
        taken == resolve_move_spec(full_blocked, x_blocked, y_blocked),
{
    if !full_blocked {
        (true, true)
    } else {
        (!x_blocked, !y_blocked)
    }
}

} // verus!
