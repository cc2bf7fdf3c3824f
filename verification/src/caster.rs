//! The grid side of ray marching: what each sample point of a ray meets,
//! where the march stops and which face of the wall was struck.
//!
//! A ray is marched in steps of equal length. The caller computes the
//! sample point of each step and hands it over as a [`Sample`]; this module
//! decides whether the ray goes on.

use vstd::prelude::*;
use crate::color::Color;
use crate::framebuffer::{lemma_put_frame, FrameView, Framebuffer};
use crate::maze::{cell_at, cell_at_spec, grid, is_walkable, walkable, Maze, BOUNDARY};

verus! {

/// One sample point of a ray.
#[derive(Clone, Copy, Debug, PartialEq, Eq, Structural)]
pub enum Sample {
    /// The point has a negative coordinate.
    Outside,
    /// The point lies in the world pixel `(x, y)`: its coordinates rounded
    /// down.
    Pixel { x: usize, y: usize },
}

/// What a sample point meets.
#[derive(Clone, Copy, Debug, PartialEq, Eq, Structural)]
pub enum Probe {
    /// The point is outside the grid.
    Boundary,
    /// The point is in a cell that cannot be walked through.
    Wall { wall_type: char, grid_x: usize, grid_y: usize },
    /// The point is in a walkable cell.
    Open,
}

/// The face of a wall cell that a ray struck, told by the cell that the
/// ray came from.
#[derive(Clone, Copy, Debug, PartialEq, Eq, Structural)]
pub enum Face {
    /// The ray left the grid; there is no face.
    Boundary,
    /// Only the column changed: a face that runs along the y axis.
    Vertical,
    /// Only the row changed: a face that runs along the x axis.
    Horizontal,
    /// Column and row both changed in one step, or neither did.
    Corner,
}

/// The axis along which the texture coordinate of a hit is measured.
#[derive(Clone, Copy, Debug, PartialEq, Eq, Structural)]
pub enum Axis {
    X,
    Y,
}

/// Where a ray stopped.
#[derive(Clone, Copy, Debug, PartialEq, Eq, Structural)]
pub struct Intersect {
    /// Number of steps marched before the stop.
    pub hit_distance: usize,
    /// Tag of the wall that was hit, the boundary tag if the ray left the
    /// grid.
    pub wall_type: char,
    pub face: Face,
    /// Column of the cell that was hit; zero for the boundary.
    pub grid_x: usize,
    /// Row of the cell that was hit; zero for the boundary.
    pub grid_y: usize,
}

/// The pen colour of a traced ray.
pub open spec fn trace_color() -> Color {
    Color { r: 245, g: 245, b: 245, a: 255 }
}

/// What a sample meets in a grid of cell pitch `block_size`.
pub open spec fn probe_spec(g: Seq<Seq<char>>, block_size: int, sample: Sample) -> Probe {
    match sample {
        Sample::Outside => Probe::Boundary,
        Sample::Pixel { x, y } => match cell_at_spec(g, x as int / block_size, y as int / block_size) {
            None => Probe::Boundary,
            Some(cell) => if walkable(cell) {
                Probe::Open
            } else {
                Probe::Wall {
                    wall_type: cell,
                    grid_x: (x as int / block_size) as usize,
                    grid_y: (y as int / block_size) as usize,
                }
            },
        },
    }
}

/// The face struck when stepping from world pixel `prev` into the wall
/// cell `(grid_x, grid_y)`.
pub open spec fn face_spec(prev: (usize, usize), block_size: int, grid_x: int, grid_y: int) -> Face {
    let prev_x = prev.0 as int / block_size;
    let prev_y = prev.1 as int / block_size;
    if grid_x != prev_x && grid_y == prev_y {
        Face::Vertical
    } else if grid_y != prev_y && grid_x == prev_x {
        Face::Horizontal
    } else {
        Face::Corner
    }
}

/// The stop that a sample causes after `steps` steps, if it causes one;
/// `prev` is the world pixel of the sample before it.
pub open spec fn stop_spec(
    g: Seq<Seq<char>>,
    block_size: int,
    prev: (usize, usize),
    steps: nat,
    sample: Sample,
) -> Option<Intersect> {
    match probe_spec(g, block_size, sample) {
        Probe::Open => None,
        Probe::Boundary => Some(
            Intersect {
                hit_distance: steps as usize,
                wall_type: BOUNDARY,
                face: Face::Boundary,
                grid_x: 0,
                grid_y: 0,
            },
        ),
        Probe::Wall { wall_type, grid_x, grid_y } => Some(
            Intersect {
                hit_distance: steps as usize,
                wall_type,
                face: face_spec(prev, block_size, grid_x as int, grid_y as int),
                grid_x,
                grid_y,
            },
        ),
    }
}

/// The axis of the texture coordinate for a face. On a corner the axis is
/// chosen by which edge of the cell the hit point is nearer to:
/// `x_edge_nearer` says that its distance to the nearer of the two edges
/// across x is smaller than that across y. The boundary has no axis.
pub open spec fn texture_axis_spec(face: Face, x_edge_nearer: bool) -> Option<Axis> {
    match face {
        Face::Boundary => None,
        Face::Vertical => Some(Axis::Y),
        Face::Horizontal => Some(Axis::X),
        Face::Corner => if x_edge_nearer {
            Some(Axis::Y)
        } else {
            Some(Axis::X)
        },
    }
}

/// The world pixel of a sample that is not outside.
pub open spec fn pixel_of(sample: Sample) -> (usize, usize) {
    match sample {
        Sample::Outside => (0, 0),
        Sample::Pixel { x, y } => (x, y),
    }
}

/// Number of leading samples, among the first `n`, that lie in walkable
/// cells: the number of steps that the ray marches over these samples.
pub open spec fn open_run(g: Seq<Seq<char>>, block_size: int, samples: Seq<Sample>, n: nat) -> nat
    decreases n,
{
    if n == 0 {
        0
    } else {
        let before = open_run(g, block_size, samples, (n - 1) as nat);
        if before == n - 1 && probe_spec(g, block_size, samples[n - 1]) == Probe::Open {
            n
        } else {
            before
        }
    }
}

/// The world pixel that the ray was in before sample number `k`: the
/// viewer's for the first sample.
pub open spec fn pixel_before(origin: (usize, usize), samples: Seq<Sample>, k: int) -> (
    usize,
    usize,
) {
    if k <= 0 {
        origin
    } else {
        pixel_of(samples[k - 1])
    }
}

/// Where a ray stops that starts in world pixel `origin` and whose
/// consecutive sample points are `samples`: at the first sample that is
/// not in a walkable cell. `None` if every sample is in a walkable cell.
pub open spec fn cast_spec(
    g: Seq<Seq<char>>,
    block_size: int,
    origin: (usize, usize),
    samples: Seq<Sample>,
) -> Option<Intersect> {
    let k = open_run(g, block_size, samples, samples.len());
    if k >= samples.len() {
        None
    } else {
        stop_spec(g, block_size, pixel_before(origin, samples, k as int), k, samples[k as int])
    }
}

/// A framebuffer after tracing the first `n` samples of a ray: the pen is
/// the trace colour, and each sample's pixel is painted with it. Pixel
/// coordinates are cut to their low 32 bits.
pub open spec fn traced(view: FrameView, samples: Seq<Sample>, n: nat) -> FrameView
    decreases n,
{
    if n == 0 {
        FrameView { current: trace_color(), ..view }
    } else {
        let p = pixel_of(samples[n - 1]);
        traced(view, samples, (n - 1) as nat).put(
            p.0 as u32 as int,
            p.1 as u32 as int,
            trace_color(),
        )
    }
}

/// The samples before the end of the open run are all in walkable cells,
/// and the sample at its end, if there is one, is not.
pub proof fn lemma_open_run(g: Seq<Seq<char>>, block_size: int, samples: Seq<Sample>, n: nat)
    requires
        n <= samples.len(),
    ensures
        open_run(g, block_size, samples, n) <= n,
        forall|i: int|
            0 <= i < open_run(g, block_size, samples, n) ==> probe_spec(
                g,
                block_size,
                #[trigger] samples[i],
            ) == Probe::Open,
        open_run(g, block_size, samples, n) < n ==> probe_spec(
            g,
            block_size,
            samples[open_run(g, block_size, samples, n) as int],
        ) != Probe::Open,
    decreases n,
{
    if n > 0 {
        lemma_open_run(g, block_size, samples, (n - 1) as nat);
    }
}

/// A ray whose first sample lies in a walkable cell marches at least one
/// step: it does not stop at distance zero.
pub proof fn lemma_open_start_advances(
    g: Seq<Seq<char>>,
    block_size: int,
    origin: (usize, usize),
    samples: Seq<Sample>,
)
    requires
        0 < samples.len() <= usize::MAX,
        probe_spec(g, block_size, samples[0]) == Probe::Open,
    ensures
        cast_spec(g, block_size, origin, samples) matches Some(hit) ==> hit.hit_distance >= 1,
{
    lemma_open_run_from_start(g, block_size, samples, samples.len());
    lemma_open_run(g, block_size, samples, samples.len());
}

proof fn lemma_open_run_from_start(
    g: Seq<Seq<char>>,
    block_size: int,
    samples: Seq<Sample>,
    n: nat,
)
    requires
        0 < n <= samples.len(),
        probe_spec(g, block_size, samples[0]) == Probe::Open,
    ensures
        open_run(g, block_size, samples, n) >= 1,
    decreases n,
{
    if n > 1 {
        lemma_open_run_from_start(g, block_size, samples, (n - 1) as nat);
    }
}

/// A ray stops within its samples exactly if one of them is not in a
/// walkable cell, and then it stops at the first such sample.
pub proof fn lemma_cast_stops(
    g: Seq<Seq<char>>,
    block_size: int,
    origin: (usize, usize),
    samples: Seq<Sample>,
)
    requires
        samples.len() <= usize::MAX,
    ensures
        cast_spec(g, block_size, origin, samples) is Some <==> exists|i: int|
            0 <= i < samples.len() && probe_spec(g, block_size, #[trigger] samples[i])
                != Probe::Open,
        cast_spec(g, block_size, origin, samples) matches Some(hit) ==> {
            &&& hit.hit_distance < samples.len()
            &&& probe_spec(g, block_size, samples[hit.hit_distance as int]) != Probe::Open
            &&& forall|i: int|
                0 <= i < hit.hit_distance ==> probe_spec(g, block_size, #[trigger] samples[i])
                    == Probe::Open
        },
{
    lemma_open_run(g, block_size, samples, samples.len());
}

/// Tells what a sample point meets.
pub fn probe(maze: &Maze, block_size: usize, sample: Sample) -> (met: Probe)
    requires
        block_size > 0,
    ensures
        met == probe_spec(grid(maze), block_size as int, sample),
{
    match sample {
        Sample::Outside => Probe::Boundary,
        Sample::Pixel { x, y } => {
            let grid_x: usize = x / block_size;
            let grid_y: usize = y / block_size;
            match cell_at(maze, grid_x, grid_y) {
                None => Probe::Boundary,
                Some(cell) => {
                    if is_walkable(cell) {
                        Probe::Open
                    } else {
                        Probe::Wall { wall_type: cell, grid_x, grid_y }
                    }
                },
            }
        },
    }
}

/// Tells which face of the wall cell `(grid_x, grid_y)` a ray struck that
/// was in world pixel `prev` one step earlier.
pub fn struck_face(prev: (usize, usize), block_size: usize, grid_x: usize, grid_y: usize) -> (face:
    Face)
    requires
        block_size > 0,
    ensures
        face == face_spec(prev, block_size as int, grid_x as int, grid_y as int),
{
    let prev_x: usize = prev.0 / block_size;
    let prev_y: usize = prev.1 / block_size;
    if grid_x != prev_x && grid_y == prev_y {
        Face::Vertical
    } else if grid_y != prev_y && grid_x == prev_x {
        Face::Horizontal
    } else {
        Face::Corner
    }
}

/// Chooses the axis along which the texture coordinate of a hit is
/// measured.
pub fn texture_axis(face: Face, x_edge_nearer: bool) -> (axis: Option<Axis>)
    ensures
        axis == texture_axis_spec(face, x_edge_nearer),
{
    match face {
        Face::Boundary => None,
        Face::Vertical => Some(Axis::Y),
        Face::Horizontal => Some(Axis::X),
        Face::Corner => if x_edge_nearer {
            Some(Axis::Y)
        } else {
            Some(Axis::X)
        },
    }
}

/// The state of one ray between two steps.
#[derive(Clone, Copy, Debug, PartialEq, Eq, Structural)]
pub struct RayMarch {
    /// Steps marched so far.
    pub steps: usize,
    /// World pixel column of the latest sample, the viewer's before the
    /// first.
    pub prev_x: usize,
    /// World pixel row of the latest sample.
    pub prev_y: usize,
}

impl RayMarch {
    /// A ray that starts in world pixel `origin`. The pen of the
    /// framebuffer becomes the trace colour.
    pub fn start(framebuffer: &mut Framebuffer, origin: (usize, usize)) -> (ray: RayMarch)
        ensures
            ray == (RayMarch { steps: 0, prev_x: origin.0, prev_y: origin.1 }),
            final(framebuffer)@ == (FrameView { current: trace_color(), ..old(framebuffer)@ }),
            final(framebuffer)@.wf(),
    {
        framebuffer.set_current_color(Color::new(245, 245, 245, 255));
        RayMarch { steps: 0, prev_x: origin.0, prev_y: origin.1 }
    }

    /// Takes the next sample of the ray. If the ray stops there, the stop
    /// is returned and the ray stays as it is. Otherwise the ray has
    /// marched one step more, and with `draw_line` the sample's pixel is
    /// painted in the pen colour. Tracing has no influence on the stop.
    pub fn advance(
        &mut self,
        framebuffer: &mut Framebuffer,
        maze: &Maze,
        block_size: usize,
        sample: Sample,
        draw_line: bool,
    ) -> (stop: Option<Intersect>)
        requires
            block_size > 0,
            old(self).steps < usize::MAX,
        ensures
            stop == stop_spec(
                grid(maze),
                block_size as int,
                (old(self).prev_x, old(self).prev_y),
                old(self).steps as nat,
                sample,
            ),
            stop is Some ==> *final(self) == *old(self) && final(framebuffer)@ == old(
                framebuffer,
            )@,
            stop is None ==> *final(self) == (RayMarch {
                steps: (old(self).steps + 1) as usize,
                prev_x: pixel_of(sample).0,
                prev_y: pixel_of(sample).1,
            }),
            stop is None && !draw_line ==> final(framebuffer)@ == old(framebuffer)@,
            stop is None && draw_line ==> final(framebuffer)@ == old(framebuffer)@.put(
                pixel_of(sample).0 as u32 as int,
                pixel_of(sample).1 as u32 as int,
                old(framebuffer)@.current,
            ),
    {
        match probe(maze, block_size, sample) {
            Probe::Boundary => Some(
                Intersect {
                    hit_distance: self.steps,
                    wall_type: BOUNDARY,
                    face: Face::Boundary,
                    grid_x: 0,
                    grid_y: 0,
                },
            ),
            Probe::Wall { wall_type, grid_x, grid_y } => Some(
                Intersect {
                    hit_distance: self.steps,
                    wall_type,
                    face: struck_face((self.prev_x, self.prev_y), block_size, grid_x, grid_y),
                    grid_x,
                    grid_y,
                },
            ),
            Probe::Open => {
                match sample {
                    Sample::Pixel { x, y } => {
                        if draw_line {
                            framebuffer.set_pixel(
                                #[verifier::truncate]
                                (x as u32),
                                #[verifier::truncate]
                                (y as u32),
                            );
                        }
                        self.prev_x = x;
                        self.prev_y = y;
                    },
                    Sample::Outside => {},
                }
                self.steps = self.steps + 1;
                None
            },
        }
    }
}

/// Once a sample stops the ray, later samples do not matter.
proof fn lemma_open_run_stuck(
    g: Seq<Seq<char>>,
    block_size: int,
    samples: Seq<Sample>,
    k: nat,
    n: nat,
)
    requires
        k < n <= samples.len(),
        open_run(g, block_size, samples, k) == k,
        probe_spec(g, block_size, samples[k as int]) != Probe::Open,
    ensures
        open_run(g, block_size, samples, n) == k,
    decreases n,
{
    if n > k + 1 {
        lemma_open_run_stuck(g, block_size, samples, k, (n - 1) as nat);
    }
}

/// Tracing changes pixels only: size, pen and background are those of the
/// buffer with the trace colour as pen.
proof fn lemma_traced_frame(view: FrameView, samples: Seq<Sample>, n: nat)
    requires
        view.wf(),
    ensures
        traced(view, samples, n).wf(),
        traced(view, samples, n) == (FrameView {
            pixels: traced(view, samples, n).pixels,
            current: trace_color(),
            ..view
        }),
    decreases n,
{
    if n > 0 {
        lemma_traced_frame(view, samples, (n - 1) as nat);
        let before = traced(view, samples, (n - 1) as nat);
        let p = pixel_of(samples[n - 1]);
        lemma_put_frame(before, p.0 as u32 as int, p.1 as u32 as int, trace_color());
    }
}

/// Marches a ray over its sample points, in order, until one of them stops
/// it. `origin` is the world pixel that the ray starts in. Returns the
/// stop, or `None` if the ray is still going after the last sample.
///
/// The pen of the framebuffer becomes the trace colour. With `draw_line`
/// the pixel of every sample that the ray passes is painted with it.
pub fn cast_ray(
    framebuffer: &mut Framebuffer,
    maze: &Maze,
    origin: (usize, usize),
    samples: &Vec<Sample>,
    block_size: usize,
    draw_line: bool,
) -> (hit: Option<Intersect>)
    requires
        block_size > 0,
    ensures
        hit == cast_spec(grid(maze), block_size as int, origin, samples@),
        final(framebuffer)@ == if draw_line {
            traced(
                old(framebuffer)@,
                samples@,
                open_run(grid(maze), block_size as int, samples@, samples@.len()),
            )
        } else {
            FrameView { current: trace_color(), ..old(framebuffer)@ }
        },
{
    let ghost g = grid(maze);
    let ghost bs = block_size as int;
    let ghost start = framebuffer@;
    let mut ray = RayMarch::start(framebuffer, origin);
    let mut k: usize = 0;
    while k < samples.len()
        invariant
            k <= samples.len(),
            block_size > 0,
            g == grid(maze),
            bs == block_size as int,
            start.wf(),
            start == old(framebuffer)@,
            ray.steps == k,
            (ray.prev_x, ray.prev_y) == pixel_before(origin, samples@, k as int),
            open_run(g, bs, samples@, k as nat) == k,
            framebuffer@ == if draw_line {
                traced(start, samples@, k as nat)
            } else {
                FrameView { current: trace_color(), ..start }
            },
        decreases samples.len() - k,
    {
        proof {
            lemma_traced_frame(start, samples@, k as nat);
        }
        match ray.advance(framebuffer, maze, block_size, samples[k], draw_line) {
            Some(hit) => {
                proof {
                    assert(probe_spec(g, bs, samples@[k as int]) != Probe::Open);
                    lemma_open_run_stuck(g, bs, samples@, k as nat, samples@.len());
                }
                return Some(hit);
            },
            None => {},
        }
        k += 1;
    }
    None
}

} // verus!
