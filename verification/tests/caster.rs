use raycaster::caster::{
    cast_ray, probe, struck_face, texture_axis, Axis, Face, Intersect, Probe, RayMarch, Sample,
};
use raycaster::color::Color;
use raycaster::framebuffer::Framebuffer;
use raycaster::maze::Maze;

fn rows(lines: &[&str]) -> Maze {
    lines.iter().map(|l| l.chars().collect()).collect()
}

fn room() -> Maze {
    rows(&["+---+", "|p  |", "|   |", "|  g|", "+---+"])
}

fn at(x: usize, y: usize) -> Sample {
    Sample::Pixel { x, y }
}

const TRACE: Color = Color { r: 245, g: 245, b: 245, a: 255 };

#[test]
fn probe_classifies_samples() {
    let maze = room();
    assert_eq!(probe(&maze, 10, Sample::Outside), Probe::Boundary);
    assert_eq!(probe(&maze, 10, at(15, 15)), Probe::Open);
    assert_eq!(probe(&maze, 10, at(39, 39)), Probe::Open);
    assert_eq!(probe(&maze, 10, at(0, 0)), Probe::Wall { wall_type: '+', grid_x: 0, grid_y: 0 });
    assert_eq!(probe(&maze, 10, at(25, 9)), Probe::Wall { wall_type: '-', grid_x: 2, grid_y: 0 });
    assert_eq!(probe(&maze, 10, at(40, 20)), Probe::Wall { wall_type: '|', grid_x: 4, grid_y: 2 });
    assert_eq!(probe(&maze, 10, at(50, 20)), Probe::Boundary);
    assert_eq!(probe(&maze, 10, at(20, 50)), Probe::Boundary);
    assert_eq!(probe(&maze, 10, at(usize::MAX, usize::MAX)), Probe::Boundary);
}

#[test]
fn probe_checks_each_row_by_its_own_length() {
    let maze = rows(&["+-", "|  ", ""]);
    assert_eq!(probe(&maze, 1, at(2, 0)), Probe::Boundary);
    assert_eq!(probe(&maze, 1, at(2, 1)), Probe::Open);
    assert_eq!(probe(&maze, 1, at(0, 2)), Probe::Boundary);
    assert_eq!(probe(&Vec::new(), 1, at(0, 0)), Probe::Boundary);
}

#[test]
fn the_face_is_told_by_the_cell_the_ray_came_from() {
    // pitch 10: pixel (35, 25) is in cell (3, 2)
    assert_eq!(struck_face((35, 25), 10, 4, 2), Face::Vertical);
    assert_eq!(struck_face((35, 25), 10, 2, 2), Face::Vertical);
    assert_eq!(struck_face((35, 25), 10, 3, 3), Face::Horizontal);
    assert_eq!(struck_face((35, 25), 10, 3, 1), Face::Horizontal);
    assert_eq!(struck_face((35, 25), 10, 4, 3), Face::Corner);
    assert_eq!(struck_face((35, 25), 10, 2, 1), Face::Corner);
    // started inside the wall cell
    assert_eq!(struck_face((35, 25), 10, 3, 2), Face::Corner);
}

#[test]
fn the_texture_axis_follows_the_face() {
    for nearer in [false, true] {
        assert_eq!(texture_axis(Face::Vertical, nearer), Some(Axis::Y));
        assert_eq!(texture_axis(Face::Horizontal, nearer), Some(Axis::X));
        assert_eq!(texture_axis(Face::Boundary, nearer), None);
    }
    assert_eq!(texture_axis(Face::Corner, true), Some(Axis::Y));
    assert_eq!(texture_axis(Face::Corner, false), Some(Axis::X));
}

#[test]
fn a_ray_stops_at_the_first_wall() {
    let maze = room();
    let mut fb = Framebuffer::new(50, 50);
    // east along y = 25 from x = 15
    let samples: Vec<Sample> = (0..100).map(|k| at(15 + k, 25)).collect();
    let hit = cast_ray(&mut fb, &maze, (15, 25), &samples, 10, false);
    assert_eq!(
        hit,
        Some(Intersect { hit_distance: 25, wall_type: '|', face: Face::Vertical, grid_x: 4, grid_y: 2 })
    );
}

#[test]
fn a_ray_going_south_hits_a_horizontal_face() {
    let maze = room();
    let mut fb = Framebuffer::new(50, 50);
    let samples: Vec<Sample> = (0..100).map(|k| at(25, 12 + k)).collect();
    let hit = cast_ray(&mut fb, &maze, (25, 12), &samples, 10, false).unwrap();
    assert_eq!(hit.hit_distance, 28);
    assert_eq!(hit.wall_type, '-');
    assert_eq!(hit.face, Face::Horizontal);
    assert_eq!((hit.grid_x, hit.grid_y), (2, 4));
}

#[test]
fn a_diagonal_ray_can_hit_a_corner() {
    let maze = room();
    let mut fb = Framebuffer::new(50, 50);
    let samples: Vec<Sample> = (0..100).map(|k| at(30 + k, 30 + k)).collect();
    let hit = cast_ray(&mut fb, &maze, (30, 30), &samples, 10, false).unwrap();
    assert_eq!(hit.hit_distance, 10);
    assert_eq!(hit.wall_type, '+');
    assert_eq!(hit.face, Face::Corner);
    assert_eq!((hit.grid_x, hit.grid_y), (4, 4));
}

#[test]
fn leaving_the_grid_is_a_boundary_hit() {
    let open = rows(&["   ", "   "]);
    let mut fb = Framebuffer::new(4, 4);
    let east: Vec<Sample> = (0..50).map(|k| at(5 + k, 5)).collect();
    assert_eq!(
        cast_ray(&mut fb, &open, (5, 5), &east, 10, false),
        Some(Intersect { hit_distance: 25, wall_type: '#', face: Face::Boundary, grid_x: 0, grid_y: 0 })
    );
    let west = vec![at(2, 5), at(1, 5), at(0, 5), Sample::Outside, Sample::Outside];
    let hit = cast_ray(&mut fb, &open, (2, 5), &west, 10, false).unwrap();
    assert_eq!(hit.hit_distance, 3);
    assert_eq!(hit.wall_type, '#');
    assert_eq!(hit.face, Face::Boundary);
}

#[test]
fn a_ray_that_starts_in_a_wall_stops_at_once() {
    let maze = room();
    let mut fb = Framebuffer::new(4, 4);
    let samples = vec![at(5, 5), at(15, 15)];
    assert_eq!(
        cast_ray(&mut fb, &maze, (5, 5), &samples, 10, true),
        Some(Intersect { hit_distance: 0, wall_type: '+', face: Face::Corner, grid_x: 0, grid_y: 0 })
    );
    assert_eq!(fb.get_pixel(0, 0), Some(Color::black()));
}

#[test]
fn a_ray_that_starts_in_a_walkable_cell_marches_at_least_one_step() {
    let maze = room();
    for (dx, dy) in [(1i64, 0i64), (-1, 0), (0, 1), (0, -1), (1, 1), (-1, -1), (1, -1), (-1, 1)] {
        for origin in [(10i64, 10i64), (39, 39), (25, 25), (10, 39)] {
            let samples: Vec<Sample> = (0..100)
                .map(|k| {
                    let (x, y) = (origin.0 + k * dx, origin.1 + k * dy);
                    if x < 0 || y < 0 { Sample::Outside } else { at(x as usize, y as usize) }
                })
                .collect();
            let mut fb = Framebuffer::new(1, 1);
            let hit = cast_ray(&mut fb, &maze, (origin.0 as usize, origin.1 as usize), &samples, 10, false).unwrap();
            assert!(hit.hit_distance >= 1);
            assert_ne!(hit.wall_type, '#');
        }
    }
}

#[test]
fn a_ray_without_a_stop_among_its_samples() {
    let maze = room();
    let mut fb = Framebuffer::new(4, 4);
    let samples: Vec<Sample> = (0..10).map(|k| at(15 + k, 25)).collect();
    assert_eq!(cast_ray(&mut fb, &maze, (15, 25), &samples, 10, false), None);
    assert_eq!(cast_ray(&mut fb, &maze, (15, 25), &Vec::new(), 10, false), None);
}

#[test]
fn tracing_marks_the_samples_passed_and_changes_no_result() {
    let maze = room();
    let samples: Vec<Sample> = (0..100).map(|k| at(35 + k, 25)).collect();
    let mut plain = Framebuffer::new(50, 50);
    let mut traced = Framebuffer::new(50, 50);
    let quiet = cast_ray(&mut plain, &maze, (35, 25), &samples, 10, false);
    let drawn = cast_ray(&mut traced, &maze, (35, 25), &samples, 10, true);
    assert_eq!(quiet, drawn);
    assert_eq!(quiet.unwrap().hit_distance, 5);
    for y in 0..50 {
        for x in 0..50 {
            let on_ray = y == 25 && (35..40).contains(&x);
            assert_eq!(traced.get_pixel(x, y), Some(if on_ray { TRACE } else { Color::black() }));
            assert_eq!(plain.get_pixel(x, y), Some(Color::black()));
        }
    }
    assert_eq!(plain.current_color(), TRACE);
    assert_eq!(traced.current_color(), TRACE);
}

#[test]
fn marching_step_by_step_agrees_with_casting() {
    let maze = room();
    let samples: Vec<Sample> = (0..100).map(|k| at(12 + k, 37)).collect();
    let mut fb = Framebuffer::new(1, 1);
    let whole = cast_ray(&mut fb, &maze, (12, 37), &samples, 10, false);
    let mut ray = RayMarch::start(&mut fb, (12, 37));
    assert_eq!(ray, RayMarch { steps: 0, prev_x: 12, prev_y: 37 });
    let mut stop = None;
    for s in &samples {
        stop = ray.advance(&mut fb, &maze, 10, *s, false);
        if stop.is_some() {
            break;
        }
    }
    assert_eq!(stop, whole);
    assert_eq!(ray.steps, 28);
    assert_eq!((ray.prev_x, ray.prev_y), (39, 37));
}

#[test]
fn advance_keeps_the_ray_when_it_stops() {
    let maze = room();
    let mut fb = Framebuffer::new(1, 1);
    let mut ray = RayMarch { steps: 7, prev_x: 39, prev_y: 20 };
    let stop = ray.advance(&mut fb, &maze, 10, at(40, 20), true);
    assert_eq!(
        stop,
        Some(Intersect { hit_distance: 7, wall_type: '|', face: Face::Vertical, grid_x: 4, grid_y: 2 })
    );
    assert_eq!(ray, RayMarch { steps: 7, prev_x: 39, prev_y: 20 });
    assert_eq!(ray.advance(&mut fb, &maze, 10, at(38, 20), false), None);
    assert_eq!(ray, RayMarch { steps: 8, prev_x: 38, prev_y: 20 });
}
