use raycaster::billboards::{render_sprites, Billboard};
use raycaster::bitmap::CpuImage;
use raycaster::caster::{texture_axis, Axis, Face, Intersect, RayMarch, Sample};
use raycaster::color::Color;
use raycaster::framebuffer::Framebuffer;
use raycaster::maze::{parse_maze, Maze};
use raycaster::sprites::SpriteManager;
use raycaster::textures::{TextureManager, WallLayers};
use raycaster::walls::{render_world, WallSlice};

use std::f32::consts::PI;

const PITCH: usize = 100;
/// Depth units per world unit.
const UNITS: f32 = 1000.0;

struct Pose {
    x: f32,
    y: f32,
    angle: f32,
    fov: f32,
}

struct Hit {
    stop: Intersect,
    texture_coord: f32,
}

/// Marches one ray in steps of one world unit.
fn cast(fb: &mut Framebuffer, maze: &Maze, pose: &Pose, angle: f32) -> Hit {
    let pitch = PITCH as f32;
    let mut ray = RayMarch::start(fb, (pose.x as usize, pose.y as usize));
    let mut length: f32 = 0.0;
    loop {
        let wx = pose.x + length * angle.cos();
        let wy = pose.y + length * angle.sin();
        let sample = if wx < 0.0 || wy < 0.0 { Sample::Outside } else { Sample::Pixel { x: wx as usize, y: wy as usize } };
        if let Some(stop) = ray.advance(fb, maze, PITCH, sample, false) {
            let local_x = wx - (stop.grid_x * PITCH) as f32;
            let local_y = wy - (stop.grid_y * PITCH) as f32;
            let edge_x = local_x.min(pitch - local_x);
            let edge_y = local_y.min(pitch - local_y);
            let texture_coord = match texture_axis(stop.face, edge_x < edge_y) {
                None => 0.0,
                Some(Axis::Y) => (local_y / pitch).fract(),
                Some(Axis::X) => (local_x / pitch).fract(),
            };
            return Hit { stop, texture_coord };
        }
        assert!(length < 100_000.0, "the ray does not end");
        length += 1.0;
    }
}

fn depth_units(distance: f32) -> u32 {
    (distance * UNITS) as u32
}

/// The slice of every screen column, as the wall pass takes them.
fn slices(fb: &mut Framebuffer, maze: &Maze, pose: &Pose, textures: &TextureManager) -> Vec<WallSlice> {
    let width = fb.width();
    let height = fb.height() as f32;
    let half = height / 2.0;
    let plane = (width as f32 / 2.0) / (pose.fov / 2.0).tan();
    let pitch = PITCH as f32;
    let mut out = Vec::new();
    for i in 0..width {
        let t = i as f32 / width as f32;
        let a = pose.angle - pose.fov / 2.0 + pose.fov * t;
        let hit = cast(fb, maze, pose, a);
        let mut perp = hit.stop.hit_distance as f32 * (a - pose.angle).cos().abs();
        let near = 0.35 * pitch;
        if perp < near {
            perp = near;
        }
        let stake = ((pitch * plane) / perp).min(height * 0.9);
        let (tw, _) = textures.get_image_size(hit.stop.wall_type);
        let tex_x = (hit.texture_coord * tw as f32).clamp(0.0, tw as f32 - 1.0) as u32;
        out.push(WallSlice {
            wall_type: hit.stop.wall_type,
            texture_x: tex_x,
            top: (half - stake * 0.5) as i32,
            bottom: (half + stake * 0.5) as i32,
            depth: depth_units(perp),
        });
    }
    out
}

fn wall_textures() -> TextureManager {
    let clear = |w, h| CpuImage::filled(w, h, Color::new(0, 0, 0, 0));
    TextureManager::new(vec![
        WallLayers { tag: '-', base: CpuImage::filled(8, 8, Color::new(200, 10, 10, 255)), overlay: clear(8, 8) },
        WallLayers { tag: '|', base: CpuImage::filled(8, 8, Color::new(10, 200, 10, 255)), overlay: clear(8, 8) },
        WallLayers { tag: '+', base: CpuImage::filled(8, 8, Color::new(10, 10, 200, 255)), overlay: clear(8, 8) },
    ])
    .unwrap()
}

fn open_room() -> Maze {
    parse_maze("+---+\n|   |\n|   |\n|   |\n+---+\n")
}

fn ring_room() -> Maze {
    parse_maze("+---+\n|   |\n| + |\n|   |\n+---+\n")
}

fn east(x: f32, y: f32) -> Pose {
    Pose { x, y, angle: 0.0, fov: PI / 2.0 }
}

#[test]
fn rays_in_an_enclosed_room_end_at_a_wall() {
    let maze = open_room();
    let mut fb = Framebuffer::new(1, 1);
    let pose = east(250.0, 250.0);
    for step in 0..720 {
        let angle = step as f32 * PI / 360.0 - PI;
        let hit = cast(&mut fb, &maze, &pose, angle);
        assert_ne!(hit.stop.face, Face::Boundary);
        assert!(hit.stop.hit_distance >= 1);
        assert!(hit.stop.hit_distance <= 213);
        assert!(hit.texture_coord >= 0.0 && hit.texture_coord < 1.0);
    }
}

#[test]
fn rays_in_an_open_field_end_at_the_boundary() {
    let maze = parse_maze("   \n   \n   \n");
    let mut fb = Framebuffer::new(1, 1);
    let pose = east(150.0, 150.0);
    for step in 0..360 {
        let angle = step as f32 * PI / 180.0 - PI;
        let hit = cast(&mut fb, &maze, &pose, angle);
        assert_eq!(hit.stop.wall_type, '#');
        assert_eq!(hit.stop.face, Face::Boundary);
        assert_eq!(hit.texture_coord, 0.0);
        assert!(hit.stop.hit_distance >= 150);
    }
}

#[test]
fn a_ray_straight_ahead_is_not_shortened() {
    let maze = open_room();
    let mut fb = Framebuffer::new(101, 100);
    let textures = wall_textures();
    for (x, y, angle, steps) in [(250.0, 250.0, 0.0, 150), (150.0, 350.0, 0.0, 250), (250.0, 250.0, PI / 2.0, 150)] {
        let pose = Pose { x, y, angle, fov: PI / 2.0 };
        let hit = cast(&mut fb, &maze, &pose, angle);
        assert_eq!(hit.stop.hit_distance, steps);
        // on a screen of odd width no column looks straight ahead, so take the ray itself
        let perp = hit.stop.hit_distance as f32 * (angle - pose.angle).cos().abs();
        assert_eq!(perp, hit.stop.hit_distance as f32);
        assert_eq!(depth_units(perp), steps as u32 * 1000);
    }
    let pose = east(250.0, 250.0);
    let all = slices(&mut Framebuffer::new(100, 100), &maze, &pose, &textures);
    assert_eq!(all[50].depth, 150_000);
}

#[test]
fn a_flat_wall_has_one_depth_across_the_screen() {
    let maze = open_room();
    let mut fb = Framebuffer::new(100, 80);
    let mut textures = wall_textures();
    let pose = east(250.0, 250.0);
    let all = slices(&mut fb, &maze, &pose, &textures);
    let depth = render_world(&mut fb, &mut textures, &all);
    assert_eq!(depth.len(), 100);
    for (i, d) in depth.iter().enumerate() {
        // every ray ends on the wall plane 150 units ahead, at most one step late
        assert!((150_000..151_000).contains(d), "column {i}: {d}");
    }
    for s in &all[1..] {
        assert_eq!(s.wall_type, '|');
    }
}

#[test]
fn the_centre_column_is_the_nearest_in_a_square_room() {
    let maze = open_room();
    let mut fb = Framebuffer::new(100, 80);
    let mut textures = wall_textures();
    let pose = east(250.0, 250.0);
    let all = slices(&mut fb, &maze, &pose, &textures);
    let depth = render_world(&mut fb, &mut textures, &all);
    let min = *depth.iter().min().unwrap();
    assert_eq!(depth[50], 150_000);
    assert_eq!(depth[50], min);
    assert!(depth[0] >= depth[50]);
    assert!(depth[99] >= depth[50]);
    // the wall ahead is painted in the middle of the screen, the backdrop at its top
    assert_eq!(fb.get_pixel(50, 40), Some(Color::new(10, 200, 10, 255)));
    assert_eq!(fb.get_pixel(50, 0), Some(Color::new(179, 229, 252, 255)));
    assert_eq!(fb.get_pixel(50, 79), Some(Color::new(26, 120, 112, 255)));
}

#[test]
fn a_viewer_inside_a_wall_sees_the_near_plane_everywhere() {
    let maze = ring_room();
    let mut fb = Framebuffer::new(100, 80);
    let mut textures = wall_textures();
    let pose = east(250.0, 250.0);
    let all = slices(&mut fb, &maze, &pose, &textures);
    for s in &all {
        assert_eq!(s.wall_type, '+');
        // 0.35 of the pitch
        assert_eq!(s.depth, 35_000);
        // the slice is held at nine tenths of the screen height
        assert_eq!((s.top, s.bottom), (4, 76));
    }
    let depth = render_world(&mut fb, &mut textures, &all);
    assert_eq!(depth[50], *depth.iter().min().unwrap());
    assert_eq!(depth[0], depth[50]);
    assert_eq!(depth[99], depth[50]);
    assert_eq!(fb.get_pixel(0, 4), Some(Color::new(10, 10, 200, 255)));
    assert_eq!(fb.get_pixel(99, 76), Some(Color::new(10, 10, 200, 255)));
    assert_ne!(fb.get_pixel(0, 3), Some(Color::new(10, 10, 200, 255)));
    assert_ne!(fb.get_pixel(0, 77), Some(Color::new(10, 10, 200, 255)));
}

#[test]
fn walls_hide_the_sprites_behind_them() {
    let maze = open_room();
    let mut fb = Framebuffer::new(100, 80);
    let mut textures = wall_textures();
    let pose = east(250.0, 250.0);
    let all = slices(&mut fb, &maze, &pose, &textures);
    let depth = render_world(&mut fb, &mut textures, &all);
    let before: Vec<Option<Color>> = (0..100).map(|x| fb.get_pixel(x, 40)).collect();
    let sprites = SpriteManager::from_images(
        CpuImage::filled(4, 4, Color::new(255, 215, 0, 255)),
        CpuImage::filled(4, 4, Color::new(0, 0, 90, 255)),
        CpuImage::filled(4, 4, Color::new(90, 0, 90, 255)),
    );
    let behind = Billboard {
        sprite_type: 'P',
        distance: 200_000,
        depth: 200_000,
        first_column: 30,
        columns: vec![Some(1); 40],
        top: 20,
        bottom: 60,
    };
    let in_front = Billboard {
        sprite_type: 'c',
        distance: 100_000,
        depth: 100_000,
        first_column: 45,
        columns: vec![Some(1); 10],
        top: 35,
        bottom: 45,
    };
    render_sprites(&mut fb, &vec![in_front, behind], &sprites, &depth, 1);
    for x in 0..100u32 {
        let want = if (45..55).contains(&x) { Some(Color::new(255, 215, 0, 255)) } else { before[x as usize] };
        assert_eq!(fb.get_pixel(x, 40), want);
    }
    assert_eq!(depth.len(), 100);
}
