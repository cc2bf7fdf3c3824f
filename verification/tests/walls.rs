use raycaster::bitmap::CpuImage;
use raycaster::color::Color;
use raycaster::framebuffer::Framebuffer;
use raycaster::textures::{TextureManager, WallLayers};
use raycaster::walls::{draw_backdrop, draw_wall_slice, render_world, texel_row, WallSlice, FAR};

const FLOOR: Color = Color { r: 26, g: 120, b: 112, a: 255 };

/// A texture of `width` by `height` whose pixel (x, y) is (x, y, tag, 255).
fn gradient(width: u32, height: u32, tag: u8) -> CpuImage {
    let mut data = Vec::new();
    for y in 0..height {
        for x in 0..width {
            data.extend_from_slice(&[x as u8, y as u8, tag, 255]);
        }
    }
    CpuImage { width, height, pixel_data: data }
}

fn textures() -> TextureManager {
    let clear = |w, h| CpuImage::filled(w, h, Color::new(0, 0, 0, 0));
    TextureManager::new(vec![
        WallLayers { tag: '-', base: gradient(8, 8, 1), overlay: clear(8, 8) },
        WallLayers { tag: '|', base: gradient(4, 16, 2), overlay: clear(4, 16) },
    ])
    .unwrap()
}

fn slice(wall_type: char, texture_x: u32, top: i32, bottom: i32, depth: u32) -> WallSlice {
    WallSlice { wall_type, texture_x, top, bottom, depth }
}

#[test]
fn texture_rows_are_mapped_linearly() {
    // 8 texture rows over a strip that spans 16 screen rows
    assert_eq!(texel_row(0, 16, 8), 0);
    assert_eq!(texel_row(1, 16, 8), 0);
    assert_eq!(texel_row(2, 16, 8), 1);
    assert_eq!(texel_row(15, 16, 8), 7);
    assert_eq!(texel_row(16, 16, 8), 7);
    // 256 texture rows over 100 screen rows: 37 * 256 / 100 = 94
    assert_eq!(texel_row(37, 100, 256), 94);
    assert_eq!(texel_row(99, 100, 256), 253);
    assert_eq!(texel_row(100, 100, 256), 255);
}

#[test]
fn texture_rows_stay_inside_the_texture() {
    assert_eq!(texel_row(5, 0, 8), 7);
    assert_eq!(texel_row(0, 0, 8), 0);
    assert_eq!(texel_row(3, 1, 2), 1);
    assert_eq!(texel_row(7, 9, 0), 0);
    assert_eq!(texel_row(u32::MAX, 1, u32::MAX), u32::MAX - 1);
    assert_eq!(texel_row(u32::MAX, u32::MAX, u32::MAX), u32::MAX - 1);
}

#[test]
fn backdrop_is_sky_above_and_floor_below() {
    let mut fb = Framebuffer::new(3, 8);
    draw_backdrop(&mut fb);
    for x in 0..3 {
        assert_eq!(fb.get_pixel(x, 0), Some(Color::new(179, 229, 252, 255)));
        // row 2 of 4: (179 * 2 + 224 * 2) / 4 = 201, (229 * 2 + 247 * 2) / 4 = 238, (252 * 2 + 250 * 2) / 4 = 251
        assert_eq!(fb.get_pixel(x, 2), Some(Color::new(201, 238, 251, 255)));
        // row 3 of 4: (179 + 224 * 3) / 4 = 212, (229 + 247 * 3) / 4 = 242, (252 + 250 * 3) / 4 = 250
        assert_eq!(fb.get_pixel(x, 3), Some(Color::new(212, 242, 250, 255)));
        for y in 4..8 {
            assert_eq!(fb.get_pixel(x, y), Some(FLOOR));
        }
    }
    assert_eq!(fb.current_color(), Color::white());
}

#[test]
fn backdrop_leaves_the_odd_last_row() {
    let mut fb = Framebuffer::new(2, 5);
    fb.set_background_color(Color::new(50, 50, 100, 255));
    fb.clear();
    draw_backdrop(&mut fb);
    assert_eq!(fb.get_pixel(0, 1), Some(Color::new(201, 238, 251, 255)));
    assert_eq!(fb.get_pixel(0, 2), Some(FLOOR));
    assert_eq!(fb.get_pixel(0, 3), Some(FLOOR));
    assert_eq!(fb.get_pixel(1, 4), Some(Color::new(50, 50, 100, 255)));
    let mut one = Framebuffer::new(2, 1);
    draw_backdrop(&mut one);
    assert_eq!(one.get_pixel(0, 0), Some(Color::black()));
}

#[test]
fn a_slice_is_textured_from_top_to_bottom() {
    let mut fb = Framebuffer::new(4, 20);
    let mut tex = textures();
    draw_wall_slice(&mut fb, &mut tex, 2, &slice('-', 5, 2, 18, 0));
    for y in 0..20u32 {
        for x in 0..4 {
            let want = if x == 2 && (2..=18).contains(&y) {
                // offset * 8 / 16, kept below 8
                let row = ((y - 2) * 8 / 16).min(7) as u8;
                Color::new(5, row, 1, 255)
            } else {
                Color::black()
            };
            assert_eq!(fb.get_pixel(x, y), Some(want));
        }
    }
}

#[test]
fn a_slice_is_clipped_to_the_screen() {
    let mut fb = Framebuffer::new(2, 10);
    let mut tex = textures();
    draw_wall_slice(&mut fb, &mut tex, 0, &slice('|', 1, -30, 40, 0));
    for y in 0..10u32 {
        // the clipped strip spans rows 0..=9: offset y, span 9, 16 texture rows
        let row = (y * 16 / 9).min(15) as u8;
        assert_eq!(fb.get_pixel(0, y), Some(Color::new(1, row, 2, 255)));
        assert_eq!(fb.get_pixel(1, y), Some(Color::black()));
    }
}

#[test]
fn slices_off_the_screen_paint_nothing() {
    let mut fb = Framebuffer::new(2, 4);
    let mut tex = textures();
    draw_wall_slice(&mut fb, &mut tex, 0, &slice('-', 0, -9, -1, 0));
    draw_wall_slice(&mut fb, &mut tex, 0, &slice('-', 0, 4, 9, 0));
    draw_wall_slice(&mut fb, &mut tex, 0, &slice('-', 0, 3, 1, 0));
    draw_wall_slice(&mut fb, &mut tex, 2, &slice('-', 0, 0, 3, 0));
    draw_wall_slice(&mut fb, &mut tex, 0, &slice('-', 0, i32::MIN, i32::MIN, 0));
    draw_wall_slice(&mut fb, &mut tex, 0, &slice('-', 0, i32::MAX, i32::MAX, 0));
    for y in 0..4 {
        for x in 0..2 {
            assert_eq!(fb.get_pixel(x, y), Some(Color::black()));
        }
    }
}

#[test]
fn a_single_row_slice() {
    let mut fb = Framebuffer::new(1, 4);
    let mut tex = textures();
    draw_wall_slice(&mut fb, &mut tex, 0, &slice('-', 3, 2, 2, 0));
    assert_eq!(fb.get_pixel(0, 1), Some(Color::black()));
    assert_eq!(fb.get_pixel(0, 2), Some(Color::new(3, 0, 1, 255)));
    assert_eq!(fb.get_pixel(0, 3), Some(Color::black()));
}

#[test]
fn an_unknown_material_is_painted_with_the_fallback() {
    let mut fb = Framebuffer::new(1, 8);
    let mut tex = textures();
    draw_wall_slice(&mut fb, &mut tex, 0, &slice('?', 6, 0, 7, 0));
    for y in 0..8u32 {
        // span 7, 8 texture rows of the '-' texture
        let row = (y * 8 / 7).min(7) as u8;
        assert_eq!(fb.get_pixel(0, y), Some(Color::new(6, row, 1, 255)));
    }
    let mut bare = TextureManager::new(Vec::new()).unwrap();
    draw_wall_slice(&mut fb, &mut bare, 0, &slice('?', 6, 0, 7, 0));
    for y in 0..8 {
        assert_eq!(fb.get_pixel(0, y), Some(Color::white()));
    }
}

#[test]
fn the_texture_column_is_clamped() {
    let mut fb = Framebuffer::new(1, 1);
    let mut tex = textures();
    draw_wall_slice(&mut fb, &mut tex, 0, &slice('|', 99, 0, 0, 0));
    assert_eq!(fb.get_pixel(0, 0), Some(Color::new(3, 0, 2, 255)));
}

#[test]
fn the_wall_pass_paints_backdrop_and_walls_and_records_depths() {
    let mut fb = Framebuffer::new(4, 8);
    let mut tex = textures();
    let slices = vec![slice('-', 0, 2, 5, 700), slice('|', 1, -4, 11, 350), slice('-', 7, 9, 12, 50)];
    let depth = render_world(&mut fb, &mut tex, &slices);
    assert_eq!(depth, vec![700, 350, 50, FAR]);
    assert_eq!(FAR, u32::MAX);
    for y in 0..8u32 {
        let backdrop = if y < 4 {
            Color::new(
                ((179 * (4 - y) + 224 * y) / 4) as u8,
                ((229 * (4 - y) + 247 * y) / 4) as u8,
                ((252 * (4 - y) + 250 * y) / 4) as u8,
                255,
            )
        } else {
            FLOOR
        };
        let first = if (2..=5).contains(&y) { Color::new(0, ((y - 2) * 8 / 3).min(7) as u8, 1, 255) } else { backdrop };
        assert_eq!(fb.get_pixel(0, y), Some(first));
        assert_eq!(fb.get_pixel(1, y), Some(Color::new(1, (y * 16 / 7).min(15) as u8, 2, 255)));
        assert_eq!(fb.get_pixel(2, y), Some(backdrop));
        assert_eq!(fb.get_pixel(3, y), Some(backdrop));
    }
    assert_eq!(fb.current_color(), Color::white());
}

#[test]
fn slices_beyond_the_screen_are_ignored() {
    let mut fb = Framebuffer::new(1, 2);
    let mut tex = textures();
    let depth = render_world(&mut fb, &mut tex, &vec![slice('-', 0, 0, 1, 5), slice('-', 0, 0, 1, 6)]);
    assert_eq!(depth, vec![5]);
    let mut none = Framebuffer::new(0, 2);
    assert_eq!(render_world(&mut none, &mut tex, &vec![slice('-', 0, 0, 1, 5)]), Vec::<u32>::new());
}
