//! The wall pass of a frame: the backdrop of sky and floor, one textured
//! vertical slice per screen column, and the depth buffer that the sprite
//! pass reads.

use vstd::prelude::*;
use crate::color::{lerp_channel, lerp_channel_spec, Color};
use crate::framebuffer::{lemma_put_at, lemma_put_frame, FrameView, Framebuffer};
use crate::textures::{texture_size, wall_texel, TextureManager};
use crate::bitmap::ImageView;

verus! {

/// Depth of a screen column in which no wall was drawn: farther than
/// anything.
pub const FAR: u32 = 0xffff_ffff;

/// What the wall pass needs to know of one screen column: the wall that
/// the column's ray hit, the texture column to paint it with, the rows
/// between which the slice extends before clipping, and the distance to
/// the wall along the viewing axis, in the caller's depth unit.
#[derive(Clone, Copy, Debug, PartialEq, Eq, Structural)]
pub struct WallSlice {
    pub wall_type: char,
    pub texture_x: u32,
    /// First row of the slice; may lie above the screen.
    pub top: i32,
    /// Last row of the slice; may lie below the screen.
    pub bottom: i32,
    pub depth: u32,
}

/// The texture row for a screen row: row `offset` of a strip that spans
/// `span` rows is mapped linearly onto the `rows` rows of a texture,
/// rounded down and kept below `rows`. A strip without extent counts as
/// one row high.
pub open spec fn texel_row_spec(offset: int, span: int, rows: int) -> int {
    let s = if span < 1 {
        1
    } else {
        span
    };
    let v = offset * rows / s;
    if rows <= 0 {
        0
    } else if v > rows - 1 {
        rows - 1
    } else {
        v
    }
}

/// First screen row of a strip that starts at `top`.
pub open spec fn first_row(top: int) -> int {
    if top > 0 {
        top
    } else {
        0
    }
}

/// Last screen row of a strip that ends at `bottom`, on a screen of
/// `height` rows.
pub open spec fn last_row(bottom: int, height: int) -> int {
    if bottom < height - 1 {
        bottom
    } else {
        height - 1
    }
}

/// The colour that a slice gives to row `y` of its column on a screen of
/// `height` rows, if it covers that row.
pub open spec fn wall_pixel(
    textures: Map<char, ImageView>,
    slice: WallSlice,
    height: int,
    y: int,
) -> Option<Color> {
    let y_start = first_row(slice.top as int);
    let y_end = last_row(slice.bottom as int, height);
    if y_start <= y <= y_end {
        Some(
            wall_texel(
                textures,
                slice.wall_type,
                slice.texture_x as int,
                texel_row_spec(
                    y - y_start,
                    y_end - y_start,
                    texture_size(textures, slice.wall_type).1 as int,
                ),
            ),
        )
    } else {
        None
    }
}

/// Colour of the sky in its first row.
pub open spec fn sky_top() -> Color {
    Color { r: 179, g: 229, b: 252, a: 255 }
}

/// Colour that the sky tends to at the horizon.
pub open spec fn sky_bottom() -> Color {
    Color { r: 224, g: 247, b: 250, a: 255 }
}

/// Colour of the floor.
pub open spec fn floor_color() -> Color {
    Color { r: 26, g: 120, b: 112, a: 255 }
}

/// Colour of row `y` of a sky that is `rows` rows high.
pub open spec fn sky_color(y: int, rows: int) -> Color {
    Color {
        r: lerp_channel_spec(sky_top().r, sky_bottom().r, y, rows) as u8,
        g: lerp_channel_spec(sky_top().g, sky_bottom().g, y, rows) as u8,
        b: lerp_channel_spec(sky_top().b, sky_bottom().b, y, rows) as u8,
        a: 255,
    }
}

/// The backdrop on a screen of `height` rows: the upper half is sky, shaded
/// from row to row, the lower half floor. With an odd height the last row
/// belongs to neither and keeps its colour.
pub open spec fn backdrop_pixel(height: int, y: int, under: Color) -> Color {
    let half = height / 2;
    if y < half {
        sky_color(y, half)
    } else if y < 2 * half {
        floor_color()
    } else {
        under
    }
}

/// The colour of a pixel after the wall pass over `slices`, one slice per
/// screen column from the left: the wall where the column's slice covers
/// the row, the backdrop elsewhere.
pub open spec fn world_pixel(
    textures: Map<char, ImageView>,
    slices: Seq<WallSlice>,
    height: int,
    x: int,
    y: int,
    under: Color,
) -> Color {
    if 0 <= x < slices.len() && wall_pixel(textures, slices[x], height, y) is Some {
        wall_pixel(textures, slices[x], height, y)->0
    } else {
        backdrop_pixel(height, y, under)
    }
}

/// The depth buffer after the wall pass: the depth of each column's slice,
/// `FAR` for a column without one.
pub open spec fn depth_spec(slices: Seq<WallSlice>, width: nat) -> Seq<u32> {
    Seq::new(
        width,
        |x: int|
            if x < slices.len() {
                slices[x].depth
            } else {
                FAR
            },
    )
}

/// Whether `after` is `before` with other pixels: same size, pen and
/// background.
pub open spec fn same_frame(before: FrameView, after: FrameView) -> bool {
    &&& after.wf()
    &&& after == (FrameView { pixels: after.pixels, ..before })
}

/// Maps a row of a strip to a row of a texture.
pub fn texel_row(offset: u32, span: u32, rows: u32) -> (row: u32)
    ensures
        row == texel_row_spec(offset as int, span as int, rows as int),
{
    if rows == 0 {
        return 0;
    }
    let s: u64 = if span < 1 {
        1
    } else {
        span as u64
    };
    proof {
        assert(0 <= offset as int * rows as int <= 0xffff_ffff * 0xffff_ffff) by (nonlinear_arith)
            requires
                0 <= offset <= 0xffff_ffff,
                0 <= rows <= 0xffff_ffff,
        ;
    }
    let v: u64 = offset as u64 * rows as u64 / s;
    if v > (rows - 1) as u64 {
        rows - 1
    } else {
        v as u32
    }
}

/// Paints one row of the screen in one colour.
fn paint_row(framebuffer: &mut Framebuffer, y: u32, color: Color)
    ensures
        same_frame(old(framebuffer)@, final(framebuffer)@),
        forall|px: int, py: int|
            old(framebuffer)@.holds(px, py) ==> #[trigger] final(framebuffer)@.at(px, py) == if py
                == y {
                color
            } else {
                old(framebuffer)@.at(px, py)
            },
{
    let width = framebuffer.width();
    let ghost start = framebuffer@;
    let mut x: u32 = 0;
    while x < width
        invariant
            x <= width,
            width == start.width,
            start.wf(),
            same_frame(start, framebuffer@),
            forall|px: int, py: int|
                start.holds(px, py) ==> #[trigger] framebuffer@.at(px, py) == if py == y && px < x {
                    color
                } else {
                    start.at(px, py)
                },
        decreases width - x,
    {
        let ghost before = framebuffer@;
        framebuffer.put_pixel(x, y, color);
        proof {
            lemma_put_frame(before, x as int, y as int, color);
            assert forall|px: int, py: int| start.holds(px, py) implies #[trigger] framebuffer@.at(
                px,
                py,
            ) == if py == y && px < x + 1 {
                color
            } else {
                start.at(px, py)
            } by {
                lemma_put_at(before, x as int, y as int, color, px, py);
                assert(before.at(px, py) == if py == y && px < x {
                    color
                } else {
                    start.at(px, py)
                });
            }
        }
        x += 1;
    }
}

/// The colour of one row of the sky.
fn sky_row_color(y: u32, rows: u32) -> (c: Color)
    ensures
        c == sky_color(y as int, rows as int),
{
    Color {
        r: lerp_channel(179, 224, y, rows),
        g: lerp_channel(229, 247, y, rows),
        b: lerp_channel(252, 250, y, rows),
        a: 255,
    }
}

/// Paints sky over the upper half of the screen and floor over the lower
/// half.
pub fn draw_backdrop(framebuffer: &mut Framebuffer)
    ensures
        same_frame(old(framebuffer)@, final(framebuffer)@),
        forall|px: int, py: int|
            old(framebuffer)@.holds(px, py) ==> #[trigger] final(framebuffer)@.at(px, py)
                == backdrop_pixel(
                old(framebuffer)@.height as int,
                py,
                old(framebuffer)@.at(px, py),
            ),
{
    let height = framebuffer.height();
    let half: u32 = height / 2;
    let ghost start = framebuffer@;
    let mut y: u32 = 0;
    while y < half
        invariant
            y <= half,
            half == height / 2,
            height == start.height,
            start.wf(),
            same_frame(start, framebuffer@),
            forall|px: int, py: int|
                start.holds(px, py) ==> #[trigger] framebuffer@.at(px, py) == if py < y {
                    sky_color(py, half as int)
                } else {
                    start.at(px, py)
                },
        decreases half - y,
    {
        let c = sky_row_color(y, half);
        paint_row(framebuffer, y, c);
        y += 1;
    }
    let mut y: u32 = half;
    while y < half * 2
        invariant
            half <= y <= half * 2,
            half == height / 2,
            height == start.height,
            start.wf(),
            same_frame(start, framebuffer@),
            forall|px: int, py: int|
                start.holds(px, py) ==> #[trigger] framebuffer@.at(px, py) == if py < half {
                    sky_color(py, half as int)
                } else if py < y {
                    floor_color()
                } else {
                    start.at(px, py)
                },
        decreases half * 2 - y,
    {
        paint_row(framebuffer, y, Color { r: 26, g: 120, b: 112, a: 255 });
        y += 1;
    }
}

/// Paints the slice of one screen column: every row that the slice covers
/// on the screen gets the texel of the wall's texture that the row maps
/// to. Nothing else changes.
pub fn draw_wall_slice(
    framebuffer: &mut Framebuffer,
    textures: &mut TextureManager,
    column: u32,
    slice: &WallSlice,
)
    ensures
        final(textures).textures() == old(textures).textures(),
        same_frame(old(framebuffer)@, final(framebuffer)@),
        forall|px: int, py: int|
            old(framebuffer)@.holds(px, py) ==> #[trigger] final(framebuffer)@.at(px, py) == if px
                == column && wall_pixel(
                old(textures).textures(),
                *slice,
                old(framebuffer)@.height as int,
                py,
            ) is Some {
                wall_pixel(
                    old(textures).textures(),
                    *slice,
                    old(framebuffer)@.height as int,
                    py,
                )->0
            } else {
                old(framebuffer)@.at(px, py)
            },
{
    let height = framebuffer.height();
    let ghost start = framebuffer@;
    let ghost tex = textures.textures();
    let y_start: i64 = if slice.top > 0 {
        slice.top as i64
    } else {
        0
    };
    let y_end: i64 = if (slice.bottom as i64) < height as i64 - 1 {
        slice.bottom as i64
    } else {
        height as i64 - 1
    };
    let size = textures.get_image_size(slice.wall_type);
    let span: u32 = if y_end > y_start {
        (y_end - y_start) as u32
    } else {
        0
    };
    let mut y: i64 = y_start;
    while y <= y_end
        invariant
            0 <= y_start <= y,
            y <= y_end + 1 || y_end < y_start,
            y_end < height,
            height == start.height,
            y_start == first_row(slice.top as int),
            y_end == last_row(slice.bottom as int, height as int),
            span == if y_end > y_start {
                y_end - y_start
            } else {
                0
            },
            size.1 as nat == texture_size(tex, slice.wall_type).1,
            textures.textures() == tex,
            start.wf(),
            same_frame(start, framebuffer@),
            forall|px: int, py: int|
                start.holds(px, py) ==> #[trigger] framebuffer@.at(px, py) == if px == column
                    && py < y && wall_pixel(tex, *slice, height as int, py) is Some {
                    wall_pixel(tex, *slice, height as int, py)->0
                } else {
                    start.at(px, py)
                },
        decreases y_end + 1 - y,
    {
        let row = texel_row((y - y_start) as u32, span, size.1);
        let c = textures.get_pixel_color_mut(slice.wall_type, slice.texture_x, row);
        let ghost before = framebuffer@;
        framebuffer.put_pixel(column, y as u32, c);
        proof {
            lemma_put_frame(before, column as int, y as int, c);
            assert(wall_pixel(tex, *slice, height as int, y as int) == Some(c));
            assert forall|px: int, py: int| start.holds(px, py) implies #[trigger] framebuffer@.at(
                px,
                py,
            ) == if px == column && py < y + 1 && wall_pixel(tex, *slice, height as int, py)
                is Some {
                wall_pixel(tex, *slice, height as int, py)->0
            } else {
                start.at(px, py)
            } by {
                lemma_put_at(before, column as int, y as int, c, px, py);
                assert(before.at(px, py) == if px == column && py < y && wall_pixel(
                    tex,
                    *slice,
                    height as int,
                    py,
                ) is Some {
                    wall_pixel(tex, *slice, height as int, py)->0
                } else {
                    start.at(px, py)
                });
            }
        }
        y += 1;
    }
}

/// The wall pass: paints the backdrop, then the slice of every screen
/// column, and returns the depth buffer, one entry per screen column.
/// `slices[x]` belongs to column `x`; slices beyond the right edge of the
/// screen are ignored.
pub fn render_world(
    framebuffer: &mut Framebuffer,
    textures: &mut TextureManager,
    slices: &Vec<WallSlice>,
) -> (depth_buffer: Vec<u32>)
    ensures
        final(textures).textures() == old(textures).textures(),
        same_frame(old(framebuffer)@, final(framebuffer)@),
        forall|px: int, py: int|
            old(framebuffer)@.holds(px, py) ==> #[trigger] final(framebuffer)@.at(px, py)
                == world_pixel(
                old(textures).textures(),
                slices@,
                old(framebuffer)@.height as int,
                px,
                py,
                old(framebuffer)@.at(px, py),
            ),
        depth_buffer@ == depth_spec(slices@, old(framebuffer)@.width),
{
    let ghost start = framebuffer@;
    let ghost tex = textures.textures();
    let width = framebuffer.width();
    let ghost height = start.height as int;
    draw_backdrop(framebuffer);
    let ghost backdrop = framebuffer@;
    let mut depth_buffer: Vec<u32> = Vec::new();
    let mut x: u32 = 0;
    while x < width
        invariant
            x <= width,
            width == start.width,
            height == start.height,
            start.wf(),
            textures.textures() == tex,
            same_frame(start, framebuffer@),
            depth_buffer@.len() == x,
            forall|i: int|
                0 <= i < x ==> depth_buffer@[i] == if i < slices@.len() {
                    slices@[i].depth
                } else {
                    FAR
                },
            forall|px: int, py: int|
                start.holds(px, py) ==> #[trigger] framebuffer@.at(px, py) == if px < x {
                    world_pixel(tex, slices@, height, px, py, start.at(px, py))
                } else {
                    backdrop_pixel(height, py, start.at(px, py))
                },
        decreases width - x,
    {
        if (x as usize) < slices.len() {
            let slice = slices[x as usize];
            draw_wall_slice(framebuffer, textures, x, &slice);
            depth_buffer.push(slice.depth);
        } else {
            depth_buffer.push(FAR);
        }
        x += 1;
    }
    proof {
        assert(depth_buffer@ =~= depth_spec(slices@, start.width));
    }
    depth_buffer
}

} // verus!
