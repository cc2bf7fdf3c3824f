//! The sprite pass of a frame: billboards, already projected onto the
//! screen, are painted far to near over the walls, column by column, and
//! only where no wall is nearer.

use vstd::prelude::*;
use crate::bitmap::ImageView;
use crate::color::{is_transparent_spec, Color};
use crate::framebuffer::{lemma_put_at, lemma_put_frame, FrameView, Framebuffer};
use crate::painter::{lemma_painter_order, paint_order, painter_order};
use crate::sprites::{sprite_size, sprite_texel, SpriteManager};
use crate::walls::{first_row, last_row, same_frame, texel_row, texel_row_spec};

verus! {

/// A sprite as it appears on the screen.
///
/// Distances are whole numbers of a depth unit that the caller fixes; the
/// depth buffer and the tolerance of the sprite pass are in the same unit.
#[derive(Debug)]
pub struct Billboard {
    pub sprite_type: char,
    /// Distance from the viewer; the farther sprite is painted first.
    pub distance: u32,
    /// Distance along the viewing axis, compared with the depth buffer.
    pub depth: u32,
    /// The leftmost screen column of the billboard.
    pub first_column: u32,
    /// For each screen column from `first_column` on, the texture column
    /// to paint it with; `None` for a screen column to leave out.
    pub columns: Vec<Option<u32>>,
    /// First row of the billboard; may lie above the screen.
    pub top: i32,
    /// Last row of the billboard; may lie below the screen.
    pub bottom: i32,
}

/// Whether a sprite type has a texture to paint with: one with at least
/// one column and one row, and neither beyond the signed 32-bit range.
pub open spec fn paintable(textures: Map<char, ImageView>, sprite_type: char) -> bool {
    let size = sprite_size(textures, sprite_type);
    0 < size.0 <= i32::MAX && 0 < size.1 <= i32::MAX
}

/// Whether a wall hides a sprite in screen column `x`: the column has an
/// entry in the depth buffer, and the sprite is not nearer than the wall by
/// more than `epsilon`.
pub open spec fn occluded(depth: u32, depth_buffer: Seq<u32>, epsilon: u32, x: int) -> bool {
    0 <= x < depth_buffer.len() && depth + epsilon >= depth_buffer[x]
}

/// The texture column with which screen column `x` of a billboard is
/// painted; `None` if the billboard does not reach that column, leaves it
/// out or is hidden by a wall there.
pub open spec fn column_texture(b: Billboard, depth_buffer: Seq<u32>, epsilon: u32, x: int)
    -> Option<u32> {
    let k = x - b.first_column;
    if 0 <= k < b.columns@.len() && !occluded(b.depth, depth_buffer, epsilon, x) {
        b.columns@[k]
    } else {
        None
    }
}

/// The colour of row `y` in a screen column that is painted with texture
/// column `tx` of a sprite type, over the colour `under`. Rows outside the
/// billboard or off the screen keep their colour, and so do rows whose
/// texel is transparent.
pub open spec fn strip_pixel(
    textures: Map<char, ImageView>,
    sprite_type: char,
    tx: int,
    top: int,
    bottom: int,
    height: int,
    y: int,
    under: Color,
) -> Color {
    if first_row(top) <= y <= last_row(bottom, height) {
        let c = sprite_texel(
            textures,
            sprite_type,
            tx,
            texel_row_spec(y - top, bottom - top, sprite_size(textures, sprite_type).1 as int),
        );
        if is_transparent_spec(c) {
            under
        } else {
            c
        }
    } else {
        under
    }
}

/// The colour of the pixel `(x, y)` after painting one billboard over the
/// colour `under`.
pub open spec fn billboard_pixel(
    textures: Map<char, ImageView>,
    b: Billboard,
    depth_buffer: Seq<u32>,
    epsilon: u32,
    height: int,
    x: int,
    y: int,
    under: Color,
) -> Color {
    match column_texture(b, depth_buffer, epsilon, x) {
        Some(tx) => if paintable(textures, b.sprite_type) {
            strip_pixel(textures, b.sprite_type, tx as int, b.top as int, b.bottom as int, height, y, under)
        } else {
            under
        },
        None => under,
    }
}

/// The colour of the pixel `(x, y)` after painting the first `n`
/// billboards of a paint order, one over the other.
pub open spec fn painted(
    textures: Map<char, ImageView>,
    billboards: Seq<Billboard>,
    order: Seq<usize>,
    n: nat,
    depth_buffer: Seq<u32>,
    epsilon: u32,
    height: int,
    x: int,
    y: int,
    under: Color,
) -> Color
    decreases n,
{
    if n == 0 {
        under
    } else {
        billboard_pixel(
            textures,
            billboards[order[n - 1] as int],
            depth_buffer,
            epsilon,
            height,
            x,
            y,
            painted(
                textures,
                billboards,
                order,
                (n - 1) as nat,
                depth_buffer,
                epsilon,
                height,
                x,
                y,
                under,
            ),
        )
    }
}

/// The distances of a list of billboards.
pub open spec fn distances(billboards: Seq<Billboard>) -> Seq<u32> {
    Seq::new(billboards.len(), |i: int| billboards[i].distance)
}

/// A billboard does not change a screen column in which a wall is nearer,
/// equally far, or farther by less than the tolerance.
pub proof fn lemma_occluded_column_kept(
    textures: Map<char, ImageView>,
    b: Billboard,
    depth_buffer: Seq<u32>,
    epsilon: u32,
    height: int,
    x: int,
    y: int,
    under: Color,
)
    requires
        0 <= x < depth_buffer.len(),
        b.depth + epsilon >= depth_buffer[x],
    ensures
        billboard_pixel(textures, b, depth_buffer, epsilon, height, x, y, under) == under,
{
}

/// A screen column in which every billboard is farther than the wall stays
/// as the wall pass left it, whatever the paint order.
pub proof fn lemma_farther_sprites_hidden(
    textures: Map<char, ImageView>,
    billboards: Seq<Billboard>,
    order: Seq<usize>,
    n: nat,
    depth_buffer: Seq<u32>,
    epsilon: u32,
    height: int,
    x: int,
    y: int,
    under: Color,
)
    requires
        n <= order.len(),
        0 <= x < depth_buffer.len(),
        forall|k: int|
            0 <= k < n ==> (#[trigger] billboards[order[k] as int]).depth > depth_buffer[x],
    ensures
        painted(textures, billboards, order, n, depth_buffer, epsilon, height, x, y, under)
            == under,
    decreases n,
{
    if n > 0 {
        lemma_farther_sprites_hidden(
            textures,
            billboards,
            order,
            (n - 1) as nat,
            depth_buffer,
            epsilon,
            height,
            x,
            y,
            under,
        );
        assert(billboards[order[n - 1] as int].depth > depth_buffer[x]);
    }
}

/// The texel that a billboard shows at the pixel `(x, y)` when the column
/// is painted with texture column `tx`.
pub open spec fn billboard_texel(
    textures: Map<char, ImageView>,
    b: Billboard,
    tx: int,
    y: int,
) -> Color {
    sprite_texel(
        textures,
        b.sprite_type,
        tx,
        texel_row_spec(
            y - b.top,
            b.bottom - b.top,
            sprite_size(textures, b.sprite_type).1 as int,
        ),
    )
}

/// Of all billboards the nearest is painted last. So wherever the nearest
/// billboard has a texel that is not transparent, and no wall hides it,
/// that texel is what the frame shows, whatever the other billboards are.
pub proof fn lemma_nearest_sprite_shows(
    textures: Map<char, ImageView>,
    billboards: Seq<Billboard>,
    depth_buffer: Seq<u32>,
    epsilon: u32,
    height: int,
    x: int,
    y: int,
    under: Color,
)
    requires
        0 < billboards.len() <= usize::MAX,
    ensures
        ({
            let order = painter_order(distances(billboards), billboards.len());
            let nearest = billboards[order[billboards.len() - 1] as int];
            &&& forall|i: int|
                0 <= i < billboards.len() ==> nearest.distance <= (#[trigger] billboards[i]).distance
            &&& forall|tx: u32|
                column_texture(nearest, depth_buffer, epsilon, x) == Some(tx) && paintable(
                    textures,
                    nearest.sprite_type,
                ) && first_row(nearest.top as int) <= y <= last_row(nearest.bottom as int, height)
                    && !is_transparent_spec(
                    #[trigger] billboard_texel(textures, nearest, tx as int, y),
                ) ==> painted(
                    textures,
                    billboards,
                    order,
                    billboards.len(),
                    depth_buffer,
                    epsilon,
                    height,
                    x,
                    y,
                    under,
                ) == billboard_texel(textures, nearest, tx as int, y)
        }),
{
    let keys = distances(billboards);
    let n = billboards.len();
    let order = painter_order(keys, n);
    lemma_painter_order(keys, n);
    let last = order[n - 1];
    assert forall|i: int| 0 <= i < n implies billboards[last as int].distance <= (
    #[trigger] billboards[i]).distance by {
        assert(order.contains(i as usize));
        let p = choose|p: int| 0 <= p < order.len() && order[p] == i as usize;
        if p < n - 1 {
            assert(keys[order[p] as int] >= keys[order[n - 1] as int]);
        }
    }
}

/// Paints one screen column of a billboard with texture column `tx`.
fn paint_strip(
    framebuffer: &mut Framebuffer,
    sprite_manager: &SpriteManager,
    b: &Billboard,
    column: u32,
    tx: u32,
)
    ensures
        same_frame(old(framebuffer)@, final(framebuffer)@),
        forall|px: int, py: int|
            old(framebuffer)@.holds(px, py) ==> #[trigger] final(framebuffer)@.at(px, py) == if px
                == column {
                strip_pixel(
                    sprite_manager.textures(),
                    b.sprite_type,
                    tx as int,
                    b.top as int,
                    b.bottom as int,
                    old(framebuffer)@.height as int,
                    py,
                    old(framebuffer)@.at(px, py),
                )
            } else {
                old(framebuffer)@.at(px, py)
            },
{
    let height = framebuffer.height();
    let ghost start = framebuffer@;
    let ghost tex = sprite_manager.textures();
    let y_start: i64 = if b.top > 0 {
        b.top as i64
    } else {
        0
    };
    let y_end: i64 = if (b.bottom as i64) < height as i64 - 1 {
        b.bottom as i64
    } else {
        height as i64 - 1
    };
    let size = sprite_manager.get_size(b.sprite_type);
    let span: u32 = if b.bottom > b.top {
        (b.bottom as i64 - b.top as i64) as u32
    } else {
        0
    };
    let mut y: i64 = y_start;
    while y <= y_end
        invariant
            0 <= y_start <= y,
            y <= y_end + 1 || y_end < y_start,
            y_end < height,
            y_end <= b.bottom,
            b.top <= y_start,
            height == start.height,
            tex == sprite_manager.textures(),
            y_start == first_row(b.top as int),
            y_end == last_row(b.bottom as int, height as int),
            span == if b.bottom > b.top {
                b.bottom - b.top
            } else {
                0
            },
            size.1 as nat == sprite_size(tex, b.sprite_type).1,
            start.wf(),
            same_frame(start, framebuffer@),
            forall|px: int, py: int|
                start.holds(px, py) ==> #[trigger] framebuffer@.at(px, py) == if px == column
                    && py < y {
                    strip_pixel(
                        tex,
                        b.sprite_type,
                        tx as int,
                        b.top as int,
                        b.bottom as int,
                        height as int,
                        py,
                        start.at(px, py),
                    )
                } else {
                    start.at(px, py)
                },
        decreases y_end + 1 - y,
    {
        let row = texel_row((y - b.top as i64) as u32, span, size.1);
        let c = sprite_manager.sample(b.sprite_type, tx, row);
        let ghost before = framebuffer@;
        proof {
            assert(texel_row_spec(y - b.top, span as int, size.1 as int) == texel_row_spec(
                y - b.top,
                b.bottom - b.top,
                size.1 as int,
            ));
        }
        if !c.is_transparent() {
            framebuffer.put_pixel(column, y as u32, c);
        }
        proof {
            let painted_c = if is_transparent_spec(c) {
                before.at(column as int, y as int)
            } else {
                c
            };
            lemma_put_frame(before, column as int, y as int, c);
            assert forall|px: int, py: int| start.holds(px, py) implies #[trigger] framebuffer@.at(
                px,
                py,
            ) == if px == column && py < y + 1 {
                strip_pixel(
                    tex,
                    b.sprite_type,
                    tx as int,
                    b.top as int,
                    b.bottom as int,
                    height as int,
                    py,
                    start.at(px, py),
                )
            } else {
                start.at(px, py)
            } by {
                lemma_put_at(before, column as int, y as int, c, px, py);
                assert(before.at(px, py) == if px == column && py < y {
                    strip_pixel(
                        tex,
                        b.sprite_type,
                        tx as int,
                        b.top as int,
                        b.bottom as int,
                        height as int,
                        py,
                        start.at(px, py),
                    )
                } else {
                    start.at(px, py)
                });
            }
        }
        y += 1;
    }
}

/// Paints one billboard: every screen column that it covers and that no
/// wall hides, texel by texel, leaving transparent texels out.
pub fn paint_billboard(
    framebuffer: &mut Framebuffer,
    sprite_manager: &SpriteManager,
    b: &Billboard,
    depth_buffer: &Vec<u32>,
    epsilon: u32,
)
    ensures
        same_frame(old(framebuffer)@, final(framebuffer)@),
        forall|px: int, py: int|
            old(framebuffer)@.holds(px, py) ==> #[trigger] final(framebuffer)@.at(px, py)
                == billboard_pixel(
                sprite_manager.textures(),
                *b,
                depth_buffer@,
                epsilon,
                old(framebuffer)@.height as int,
                px,
                py,
                old(framebuffer)@.at(px, py),
            ),
{
    let width = framebuffer.width();
    let ghost start = framebuffer@;
    let ghost tex = sprite_manager.textures();
    let ghost height = start.height as int;
    let size = sprite_manager.get_size(b.sprite_type);
    if size.0 == 0 || size.1 == 0 || size.0 > 0x7fff_ffff || size.1 > 0x7fff_ffff {
        return ;
    }
    let room: u32 = if b.first_column < width {
        width - b.first_column
    } else {
        0
    };
    let limit: usize = if b.columns.len() < room as usize {
        b.columns.len()
    } else {
        room as usize
    };
    let mut k: usize = 0;
    while k < limit
        invariant
            k <= limit <= b.columns@.len(),
            limit <= room,
            room == if b.first_column < width {
                width - b.first_column
            } else {
                0
            },
            limit == b.columns@.len() || limit == room,
            width == start.width,
            height == start.height,
            tex == sprite_manager.textures(),
            paintable(tex, b.sprite_type),
            start.wf(),
            same_frame(start, framebuffer@),
            forall|px: int, py: int|
                start.holds(px, py) ==> #[trigger] framebuffer@.at(px, py) == if px
                    - b.first_column < k {
                    billboard_pixel(
                        tex,
                        *b,
                        depth_buffer@,
                        epsilon,
                        height,
                        px,
                        py,
                        start.at(px, py),
                    )
                } else {
                    start.at(px, py)
                },
        decreases b.columns@.len() - k,
    {
        let x: u32 = b.first_column + k as u32;
        let hidden = (x as usize) < depth_buffer.len() && b.depth as u64 + epsilon as u64
            >= depth_buffer[x as usize] as u64;
        proof {
            assert(hidden == occluded(b.depth, depth_buffer@, epsilon, x as int));
        }
        if !hidden {
            match b.columns[k] {
                Some(tx) => {
                    paint_strip(framebuffer, sprite_manager, b, x, tx);
                },
                None => {},
            }
        }
        k += 1;
    }
}

/// The sprite pass: paints the billboards over the frame, the farthest
/// first, so that of two billboards on one pixel the nearer one shows. A
/// billboard is left out of every screen column in which the depth buffer
/// holds a wall that is not farther than the billboard by more than
/// `epsilon`. The depth buffer is only read.
pub fn render_sprites(
    framebuffer: &mut Framebuffer,
    billboards: &Vec<Billboard>,
    sprite_manager: &SpriteManager,
    depth_buffer: &Vec<u32>,
    epsilon: u32,
)
    ensures
        same_frame(old(framebuffer)@, final(framebuffer)@),
        forall|px: int, py: int|
            old(framebuffer)@.holds(px, py) ==> #[trigger] final(framebuffer)@.at(px, py)
                == painted(
                sprite_manager.textures(),
                billboards@,
                painter_order(distances(billboards@), billboards@.len()),
                billboards@.len(),
                depth_buffer@,
                epsilon,
                old(framebuffer)@.height as int,
                px,
                py,
                old(framebuffer)@.at(px, py),
            ),
{
    if framebuffer.width() == 0 || billboards.len() == 0 {
        return ;
    }
    let ghost start = framebuffer@;
    let ghost tex = sprite_manager.textures();
    let ghost height = start.height as int;
    let mut keys: Vec<u32> = Vec::new();
    let mut i: usize = 0;
    while i < billboards.len()
        invariant
            i <= billboards.len(),
            keys@.len() == i,
            forall|j: int| 0 <= j < i ==> keys@[j] == billboards@[j].distance,
        decreases billboards.len() - i,
    {
        keys.push(billboards[i].distance);
        i += 1;
    }
    proof {
        assert(keys@ =~= distances(billboards@));
    }
    let order = paint_order(&keys);
    proof {
        lemma_painter_order(keys@, keys@.len());
    }
    let mut n: usize = 0;
    while n < order.len()
        invariant
            n <= order.len(),
            order@ == painter_order(distances(billboards@), billboards@.len()),
            order@.len() == billboards@.len(),
            forall|p: int| 0 <= p < order@.len() ==> (#[trigger] order@[p]) < billboards@.len(),
            height == start.height,
            tex == sprite_manager.textures(),
            start.wf(),
            same_frame(start, framebuffer@),
            forall|px: int, py: int|
                start.holds(px, py) ==> #[trigger] framebuffer@.at(px, py) == painted(
                    tex,
                    billboards@,
                    order@,
                    n as nat,
                    depth_buffer@,
                    epsilon,
                    height,
                    px,
                    py,
                    start.at(px, py),
                ),
        decreases order.len() - n,
    {
        paint_billboard(framebuffer, sprite_manager, &billboards[order[n]], depth_buffer, epsilon);
        n += 1;
    }
}

} // verus!
