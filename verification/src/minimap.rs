//! The small map of the maze that is drawn over a corner of the frame.

use vstd::prelude::*;
use crate::color::Color;
use crate::framebuffer::{FrameView, Framebuffer};
use crate::hud::in_i32;
use crate::maze::{grid, lemma_grid_index, Maze};
use crate::sprites::{Sprite, COIN};

verus! {

/// A buffer with another pen colour.
pub open spec fn pen(v: FrameView, color: Color) -> FrameView {
    FrameView { current: color, ..v }
}

/// Colour of the map's ground.
pub open spec fn ground_color() -> Color {
    Color { r: 60, g: 190, b: 180, a: 230 }
}

/// Colour of the map's border.
pub open spec fn border_color() -> Color {
    Color { r: 24, g: 32, b: 56, a: 255 }
}

/// Colour of a coin on the map.
pub open spec fn coin_color() -> Color {
    Color { r: 255, g: 203, b: 0, a: 255 }
}

/// The colour in which a cell is drawn on the map.
pub open spec fn cell_color(cell: char) -> Color {
    if cell == '+' {
        Color { r: 90, g: 140, b: 255, a: 255 }
    } else if cell == '-' {
        Color { r: 0, g: 218, b: 209, a: 255 }
    } else if cell == '|' {
        Color { r: 255, g: 120, b: 190, a: 255 }
    } else if cell == 'g' {
        Color { r: 255, g: 219, b: 88, a: 255 }
    } else {
        Color { r: 200, g: 200, b: 200, a: 255 }
    }
}

/// Edge length of the square drawn for a cell of pitch `side`: one pixel
/// is left free on each side, and at least one pixel is drawn.
pub open spec fn inner(side: int) -> int {
    if side - 2 > 1 {
        side - 2
    } else {
        1
    }
}

/// The map position of a world coordinate: scaled from the cell pitch
/// `block_size` to the map's cell pitch `mini`, rounded down.
pub open spec fn marker(world: int, block_size: int, mini: int) -> int {
    world * mini / block_size
}

/// A buffer after one cell is drawn whose corner is `(xo, yo)` away from
/// the map's origin. An empty cell is not drawn.
pub open spec fn cell_drawn(
    v: FrameView,
    ox: int,
    oy: int,
    xo: int,
    yo: int,
    side: int,
    cell: char,
) -> FrameView {
    if cell == ' ' {
        v
    } else {
        pen(v, cell_color(cell)).fill(ox + xo + 1, oy + yo + 1, inner(side), inner(side))
    }
}

/// A buffer after the first `upto` cells of row number `y` are drawn.
pub open spec fn row_drawn(
    v: FrameView,
    ox: int,
    oy: int,
    mini: int,
    row: Seq<char>,
    y: int,
    upto: nat,
) -> FrameView
    decreases upto,
{
    if upto == 0 {
        v
    } else {
        cell_drawn(
            row_drawn(v, ox, oy, mini, row, y, (upto - 1) as nat),
            ox,
            oy,
            (upto - 1) * mini,
            y * mini,
            mini,
            row[upto - 1],
        )
    }
}

/// A buffer after the first `rows` rows of the grid are drawn.
pub open spec fn cells_drawn(
    v: FrameView,
    ox: int,
    oy: int,
    mini: int,
    g: Seq<Seq<char>>,
    rows: nat,
) -> FrameView
    decreases rows,
{
    if rows == 0 {
        v
    } else {
        row_drawn(
            cells_drawn(v, ox, oy, mini, g, (rows - 1) as nat),
            ox,
            oy,
            mini,
            g[rows - 1],
            rows - 1,
            g[rows - 1].len(),
        )
    }
}

/// A buffer after the active coins among the first `n` sprites are
/// marked, each with a square of four by four pixels.
pub open spec fn coins_marked(
    v: FrameView,
    ox: int,
    oy: int,
    mini: int,
    block_size: int,
    sprites: Seq<Sprite>,
    n: nat,
) -> FrameView
    decreases n,
{
    if n == 0 {
        v
    } else {
        let before = coins_marked(v, ox, oy, mini, block_size, sprites, (n - 1) as nat);
        let s = sprites[n - 1];
        if s.is_active && s.sprite_type == COIN {
            pen(before, coin_color()).fill(
                ox + marker(s.world_x as int, block_size, mini) - 2,
                oy + marker(s.world_y as int, block_size, mini) - 2,
                4,
                4,
            )
        } else {
            before
        }
    }
}

/// A buffer after the ground of the map and its border are drawn, for a
/// map of `mw` by `mh` pixels.
pub open spec fn ground_drawn(v: FrameView, ox: int, oy: int, mw: int, mh: int) -> FrameView {
    pen(pen(v, ground_color()).fill(ox, oy, mw, mh), border_color()).fill(
        ox - 1,
        oy - 1,
        mw + 2,
        1,
    ).fill(ox - 1, oy + mh, mw + 2, 1).fill(ox - 1, oy - 1, 1, mh + 2).fill(
        ox + mw,
        oy - 1,
        1,
        mh + 2,
    )
}

/// The whole map: ground and border, the cells, the coins, and the viewer
/// as a black square of five by five pixels around `player`, which is
/// given relative to the map's origin.
pub open spec fn minimap_spec(
    v: FrameView,
    g: Seq<Seq<char>>,
    block_size: int,
    mini: int,
    origin: (i32, i32),
    sprites: Seq<Sprite>,
    player: (i32, i32),
) -> FrameView {
    let ox = origin.0 as int;
    let oy = origin.1 as int;
    let ground = ground_drawn(v, ox, oy, g[0].len() * mini, g.len() * mini);
    let cells = cells_drawn(ground, ox, oy, mini, g, g.len());
    let coins = coins_marked(cells, ox, oy, mini, block_size, sprites, sprites.len());
    pen(coins, Color::black()).fill(ox + player.0 - 2, oy + player.1 - 2, 5, 5)
}

/// Whether one cell can be drawn with 32-bit coordinates.
pub open spec fn cell_fits(ox: int, oy: int, xo: int, yo: int, side: int) -> bool {
    in_i32(xo) && in_i32(yo) && in_i32(side) && in_i32(ox + xo + 1) && in_i32(oy + yo + 1)
}

/// Whether the cell in column `x` of row `y` can be drawn with 32-bit
/// coordinates at a map pitch of `mini`.
pub open spec fn grid_cell_fits(ox: int, oy: int, mini: int, x: int, y: int) -> bool {
    cell_fits(ox, oy, x * mini, y * mini, mini)
}

/// Whether the whole map can be drawn with 32-bit coordinates.
pub open spec fn minimap_fits(
    g: Seq<Seq<char>>,
    block_size: int,
    mini: int,
    origin: (i32, i32),
    sprites: Seq<Sprite>,
    player: (i32, i32),
) -> bool {
    let ox = origin.0 as int;
    let oy = origin.1 as int;
    let mw = g[0].len() * mini;
    let mh = g.len() * mini;
    &&& in_i32(mw + 2) && in_i32(mh + 2)
    &&& in_i32(ox - 1) && in_i32(oy - 1) && in_i32(ox + mw) && in_i32(oy + mh)
    &&& forall|x: int, y: int|
        0 <= y < g.len() && 0 <= x < g[y].len() ==> #[trigger] grid_cell_fits(ox, oy, mini, x, y)
    &&& forall|k: int|
        0 <= k < sprites.len() && (#[trigger] sprites[k]).is_active && sprites[k].sprite_type
            == COIN ==> in_i32(ox + marker(sprites[k].world_x as int, block_size, mini) - 2)
            && in_i32(oy + marker(sprites[k].world_y as int, block_size, mini) - 2)
    &&& in_i32(ox + player.0 - 2) && in_i32(oy + player.1 - 2)
}

/// Tells the colour in which a cell is drawn on the map.
pub fn cell_to_color(cell: char) -> (c: Color)
    ensures
        c == cell_color(cell),
{
    if cell == '+' {
        Color { r: 90, g: 140, b: 255, a: 255 }
    } else if cell == '-' {
        Color { r: 0, g: 218, b: 209, a: 255 }
    } else if cell == '|' {
        Color { r: 255, g: 120, b: 190, a: 255 }
    } else if cell == 'g' {
        Color { r: 255, g: 219, b: 88, a: 255 }
    } else {
        Color { r: 200, g: 200, b: 200, a: 255 }
    }
}

/// Draws one cell of the map: a square in the cell's colour, one pixel
/// smaller on each side than the cell. `(ox, oy)` is the origin of the
/// map, `(xo, yo)` the cell's corner relative to it. Empty cells are
/// skipped.
pub fn draw_cell_at(
    framebuffer: &mut Framebuffer,
    ox: i32,
    oy: i32,
    xo: usize,
    yo: usize,
    block_size: usize,
    cell: char,
)
    requires
        cell_fits(ox as int, oy as int, xo as int, yo as int, block_size as int),
    ensures
        final(framebuffer)@ == cell_drawn(
            old(framebuffer)@,
            ox as int,
            oy as int,
            xo as int,
            yo as int,
            block_size as int,
            cell,
        ),
{
    if cell == ' ' {
        return ;
    }
    framebuffer.set_current_color(cell_to_color(cell));
    let side: i32 = if block_size as i32 - 2 > 1 {
        block_size as i32 - 2
    } else {
        1
    };
    framebuffer.fill_rect(ox + xo as i32 + 1, oy + yo as i32 + 1, side, side);
}

/// Scales a world coordinate to the map.
pub fn map_marker(world: usize, block_size: usize, mini: usize) -> (m: u128)
    requires
        block_size > 0,
    ensures
        m == marker(world as int, block_size as int, mini as int),
{
    proof {
        assert(0 <= world as int * mini as int <= 0xffff_ffff_ffff_ffff * 0xffff_ffff_ffff_ffff)
            by (nonlinear_arith)
            requires
                0 <= world <= 0xffff_ffff_ffff_ffff,
                0 <= mini <= 0xffff_ffff_ffff_ffff,
        ;
    }
    world as u128 * mini as u128 / block_size as u128
}

/// Tells whether a value fits a signed 32-bit integer.
fn fits_i32(v: i128) -> (fits: bool)
    ensures
        fits == in_i32(v as int),
{
    -0x8000_0000 <= v && v <= 0x7fff_ffff
}

/// Tells whether the scaled value `a * b` plus `offset` fits a signed
/// 32-bit integer, together with `a * b` itself.
fn scaled_fits(a: usize, b: usize, offset: i128) -> (fits: bool)
    requires
        -0x1_0000_0000 <= offset <= 0x1_0000_0000,
    ensures
        fits == (in_i32(a * b) && in_i32(offset + a * b)),
{
    proof {
        assert(0 <= a * b <= 0xffff_ffff_ffff_ffff * 0xffff_ffff_ffff_ffff) by (nonlinear_arith)
            requires
                0 <= a <= 0xffff_ffff_ffff_ffff,
                0 <= b <= 0xffff_ffff_ffff_ffff,
        ;
    }
    let product: u128 = a as u128 * b as u128;
    product <= 0x7fff_ffff && fits_i32(offset + product as i128)
}

/// Tells whether a marker at a scaled world coordinate fits.
fn marker_fits(origin: i32, world: usize, block_size: usize, mini: usize) -> (fits: bool)
    requires
        block_size > 0,
    ensures
        fits == in_i32(origin + marker(world as int, block_size as int, mini as int) - 2),
{
    let m = map_marker(world, block_size, mini);
    if m <= 0x2_0000_0000 {
        fits_i32(origin as i128 + m as i128 - 2)
    } else {
        false
    }
}

/// Tells whether the map can be drawn with 32-bit coordinates.
pub fn minimap_fits_check(
    maze: &Maze,
    block_size: usize,
    mini: usize,
    origin: (i32, i32),
    sprites: &Vec<Sprite>,
    player: (i32, i32),
) -> (fits: bool)
    requires
        block_size > 0,
        maze@.len() > 0,
    ensures
        fits == minimap_fits(grid(maze), block_size as int, mini as int, origin, sprites@, player),
{
    let ghost g = grid(maze);
    let ox = origin.0;
    let oy = origin.1;
    proof {
        lemma_grid_index(maze, 0, 0);
    }
    if !(scaled_fits(maze[0].len(), mini, 2) && scaled_fits(maze.len(), mini, 2) && scaled_fits(
        maze[0].len(),
        mini,
        ox as i128,
    ) && scaled_fits(maze.len(), mini, oy as i128) && fits_i32(ox as i128 - 1) && fits_i32(
        oy as i128 - 1,
    ) && fits_i32(ox as i128 + player.0 as i128 - 2) && fits_i32(
        oy as i128 + player.1 as i128 - 2,
    )) {
        return false;
    }
    let mut j: usize = 0;
    while j < maze.len()
        invariant
            j <= maze.len(),
            g == grid(maze),
            g.len() == maze@.len(),
            ox == origin.0,
            oy == origin.1,
            forall|x: int, y: int|
                0 <= y < j && 0 <= x < g[y].len() ==> #[trigger] grid_cell_fits(
                    ox as int,
                    oy as int,
                    mini as int,
                    x,
                    y,
                ),
        decreases maze.len() - j,
    {
        let row = &maze[j];
        proof {
            lemma_grid_index(maze, 0, j as int);
        }
        let mut i: usize = 0;
        while i < row.len()
            invariant
                i <= row.len(),
                j < maze.len(),
                g == grid(maze),
                g.len() == maze@.len(),
                row@ == g[j as int],
                ox == origin.0,
                oy == origin.1,
                forall|x: int, y: int|
                    0 <= y < j && 0 <= x < g[y].len() ==> #[trigger] grid_cell_fits(
                        ox as int,
                        oy as int,
                        mini as int,
                        x,
                        y,
                    ),
                forall|x: int|
                    0 <= x < i ==> #[trigger] grid_cell_fits(
                        ox as int,
                        oy as int,
                        mini as int,
                        x,
                        j as int,
                    ),
            decreases row.len() - i,
        {
            if !(scaled_fits(i, mini, ox as i128 + 1) && scaled_fits(j, mini, oy as i128 + 1)
                && mini <= 0x7fff_ffff) {
                proof {
                    assert(!grid_cell_fits(ox as int, oy as int, mini as int, i as int, j as int));
                }
                return false;
            }
            i += 1;
        }
        j += 1;
    }
    let mut k: usize = 0;
    while k < sprites.len()
        invariant
            k <= sprites.len(),
            block_size > 0,
            ox == origin.0,
            oy == origin.1,
            forall|n: int|
                0 <= n < k && (#[trigger] sprites@[n]).is_active && sprites@[n].sprite_type == COIN
                    ==> in_i32(
                    ox + marker(sprites@[n].world_x as int, block_size as int, mini as int) - 2,
                ) && in_i32(
                    oy + marker(sprites@[n].world_y as int, block_size as int, mini as int) - 2,
                ),
        decreases sprites.len() - k,
    {
        let s = sprites[k];
        if s.is_active && s.sprite_type == COIN && !(marker_fits(ox, s.world_x, block_size, mini)
            && marker_fits(oy, s.world_y, block_size, mini)) {
            return false;
        }
        k += 1;
    }
    true
}

/// Draws the map with its origin at `origin`: the ground with its border,
/// every cell of the maze at a pitch of `mini` pixels, the active coins
/// among the sprites, and the viewer at `player`, which is relative to the
/// origin. The pen is left black.
pub fn render_minimap(
    framebuffer: &mut Framebuffer,
    maze: &Maze,
    block_size: usize,
    mini: usize,
    origin: (i32, i32),
    sprites: &Vec<Sprite>,
    player: (i32, i32),
)
    requires
        block_size > 0,
        maze@.len() > 0,
        minimap_fits(grid(maze), block_size as int, mini as int, origin, sprites@, player),
    ensures
        final(framebuffer)@ == minimap_spec(
            old(framebuffer)@,
            grid(maze),
            block_size as int,
            mini as int,
            origin,
            sprites@,
            player,
        ),
{
    let ghost g = grid(maze);
    let ghost start = framebuffer@;
    let ox = origin.0;
    let oy = origin.1;
    proof {
        lemma_grid_index(maze, 0, 0);
        assert(0 <= g[0].len() * mini) by (nonlinear_arith);
        assert(0 <= g.len() * mini) by (nonlinear_arith);
    }
    let mw: i32 = (maze[0].len() * mini) as i32;
    let mh: i32 = (maze.len() * mini) as i32;
    framebuffer.set_current_color(Color { r: 60, g: 190, b: 180, a: 230 });
    framebuffer.fill_rect(ox, oy, mw, mh);
    framebuffer.set_current_color(Color { r: 24, g: 32, b: 56, a: 255 });
    framebuffer.fill_rect(ox - 1, oy - 1, mw + 2, 1);
    framebuffer.fill_rect(ox - 1, oy + mh, mw + 2, 1);
    framebuffer.fill_rect(ox - 1, oy - 1, 1, mh + 2);
    framebuffer.fill_rect(ox + mw, oy - 1, 1, mh + 2);
    let ghost ground = framebuffer@;
    let mut j: usize = 0;
    while j < maze.len()
        invariant
            j <= maze.len(),
            g == grid(maze),
            g.len() == maze@.len(),
            ox == origin.0,
            oy == origin.1,
            minimap_fits(g, block_size as int, mini as int, origin, sprites@, player),
            framebuffer@ == cells_drawn(ground, ox as int, oy as int, mini as int, g, j as nat),
        decreases maze.len() - j,
    {
        let row = &maze[j];
        let ghost before = framebuffer@;
        proof {
            lemma_grid_index(maze, 0, j as int);
        }
        let mut i: usize = 0;
        while i < row.len()
            invariant
                i <= row.len(),
                j < maze.len(),
                g.len() == maze@.len(),
                row@ == g[j as int],
                ox == origin.0,
                oy == origin.1,
                minimap_fits(g, block_size as int, mini as int, origin, sprites@, player),
                framebuffer@ == row_drawn(
                    before,
                    ox as int,
                    oy as int,
                    mini as int,
                    row@,
                    j as int,
                    i as nat,
                ),
            decreases row.len() - i,
        {
            proof {
                assert(grid_cell_fits(ox as int, oy as int, mini as int, i as int, j as int));
                assert(0 <= i as int * mini as int) by (nonlinear_arith);
                assert(0 <= j as int * mini as int) by (nonlinear_arith);
            }
            draw_cell_at(framebuffer, ox, oy, i * mini, j * mini, mini, row[i]);
            i += 1;
        }
        j += 1;
    }
    let ghost cells = framebuffer@;
    let mut k: usize = 0;
    while k < sprites.len()
        invariant
            k <= sprites.len(),
            block_size > 0,
            ox == origin.0,
            oy == origin.1,
            minimap_fits(g, block_size as int, mini as int, origin, sprites@, player),
            framebuffer@ == coins_marked(
                cells,
                ox as int,
                oy as int,
                mini as int,
                block_size as int,
                sprites@,
                k as nat,
            ),
        decreases sprites.len() - k,
    {
        let s = sprites[k];
        if s.is_active && s.sprite_type == COIN {
            let cx = map_marker(s.world_x, block_size, mini);
            let cy = map_marker(s.world_y, block_size, mini);
            framebuffer.set_current_color(Color { r: 255, g: 203, b: 0, a: 255 });
            framebuffer.fill_rect(
                (ox as i128 + cx as i128 - 2) as i32,
                (oy as i128 + cy as i128 - 2) as i32,
                4,
                4,
            );
        }
        k += 1;
    }
    framebuffer.set_current_color(Color::black());
    framebuffer.fill_rect(
        (ox as i64 + player.0 as i64 - 2) as i32,
        (oy as i64 + player.1 as i64 - 2) as i32,
        5,
        5,
    );
}

} // verus!
