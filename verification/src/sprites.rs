//! Billboard sprites in the world: their textures, where coins are put,
//! how they are picked up, and which of them a frame shows.

use vstd::prelude::*;
use crate::atlas::Atlas;
use crate::bitmap::{decoded_rgba8, CpuImage, DecodeError, ImageView};
use crate::color::Color;
use crate::maze::{
    cell_at_spec, cell_center, cell_center_spec, fits_world, free_cells, free_cells_spec, grid,
    lemma_free_cells, lemma_grid_index, walkable, Maze,
};

verus! {

/// Sprite type of a coin.
pub const COIN: char = 'c';

/// Sprite type of the landmark while coins are missing.
pub const POLICE: char = 'P';

/// Sprite type of the landmark once enough coins are collected.
pub const KEYS: char = 'Q';

/// A billboard in the world. Positions and size are whole world units.
#[derive(Clone, Copy, Debug, PartialEq, Eq, Structural)]
pub struct Sprite {
    pub world_x: usize,
    pub world_y: usize,
    /// Edge length of the billboard before projection.
    pub size: usize,
    pub sprite_type: char,
    /// A sprite that was picked up stays in its list, inactive.
    pub is_active: bool,
}

/// The coin that is put on cell `cell`: in the middle of the cell, two
/// fifths of the cell pitch in size, active.
pub open spec fn coin_at(cell: (usize, usize), block_size: int) -> Sprite {
    Sprite {
        world_x: cell_center_spec(cell.0 as int, block_size) as usize,
        world_y: cell_center_spec(cell.1 as int, block_size) as usize,
        size: (block_size * 2 / 5) as usize,
        sprite_type: COIN,
        is_active: true,
    }
}

/// The coins put on the first `n` cells of a list, or on all of them if
/// the list is shorter.
pub open spec fn coins_spec(cells: Seq<(usize, usize)>, block_size: int, n: int) -> Seq<Sprite> {
    Seq::new(
        if n < cells.len() {
            n as nat
        } else {
            cells.len()
        },
        |k: int| coin_at(cells[k], block_size),
    )
}

/// Whether the centre of every listed cell fits in a machine word.
pub open spec fn cells_fit(cells: Seq<(usize, usize)>, block_size: int) -> bool {
    forall|k: int|
        0 <= k < cells.len() ==> ((#[trigger] cells[k]).0 + 1) * block_size <= usize::MAX && (
        cells[k].1 + 1) * block_size <= usize::MAX
}

/// A sprite after the pickup pass: an active coin in reach is switched
/// off, everything else stays.
pub open spec fn picked(s: Sprite, in_reach: bool) -> Sprite {
    if s.is_active && s.sprite_type == COIN && in_reach {
        Sprite { is_active: false, ..s }
    } else {
        s
    }
}

/// Number of coins among the first `n` sprites that are switched off.
pub open spec fn collected_coins(sprites: Seq<Sprite>, n: nat) -> nat
    decreases n,
{
    if n == 0 {
        0
    } else {
        let before = collected_coins(sprites, (n - 1) as nat);
        if sprites[n - 1].sprite_type == COIN && !sprites[n - 1].is_active {
            before + 1
        } else {
            before
        }
    }
}

/// The landmark sprite: one cell pitch in size, showing the keys once
/// `collected` reaches `needed` and the police before.
pub open spec fn landmark(portal: (usize, usize), collected: int, needed: int, block_size: int)
    -> Sprite {
    Sprite {
        world_x: portal.0,
        world_y: portal.1,
        size: block_size as usize,
        sprite_type: if collected >= needed {
            KEYS
        } else {
            POLICE
        },
        is_active: true,
    }
}

/// The sprites that a frame shows: the active ones in their order, then
/// the landmark.
pub open spec fn visible_spec(
    sprites: Seq<Sprite>,
    portal: (usize, usize),
    collected: int,
    needed: int,
    block_size: int,
) -> Seq<Sprite> {
    sprites.filter(|s: Sprite| s.is_active).push(landmark(portal, collected, needed, block_size))
}

/// Whether `coins` are up to `n` coins scattered over the walkable cells
/// of a grid: the coins of the first `n` cells of some reordering of the
/// walkable cells.
pub open spec fn scattered(coins: Seq<Sprite>, g: Seq<Seq<char>>, block_size: int, n: int) -> bool {
    exists|order: Seq<(usize, usize)>|
        order.to_multiset() == free_cells_spec(g).to_multiset() && coins == #[trigger] coins_spec(
            order,
            block_size,
            n,
        )
}

/// Calls `SliceRandom::shuffle` of the `rand` crate on the cells with the
/// thread's generator from `rand::rng`. The order that comes out is
/// random; the contract claims only that the cells are the same ones.
#[verifier::external_body]
fn shuffle_cells(cells: &mut Vec<(usize, usize)>)
    ensures
        final(cells)@.to_multiset() == old(cells)@.to_multiset(),
{
    rand::seq::SliceRandom::shuffle(cells.as_mut_slice(), &mut rand::rng());
}

/// Puts a coin on each of the first `n` cells of a list.
pub fn coins_on_cells(cells: &Vec<(usize, usize)>, block_size: usize, n: usize) -> (coins: Vec<
    Sprite,
>)
    requires
        cells_fit(cells@, block_size as int),
    ensures
        coins@ == coins_spec(cells@, block_size as int, n as int),
{
    let count: usize = if n < cells.len() {
        n
    } else {
        cells.len()
    };
    let size: usize = if block_size <= usize::MAX / 2 {
        block_size * 2 / 5
    } else {
        block_size / 5 * 2 + (block_size % 5) * 2 / 5
    };
    proof {
        let b = block_size as int;
        assert(b == 5 * (b / 5) + b % 5);
        assert(0 <= b % 5 < 5);
        assert(b * 2 / 5 == (b / 5) * 2 + (b % 5) * 2 / 5) by {
            vstd::arithmetic::div_mod::lemma_fundamental_div_mod_converse(
                b * 2,
                5,
                (b / 5) * 2 + (b % 5) * 2 / 5,
                ((b % 5) * 2) % 5,
            );
        }
    }
    let mut coins: Vec<Sprite> = Vec::new();
    let mut k: usize = 0;
    while k < count
        invariant
            k <= count <= cells.len(),
            cells_fit(cells@, block_size as int),
            size == block_size * 2 / 5,
            coins@.len() == k,
            forall|i: int| 0 <= i < k ==> coins@[i] == coin_at(cells@[i], block_size as int),
        decreases count - k,
    {
        let cell = cells[k];
        coins.push(
            Sprite {
                world_x: cell_center(cell.0, block_size),
                world_y: cell_center(cell.1, block_size),
                size,
                sprite_type: COIN,
                is_active: true,
            },
        );
        k += 1;
    }
    proof {
        assert(coins@ =~= coins_spec(cells@, block_size as int, n as int));
    }
    coins
}

/// Scatters up to `n` coins over the walkable cells of a maze, at most one
/// per cell. Which cells get one is random: the coins are those of the
/// first `n` cells of some reordering of the walkable cells.
pub fn spawn_coins(maze: &Maze, block_size: usize, n: usize) -> (coins: Vec<Sprite>)
    requires
        fits_world(grid(maze), block_size as int),
    ensures
        scattered(coins@, grid(maze), block_size as int, n as int),
{
    let mut cells = free_cells(maze);
    shuffle_cells(&mut cells);
    proof {
        lemma_reordered_cells_fit(maze, cells@, block_size as int);
    }
    let coins = coins_on_cells(&cells, block_size, n);
    proof {
        assert(coins@ == coins_spec(cells@, block_size as int, n as int));
    }
    coins
}

/// Every cell of a reordering of the walkable cells is a walkable cell of
/// the grid.
pub proof fn lemma_reordered_cells_walkable(maze: &Maze, order: Seq<(usize, usize)>, k: int)
    requires
        order.to_multiset() == free_cells_spec(grid(maze)).to_multiset(),
        0 <= k < order.len(),
    ensures
        cell_at_spec(grid(maze), order[k].0 as int, order[k].1 as int) is Some,
        walkable(grid(maze)[order[k].1 as int][order[k].0 as int]),
{
    broadcast use vstd::seq_lib::group_to_multiset_ensures;

    let g = grid(maze);
    let free = free_cells_spec(g);
    assert(g.len() == maze@.len() == maze.len());
    assert forall|y: int| 0 <= y < g.len() implies (#[trigger] g[y]).len() <= usize::MAX by {
        lemma_grid_index(maze, 0, y);
        assert(maze@[y]@.len() == maze@[y].len());
    }
    lemma_free_cells(g);
    assert(order.contains(order[k]));
    assert(order.to_multiset().count(order[k]) > 0);
    assert(free.contains(order[k]));
    let j = choose|j: int| 0 <= j < free.len() && free[j] == order[k];
    assert(free[j] == order[k]);
}

proof fn lemma_reordered_cells_fit(maze: &Maze, order: Seq<(usize, usize)>, block_size: int)
    requires
        order.to_multiset() == free_cells_spec(grid(maze)).to_multiset(),
        fits_world(grid(maze), block_size),
        0 <= block_size,
    ensures
        cells_fit(order, block_size),
{
    let g = grid(maze);
    assert forall|k: int| 0 <= k < order.len() implies ((#[trigger] order[k]).0 + 1) * block_size
        <= usize::MAX && (order[k].1 + 1) * block_size <= usize::MAX by {
        lemma_reordered_cells_walkable(maze, order, k);
        let x = order[k].0 as int;
        let y = order[k].1 as int;
        assert((g[y].len() + 1) * block_size <= usize::MAX);
        assert((x + 1) * block_size <= (g[y].len() + 1) * block_size) by (nonlinear_arith)
            requires
                0 <= x < g[y].len(),
                0 <= block_size,
        ;
        assert((y + 1) * block_size <= (g.len() + 1) * block_size) by (nonlinear_arith)
            requires
                0 <= y < g.len(),
                0 <= block_size,
        ;
    }
}

/// Switches off every active coin that is in reach and counts the coins
/// that are switched off afterwards. `in_reach[i]` says whether sprite `i`
/// is in reach; a sprite without an entry is not.
pub fn pickup_coins(sprites: &mut Vec<Sprite>, in_reach: &Vec<bool>) -> (collected: usize)
    ensures
        final(sprites)@.len() == old(sprites)@.len(),
        forall|i: int|
            0 <= i < old(sprites)@.len() ==> #[trigger] final(sprites)@[i] == picked(
                old(sprites)@[i],
                i < in_reach@.len() && in_reach@[i],
            ),
        collected == collected_coins(final(sprites)@, final(sprites)@.len()),
{
    let n: usize = sprites.len();
    let mut collected: usize = 0;
    let mut i: usize = 0;
    while i < n
        invariant
            i <= n,
            n == sprites@.len(),
            n == old(sprites)@.len(),
            collected == collected_coins(sprites@, i as nat),
            collected <= i,
            forall|k: int|
                0 <= k < i ==> #[trigger] sprites@[k] == picked(
                    old(sprites)@[k],
                    k < in_reach@.len() && in_reach@[k],
                ),
            forall|k: int| i <= k < n ==> sprites@[k] == old(sprites)@[k],
        decreases n - i,
    {
        let s = sprites[i];
        let reach = i < in_reach.len() && in_reach[i];
        let ghost before = sprites@;
        if s.is_active && s.sprite_type == COIN && reach {
            sprites[i] = Sprite { is_active: false, ..s };
        }
        proof {
            lemma_collected_prefix(before, sprites@, i as nat);
        }
        let now = sprites[i];
        if now.sprite_type == COIN && !now.is_active {
            collected += 1;
        }
        i += 1;
    }
    collected
}

/// The count over a prefix depends on that prefix only.
proof fn lemma_collected_prefix(a: Seq<Sprite>, b: Seq<Sprite>, n: nat)
    requires
        forall|k: int| 0 <= k < n ==> a[k] == b[k],
    ensures
        collected_coins(a, n) == collected_coins(b, n),
    decreases n,
{
    if n > 0 {
        lemma_collected_prefix(a, b, (n - 1) as nat);
    }
}

/// Lists the sprites that a frame shows: the active ones, then the
/// landmark at `portal`.
pub fn visible_sprites(
    sprites: &Vec<Sprite>,
    portal: (usize, usize),
    coins_collected: usize,
    coins_needed: usize,
    block_size: usize,
) -> (visible: Vec<Sprite>)
    ensures
        visible@ == visible_spec(
            sprites@,
            portal,
            coins_collected as int,
            coins_needed as int,
            block_size as int,
        ),
{
    let ghost active = |s: Sprite| s.is_active;
    let mut visible: Vec<Sprite> = Vec::new();
    let mut i: usize = 0;
    proof {
        reveal(Seq::filter);
        assert(sprites@.take(0).filter(active) =~= Seq::<Sprite>::empty());
    }
    while i < sprites.len()
        invariant
            i <= sprites.len(),
            active == |s: Sprite| s.is_active,
            visible@ == sprites@.take(i as int).filter(active),
        decreases sprites.len() - i,
    {
        let s = sprites[i];
        proof {
            assert(sprites@.take(i + 1) =~= sprites@.take(i as int).push(s));
            sprites@.take(i as int).lemma_filter_push(s, active);
        }
        if s.is_active {
            visible.push(s);
        }
        i += 1;
    }
    proof {
        assert(sprites@.take(sprites@.len() as int) =~= sprites@);
    }
    visible.push(
        Sprite {
            world_x: portal.0,
            world_y: portal.1,
            size: block_size,
            sprite_type: if coins_collected >= coins_needed {
                KEYS
            } else {
                POLICE
            },
            is_active: true,
        },
    );
    visible
}

/// The textures of the sprites, by sprite type.
pub struct SpriteManager {
    sprite_textures: Atlas,
}

/// The textures of the three sprite types.
pub open spec fn sprite_textures_of(coin: ImageView, police: ImageView, keys: ImageView) -> Map<
    char,
    ImageView,
> {
    Map::<char, ImageView>::empty().insert(COIN, coin).insert(POLICE, police).insert(KEYS, keys)
}

/// The size reported for a sprite type: that of its texture, one by one
/// without.
pub open spec fn sprite_size(textures: Map<char, ImageView>, sprite_type: char) -> (nat, nat) {
    if textures.contains_key(sprite_type) {
        (textures[sprite_type].width, textures[sprite_type].height)
    } else {
        (1, 1)
    }
}

/// The colour of a sprite texel: a clamped lookup in the texture of the
/// sprite type, white without a texture.
pub open spec fn sprite_texel(textures: Map<char, ImageView>, sprite_type: char, x: int, y: int)
    -> Color {
    if textures.contains_key(sprite_type) {
        textures[sprite_type].sample(x, y)
    } else {
        Color::white()
    }
}

/// A decoded picture as an image view.
pub open spec fn decoded_view(decoded: (u32, u32, Seq<u8>)) -> ImageView {
    ImageView { width: decoded.0 as nat, height: decoded.1 as nat, data: decoded.2 }
}

impl SpriteManager {
    /// The stored textures by sprite type.
    pub closed spec fn textures(&self) -> Map<char, ImageView> {
        self.sprite_textures@
    }

    /// Stores the three decoded pictures under the coin, police and keys
    /// sprite types.
    pub fn from_images(coin: CpuImage, police: CpuImage, keys: CpuImage) -> (manager:
        SpriteManager)
        ensures
            manager.textures() == sprite_textures_of(coin@, police@, keys@),
    {
        let mut sprite_textures = Atlas::new();
        sprite_textures.store(COIN, coin);
        sprite_textures.store(POLICE, police);
        sprite_textures.store(KEYS, keys);
        SpriteManager { sprite_textures }
    }

    /// Decodes the encoded pictures of the coin, the police and the keys
    /// and stores them. Fails if any of them cannot be decoded.
    pub fn new(coin: &Vec<u8>, police: &Vec<u8>, keys: &Vec<u8>) -> (out: Result<
        SpriteManager,
        DecodeError,
    >)
        ensures
            match out {
                Ok(manager) => {
                    &&& decoded_rgba8(coin@) matches Some(c)
                    &&& decoded_rgba8(police@) matches Some(p)
                    &&& decoded_rgba8(keys@) matches Some(k)
                    &&& manager.textures() == sprite_textures_of(
                        decoded_view(c),
                        decoded_view(p),
                        decoded_view(k),
                    )
                },
                Err(e) => e == DecodeError::Undecodable && (decoded_rgba8(coin@) is None
                    || decoded_rgba8(police@) is None || decoded_rgba8(keys@) is None),
            },
    {
        let coin_image = match CpuImage::decode(coin) {
            Ok(img) => img,
            Err(e) => {
                return Err(e);
            },
        };
        let police_image = match CpuImage::decode(police) {
            Ok(img) => img,
            Err(e) => {
                return Err(e);
            },
        };
        let keys_image = match CpuImage::decode(keys) {
            Ok(img) => img,
            Err(e) => {
                return Err(e);
            },
        };
        Ok(SpriteManager::from_images(coin_image, police_image, keys_image))
    }

    /// Width and height of the texture of a sprite type; one by one if it
    /// has none.
    pub fn get_size(&self, sprite_type: char) -> (size: (u32, u32))
        ensures
            (size.0 as nat, size.1 as nat) == sprite_size(self.textures(), sprite_type),
    {
        match self.sprite_textures.get(sprite_type) {
            Some(img) => (img.width, img.height),
            None => (1, 1),
        }
    }

    /// The colour at `(texture_x, texture_y)` of the texture of a sprite
    /// type, each coordinate clamped into the texture; white if the type
    /// has no texture.
    pub fn sample(&self, sprite_type: char, texture_x: u32, texture_y: u32) -> (c: Color)
        ensures
            c == sprite_texel(self.textures(), sprite_type, texture_x as int, texture_y as int),
    {
        match self.sprite_textures.get(sprite_type) {
            Some(img) => img.sample(texture_x, texture_y),
            None => Color::white(),
        }
    }
}

} // verus!
