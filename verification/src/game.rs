//! The course of a game: screens and the fades between them, the start of
//! a level, and the clock.

use vstd::prelude::*;
use crate::maze::{
    cell_center, cell_center_spec, find_char, first_occurrence, fits_world, grid, lemma_grid_index,
    occurs, world_fits, Maze,
};
use crate::sprites::{scattered, spawn_coins, Sprite};

verus! {

/// The screen that the game is on.
#[derive(Clone, Copy, Debug, PartialEq, Eq, Structural)]
pub enum GameState {
    Welcome,
    LevelPicker,
    Playing1,
    Playing2,
    Lost,
    Win,
}

/// Where a fade between two screens stands.
#[derive(Clone, Copy, Debug, PartialEq, Eq, Structural)]
pub enum Fade {
    /// No fade is going on.
    Idle,
    /// The screen is fading to black.
    Out,
    /// The next screen is fading in from black.
    In,
}

/// The keys that the screens react to, as pressed in one frame.
#[derive(Clone, Copy, Debug, PartialEq, Eq, Structural)]
pub struct Keys {
    pub enter: bool,
    pub one: bool,
    pub two: bool,
    pub backspace: bool,
}

/// The screen, the fade and the screen that the fade leads to.
#[derive(Clone, Copy, Debug, PartialEq, Eq, Structural)]
pub struct Flow {
    pub state: GameState,
    pub fade: Fade,
    pub next_state: Option<GameState>,
}

/// A flow in which a fade to `target` has begun, unless a fade is going
/// on already.
pub open spec fn requested(flow: Flow, target: GameState) -> Flow {
    if flow.fade == Fade::Idle {
        Flow { fade: Fade::Out, next_state: Some(target), ..flow }
    } else {
        flow
    }
}

/// The flow after one step of the fade. `black` says that the fade to
/// black is complete, `clear` that the fade from black is.
pub open spec fn ticked(flow: Flow, black: bool, clear: bool) -> Flow {
    if flow.fade == Fade::Out && black {
        Flow {
            state: match flow.next_state {
                Some(next) => next,
                None => flow.state,
            },
            fade: Fade::In,
            next_state: None,
        }
    } else if flow.fade == Fade::In && clear {
        Flow { fade: Fade::Idle, ..flow }
    } else {
        flow
    }
}

/// The level that the keys start on the level picker: the first level
/// with key one, else the second with key two.
pub open spec fn level_started(flow: Flow, keys: Keys) -> Option<usize> {
    if flow.state == GameState::LevelPicker && keys.one {
        Some(1usize)
    } else if flow.state == GameState::LevelPicker && keys.two {
        Some(2usize)
    } else {
        None
    }
}

/// The flow after the keys of one frame. A level screen reacts to no key.
pub open spec fn keyed(flow: Flow, keys: Keys) -> Flow {
    match flow.state {
        GameState::Welcome => if keys.enter {
            requested(flow, GameState::LevelPicker)
        } else {
            flow
        },
        GameState::LevelPicker => if keys.one {
            requested(flow, GameState::Playing1)
        } else if keys.two {
            requested(flow, GameState::Playing2)
        } else if keys.backspace {
            requested(flow, GameState::Welcome)
        } else {
            flow
        },
        GameState::Lost => if keys.enter {
            requested(flow, GameState::LevelPicker)
        } else {
            flow
        },
        GameState::Win => if keys.enter {
            requested(flow, GameState::Welcome)
        } else {
            flow
        },
        _ => flow,
    }
}

impl Flow {
    /// The game as it begins: on the welcome screen, without a fade.
    pub fn new() -> (flow: Flow)
        ensures
            flow == (Flow { state: GameState::Welcome, fade: Fade::Idle, next_state: None }),
    {
        Flow { state: GameState::Welcome, fade: Fade::Idle, next_state: None }
    }

    /// Begins a fade to `target`, unless a fade is going on.
    pub fn request(&mut self, target: GameState)
        ensures
            *final(self) == requested(*old(self), target),
    {
        match self.fade {
            Fade::Idle => {
                self.fade = Fade::Out;
                self.next_state = Some(target);
            },
            _ => {},
        }
    }

    /// Goes one step on in the fade.
    pub fn tick(&mut self, black: bool, clear: bool)
        ensures
            *final(self) == ticked(*old(self), black, clear),
    {
        match self.fade {
            Fade::Out => {
                if black {
                    match self.next_state {
                        Some(next) => {
                            self.state = next;
                        },
                        None => {},
                    }
                    self.next_state = None;
                    self.fade = Fade::In;
                }
            },
            Fade::In => {
                if clear {
                    self.fade = Fade::Idle;
                }
            },
            Fade::Idle => {},
        }
    }

    /// Reacts to the keys of one frame. Returns the number of the level to
    /// start, if the keys start one.
    pub fn press(&mut self, keys: Keys) -> (level: Option<usize>)
        ensures
            *final(self) == keyed(*old(self), keys),
            level == level_started(*old(self), keys),
    {
        match self.state {
            GameState::Welcome => {
                if keys.enter {
                    self.request(GameState::LevelPicker);
                }
                None
            },
            GameState::LevelPicker => {
                if keys.one {
                    self.request(GameState::Playing1);
                    Some(1)
                } else if keys.two {
                    self.request(GameState::Playing2);
                    Some(2)
                } else {
                    if keys.backspace {
                        self.request(GameState::Welcome);
                    }
                    None
                }
            },
            GameState::Lost => {
                if keys.enter {
                    self.request(GameState::LevelPicker);
                }
                None
            },
            GameState::Win => {
                if keys.enter {
                    self.request(GameState::Welcome);
                }
                None
            },
            _ => None,
        }
    }
}

/// Number of coins that open the portal of a level: five on the first level,
/// eight on any other.
pub open spec fn keys_needed(which: int) -> int {
    if which == 1 {
        5
    } else {
        8
    }
}

/// The cell that `ch` marks, or `fallback` if no cell holds it.
pub open spec fn marked_cell(g: Seq<Seq<char>>, ch: char, fallback: (int, int), cell: (int, int))
    -> bool {
    if occurs(g, ch) {
        first_occurrence(g, ch, cell.0, cell.1)
    } else {
        cell == fallback
    }
}

/// What a level begins with.
pub struct LevelStart {
    /// Coins to collect before the portal opens.
    pub keys_total: usize,
    /// World position of the viewer: the middle of the spawn cell.
    pub player: (usize, usize),
    /// World position of the portal: the middle of the goal cell.
    pub portal: (usize, usize),
    pub coins: Vec<Sprite>,
}

/// Whether a level can be begun on this grid: the world fits the machine's
/// integers, and a grid without a goal cell is at least two by two cells,
/// so that the portal can stand one cell in from its far corner.
pub open spec fn level_fits(g: Seq<Seq<char>>, block_size: int) -> bool {
    &&& fits_world(g, block_size)
    &&& 2 * block_size <= usize::MAX
    &&& !occurs(g, 'g') ==> g.len() >= 2 && g[0].len() >= 2 && (g[0].len() - 1) * block_size
        <= usize::MAX
}

/// Whether `level` is a beginning of level number `which` on a grid: the
/// viewer stands on the spawn cell, or on cell (1, 1) of a grid without
/// one; the portal stands on the goal cell, or one cell in from the far
/// corner of a grid without one; and as many coins as the level needs are
/// scattered over the walkable cells.
pub open spec fn begins(level: LevelStart, g: Seq<Seq<char>>, block_size: int, which: int) -> bool {
    &&& level.keys_total == keys_needed(which)
    &&& exists|cell: (int, int)|
        #![trigger marked_cell(g, 'p', (1, 1), cell)]
        marked_cell(g, 'p', (1, 1), cell) && level.player == (
            cell_center_spec(cell.0, block_size) as usize,
            cell_center_spec(cell.1, block_size) as usize,
        )
    &&& exists|cell: (int, int)|
        #![trigger marked_cell(g, 'g', (g[0].len() - 2, g.len() - 2), cell)]
        marked_cell(g, 'g', (g[0].len() - 2, g.len() - 2), cell) && level.portal == (
            cell_center_spec(cell.0, block_size) as usize,
            cell_center_spec(cell.1, block_size) as usize,
        )
    &&& scattered(level.coins@, g, block_size, level.keys_total as int)
}

/// Begins level number `which` on a maze. `None` if no level can be begun
/// on it at this cell pitch.
pub fn start_level(maze: &Maze, block_size: usize, which: usize) -> (level: Option<LevelStart>)
    ensures
        match level {
            Some(l) => level_fits(grid(maze), block_size as int) && begins(
                l,
                grid(maze),
                block_size as int,
                which as int,
            ),
            None => !level_fits(grid(maze), block_size as int),
        },
{
    let ghost g = grid(maze);
    let ghost bs = block_size as int;
    if !world_fits(maze, block_size) || block_size > usize::MAX / 2 {
        return None;
    }
    let keys_total: usize = if which == 1 {
        5
    } else {
        8
    };
    let spawn = match find_char(maze, 'p') {
        Some(cell) => cell,
        None => (1, 1),
    };
    let goal = match find_char(maze, 'g') {
        Some(cell) => cell,
        None => {
            if maze.len() < 2 {
                return None;
            }
            proof {
                lemma_grid_index(maze, 0, 0);
            }
            if maze[0].len() < 2 {
                return None;
            }
            proof {
                assert(0 <= (g[0].len() - 1) * bs <= (g[0].len() + 1) * bs) by (nonlinear_arith)
                    requires
                        0 <= bs,
                        g[0].len() >= 2,
                ;
            }
            (maze[0].len() - 2, maze.len() - 2)
        },
    };
    proof {
        if occurs(g, 'p') {
            lemma_cell_fits(g, bs, spawn.0 as int, spawn.1 as int);
        }
        assert(marked_cell(g, 'p', (1, 1), (spawn.0 as int, spawn.1 as int)));
        if occurs(g, 'g') {
            lemma_cell_fits(g, bs, goal.0 as int, goal.1 as int);
        } else {
            assert((goal.1 + 1) * bs <= (g.len() + 1) * bs) by (nonlinear_arith)
                requires
                    goal.1 + 1 <= g.len() + 1,
                    0 <= bs,
            ;
        }
        assert(marked_cell(g, 'g', (g[0].len() - 2, g.len() - 2), (goal.0 as int, goal.1 as int)));
    }
    let player = (cell_center(spawn.0, block_size), cell_center(spawn.1, block_size));
    let portal = (cell_center(goal.0, block_size), cell_center(goal.1, block_size));
    let coins = spawn_coins(maze, block_size, keys_total);
    Some(LevelStart { keys_total, player, portal, coins })
}

/// The centre of a cell of the grid fits wherever the world does.
proof fn lemma_cell_fits(g: Seq<Seq<char>>, block_size: int, x: int, y: int)
    requires
        fits_world(g, block_size),
        0 <= block_size,
        0 <= y < g.len(),
        0 <= x < g[y].len(),
    ensures
        (x + 1) * block_size <= usize::MAX,
        (y + 1) * block_size <= usize::MAX,
{
    assert((g[y].len() + 1) * block_size <= usize::MAX);
    assert((x + 1) * block_size <= (g[y].len() + 1) * block_size) by (nonlinear_arith)
        requires
            0 <= x < g[y].len(),
            0 <= block_size,
    ;
    assert((y + 1) * block_size <= (g.len() + 1) * block_size) by (nonlinear_arith)
        requires
            0 <= y < g.len(),
            0 <= block_size,
    ;
}

/// Whole seconds left of a level that lasts `total` and has run for
/// `elapsed`, both in nanoseconds, cut to 32 bits; zero once the time is
/// up.
pub open spec fn time_left_spec(total: int, elapsed: int) -> u32 {
    if elapsed >= total {
        0
    } else {
        ((total - elapsed) / 1_000_000_000) as u128 as u32
    }
}

/// Tells how many whole seconds of a level are left.
pub fn time_left(total_nanos: u128, elapsed_nanos: u128) -> (secs: u32)
    ensures
        secs == time_left_spec(total_nanos as int, elapsed_nanos as int),
{
    if elapsed_nanos >= total_nanos {
        0
    } else {
        let secs: u128 = (total_nanos - elapsed_nanos) / 1_000_000_000;
        #[verifier::truncate]
        (secs as u32)
    }
}

/// Seconds added to a level's time when the count of collected coins goes
/// from `before` to `now`: five for every coin gained.
pub fn bonus_seconds(now: usize, before: usize) -> (secs: u64)
    requires
        5 * (now - before) <= u64::MAX,
    ensures
        secs == if now > before {
            5 * (now - before)
        } else {
            0
        },
{
    if now > before {
        5 * (now - before) as u64
    } else {
        0
    }
}

} // verus!
