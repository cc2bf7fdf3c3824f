//! The maze grid: rows of cell tags, with bounds-checked lookup.

use vstd::prelude::*;

verus! {

/// A maze is a list of rows, top to bottom; a row is a list of cell tags,
/// left to right. Rows may differ in length.
pub type Maze = Vec<Vec<char>>;

/// The tag reported for a ray that leaves the grid.
pub const BOUNDARY: char = '#';

/// A cell can be walked through when it is empty, the spawn or the goal.
pub open spec fn walkable(cell: char) -> bool {
    cell == ' ' || cell == 'p' || cell == 'g'
}

/// The rows of an executable maze as sequences.
pub open spec fn grid(maze: &Maze) -> Seq<Seq<char>> {
    maze.deep_view()
}

/// The tag at column `x` of row `y`, if the grid has such a cell.
pub open spec fn cell_at_spec(g: Seq<Seq<char>>, x: int, y: int) -> Option<char> {
    if 0 <= y < g.len() && 0 <= x < g[y].len() {
        Some(g[y][x])
    } else {
        None
    }
}

/// Whether `(x, y)` is the first cell in reading order that holds `ch`.
pub open spec fn first_occurrence(g: Seq<Seq<char>>, ch: char, x: int, y: int) -> bool {
    &&& cell_at_spec(g, x, y) == Some(ch)
    &&& forall|i: int, j: int|
        (0 <= j < y && 0 <= i < g[j].len()) || (j == y && 0 <= i < x) ==> #[trigger] g[j][i]
            != ch
}

/// Whether `ch` occurs anywhere in the grid.
pub open spec fn occurs(g: Seq<Seq<char>>, ch: char) -> bool {
    exists|i: int, j: int| 0 <= j < g.len() && 0 <= i < g[j].len() && #[trigger] g[j][i] == ch
}

/// Index of the first line feed in `s`, or `s.len()` if it has none.
pub open spec fn first_newline(s: Seq<char>) -> nat
    decreases s.len(),
{
    if s.len() == 0 || s[0] == '\n' {
        0
    } else {
        1 + first_newline(s.drop_first())
    }
}

/// A line without the carriage return that may end it.
pub open spec fn strip_cr(line: Seq<char>) -> Seq<char> {
    if line.len() > 0 && line.last() == '\r' {
        line.drop_last()
    } else {
        line
    }
}

/// The lines of a text. A line ends at a line feed; the line feed, and a
/// carriage return just before it, are not part of the line. Text after
/// the last line feed is a line of its own, kept as it is; an empty rest
/// is no line.
pub open spec fn lines_spec(s: Seq<char>) -> Seq<Seq<char>>
    decreases s.len(),
{
    let n = first_newline(s);
    if s.len() == 0 {
        Seq::empty()
    } else if n >= s.len() {
        seq![s]
    } else {
        seq![strip_cr(s.take(n as int))] + lines_spec(s.skip(n as int + 1))
    }
}

/// The walkable cells among the first `upto` cells of row `y`, left to
/// right, as `(column, row)`.
pub open spec fn free_in_row(row: Seq<char>, y: nat, upto: nat) -> Seq<(usize, usize)>
    decreases upto,
{
    if upto == 0 {
        Seq::empty()
    } else {
        let before = free_in_row(row, y, (upto - 1) as nat);
        if walkable(row[upto - 1]) {
            before.push(((upto - 1) as usize, y as usize))
        } else {
            before
        }
    }
}

/// The walkable cells of the first `rows` rows, in reading order.
pub open spec fn free_in_rows(g: Seq<Seq<char>>, rows: nat) -> Seq<(usize, usize)>
    decreases rows,
{
    if rows == 0 {
        Seq::empty()
    } else {
        free_in_rows(g, (rows - 1) as nat) + free_in_row(
            g[rows - 1],
            (rows - 1) as nat,
            g[rows - 1].len(),
        )
    }
}

/// All walkable cells of a grid, in reading order.
pub open spec fn free_cells_spec(g: Seq<Seq<char>>) -> Seq<(usize, usize)> {
    free_in_rows(g, g.len())
}

/// World coordinate of the middle of cell number `index` along one axis.
pub open spec fn cell_center_spec(index: int, block_size: int) -> int {
    index * block_size + block_size / 2
}

/// Whether the centre of every cell of the grid, and the far edge of the
/// grid, fit in a machine word for this cell pitch.
pub open spec fn fits_world(g: Seq<Seq<char>>, block_size: int) -> bool {
    &&& (g.len() + 1) * block_size <= usize::MAX
    &&& forall|y: int| 0 <= y < g.len() ==> (#[trigger] g[y].len() + 1) * block_size <= usize::MAX
}

pub proof fn lemma_first_newline_is(s: Seq<char>, n: int)
    requires
        0 <= n <= s.len(),
        forall|i: int| 0 <= i < n ==> s[i] != '\n',
        n < s.len() ==> s[n] == '\n',
    ensures
        first_newline(s) == n,
    decreases s.len(),
{
    if s.len() == 0 || s[0] == '\n' {
    } else {
        let t = s.drop_first();
        assert forall|i: int| 0 <= i < n - 1 implies t[i] != '\n' by {
            assert(t[i] == s[i + 1]);
        }
        lemma_first_newline_is(t, n - 1);
    }
}

/// Every free cell lies in the grid and is walkable; every walkable cell
/// is listed; the list is in strict reading order, so no cell is listed
/// twice.
pub proof fn lemma_free_cells(g: Seq<Seq<char>>)
    requires
        g.len() <= usize::MAX,
        forall|y: int| 0 <= y < g.len() ==> (#[trigger] g[y]).len() <= usize::MAX,
    ensures
        forall|k: int|
            0 <= k < free_cells_spec(g).len() ==> {
                let c = #[trigger] free_cells_spec(g)[k];
                cell_at_spec(g, c.0 as int, c.1 as int) is Some && walkable(
                    g[c.1 as int][c.0 as int],
                )
            },
        forall|x: int, y: int|
            0 <= y < g.len() && 0 <= x < g[y].len() && walkable(#[trigger] g[y][x])
                ==> free_cells_spec(g).contains((x as usize, y as usize)),
        forall|k: int, l: int|
            0 <= k < l < free_cells_spec(g).len() ==> reading_order(
                #[trigger] free_cells_spec(g)[k],
                #[trigger] free_cells_spec(g)[l],
            ),
{
    lemma_free_in_rows(g, g.len());
}

/// Whether cell `a` comes strictly before cell `b` in reading order.
pub open spec fn reading_order(a: (usize, usize), b: (usize, usize)) -> bool {
    a.1 < b.1 || (a.1 == b.1 && a.0 < b.0)
}

proof fn lemma_free_in_row(row: Seq<char>, y: nat, upto: nat)
    requires
        upto <= row.len() <= usize::MAX,
        y <= usize::MAX,
    ensures
        forall|k: int|
            0 <= k < free_in_row(row, y, upto).len() ==> {
                let c = #[trigger] free_in_row(row, y, upto)[k];
                c.1 == y && c.0 < upto && walkable(row[c.0 as int])
            },
        forall|x: int|
            0 <= x < upto && walkable(#[trigger] row[x]) ==> free_in_row(row, y, upto).contains(
                (x as usize, y as usize),
            ),
        forall|k: int, l: int|
            0 <= k < l < free_in_row(row, y, upto).len() ==> (#[trigger] free_in_row(
                row,
                y,
                upto,
            )[k]).0 < (#[trigger] free_in_row(row, y, upto)[l]).0,
    decreases upto,
{
    if upto > 0 {
        let before = free_in_row(row, y, (upto - 1) as nat);
        let now = free_in_row(row, y, upto);
        lemma_free_in_row(row, y, (upto - 1) as nat);
        assert forall|x: int| 0 <= x < upto && walkable(#[trigger] row[x]) implies now.contains(
            (x as usize, y as usize),
        ) by {
            if x < upto - 1 {
                let k = choose|k: int| 0 <= k < before.len() && before[k] == (x as usize, y as usize);
                assert(now[k] == before[k]);
            } else {
                assert(now[before.len() as int] == (x as usize, y as usize));
            }
        }
    }
}

proof fn lemma_free_in_rows(g: Seq<Seq<char>>, rows: nat)
    requires
        rows <= g.len() <= usize::MAX,
        forall|y: int| 0 <= y < g.len() ==> (#[trigger] g[y]).len() <= usize::MAX,
    ensures
        forall|k: int|
            0 <= k < free_in_rows(g, rows).len() ==> {
                let c = #[trigger] free_in_rows(g, rows)[k];
                c.1 < rows && c.0 < g[c.1 as int].len() && walkable(g[c.1 as int][c.0 as int])
            },
        forall|x: int, y: int|
            0 <= y < rows && 0 <= x < g[y].len() && walkable(#[trigger] g[y][x]) ==> free_in_rows(
                g,
                rows,
            ).contains((x as usize, y as usize)),
        forall|k: int, l: int|
            0 <= k < l < free_in_rows(g, rows).len() ==> reading_order(
                #[trigger] free_in_rows(g, rows)[k],
                #[trigger] free_in_rows(g, rows)[l],
            ),
    decreases rows,
{
    if rows > 0 {
        let y = (rows - 1) as nat;
        let before = free_in_rows(g, y);
        let here = free_in_row(g[y as int], y, g[y as int].len());
        let now = free_in_rows(g, rows);
        lemma_free_in_rows(g, y);
        lemma_free_in_row(g[y as int], y, g[y as int].len());
        assert(now == before + here);
        assert forall|k: int| 0 <= k < now.len() implies ({
            let c = #[trigger] now[k];
            c.1 < rows && c.0 < g[c.1 as int].len() && walkable(g[c.1 as int][c.0 as int])
        }) by {
            if k < before.len() {
                assert(now[k] == before[k]);
            } else {
                assert(now[k] == here[k - before.len()]);
            }
        }
        assert forall|x: int, yy: int|
            0 <= yy < rows && 0 <= x < g[yy].len() && walkable(#[trigger] g[yy][x]) implies now.contains(
            (x as usize, yy as usize),
        ) by {
            if yy < y {
                let k = choose|k: int|
                    0 <= k < before.len() && before[k] == (x as usize, yy as usize);
                assert(now[k] == before[k]);
            } else {
                let k = choose|k: int| 0 <= k < here.len() && here[k] == (x as usize, yy as usize);
                assert(now[before.len() + k] == here[k]);
            }
        }
        assert forall|k: int, l: int| 0 <= k < l < now.len() implies reading_order(
            #[trigger] now[k],
            #[trigger] now[l],
        ) by {
            if l < before.len() {
                assert(now[k] == before[k] && now[l] == before[l]);
            } else if k < before.len() {
                assert(now[k] == before[k]);
                assert(now[l] == here[l - before.len()]);
            } else {
                assert(now[k] == here[k - before.len()]);
                assert(now[l] == here[l - before.len()]);
            }
        }
    }
}

pub proof fn lemma_grid_index(maze: &Maze, x: int, y: int)
    requires
        0 <= y < maze@.len(),
    ensures
        grid(maze).len() == maze@.len(),
        grid(maze)[y] == maze@[y]@,
        0 <= x < maze@[y]@.len() ==> grid(maze)[y][x] == maze@[y]@[x],
{
    broadcast use vstd::std_specs::vec::group_vec_axioms;

}

/// Whether a cell can be walked through.
pub fn is_walkable(cell: char) -> (w: bool)
    ensures
        w == walkable(cell),
{
    cell == ' ' || cell == 'p' || cell == 'g'
}

/// Bounds-checked lookup of the cell at column `x` of row `y`.
pub fn cell_at(maze: &Maze, x: usize, y: usize) -> (cell: Option<char>)
    ensures
        cell == cell_at_spec(grid(maze), x as int, y as int),
{
    proof {
        if y < maze.len() {
            lemma_grid_index(maze, x as int, y as int);
        }
        assert(grid(maze).len() == maze@.len());
    }
    if y < maze.len() && x < maze[y].len() {
        Some(maze[y][x])
    } else {
        None
    }
}

/// Finds the first cell, in reading order, that holds `ch`, as
/// `(column, row)`.
pub fn find_char(maze: &Maze, ch: char) -> (found: Option<(usize, usize)>)
    ensures
        match found {
            Some((x, y)) => first_occurrence(grid(maze), ch, x as int, y as int),
            None => !occurs(grid(maze), ch),
        },
{
    let ghost g = grid(maze);
    let mut j: usize = 0;
    proof {
        assert(g.len() == maze@.len());
    }
    while j < maze.len()
        invariant
            j <= maze.len(),
            g == grid(maze),
            g.len() == maze@.len(),
            forall|a: int, b: int| 0 <= b < j && 0 <= a < g[b].len() ==> #[trigger] g[b][a] != ch,
        decreases maze.len() - j,
    {
        let row = &maze[j];
        proof {
            lemma_grid_index(maze, 0, j as int);
        }
        let mut i: usize = 0;
        while i < row.len()
            invariant
                i <= row.len(),
                j < maze.len(),
                g == grid(maze),
                g.len() == maze@.len(),
                row@ == g[j as int],
                forall|a: int, b: int|
                    0 <= b < j && 0 <= a < g[b].len() ==> #[trigger] g[b][a] != ch,
                forall|a: int| 0 <= a < i ==> g[j as int][a] != ch,
            decreases row.len() - i,
        {
            if row[i] == ch {
                return Some((i, j));
            }
            i += 1;
        }
        j += 1;
    }
    None
}

/// Appends one row to a maze.
fn push_row(maze: &mut Maze, row: Vec<char>)
    ensures
        grid(final(maze)) == grid(old(maze)).push(row@),
{
    maze.push(row);
    proof {
        let after = grid(maze);
        let wanted = grid(old(maze)).push(row@);
        assert(after.len() == wanted.len());
        assert forall|y: int| 0 <= y < after.len() implies after[y] == wanted[y] by {
            lemma_grid_index(maze, 0, y);
            if y < old(maze)@.len() {
                lemma_grid_index(old(maze), 0, y);
            }
        }
        assert(after =~= wanted);
    }
}

/// Reads a maze from text, one row per line and one cell per character.
/// Every character is kept as a cell tag, whatever it is.
pub fn parse_maze(text: &str) -> (maze: Maze)
    ensures
        grid(&maze) == lines_spec(text@),
{
    let mut maze: Maze = Vec::new();
    let mut line: Vec<char> = Vec::new();
    proof {
        assert(grid(&maze) =~= Seq::<Seq<char>>::empty());
        assert(line@ + text@.skip(0) =~= text@);
    }
    for c in it: text.chars()
        invariant
            it.seq() == text@,
            forall|i: int| 0 <= i < line@.len() ==> line@[i] != '\n',
            lines_spec(text@) == grid(&maze) + lines_spec(line@ + text@.skip(it.index() as int)),
    {
        let ghost pos = it.index() as int;
        let ghost rest = text@.skip(pos);
        let ghost whole = line@ + rest;
        proof {
            assert(rest[0] == c);
            assert(rest.skip(1) =~= text@.skip(pos + 1));
        }
        if c == '\n' {
            proof {
                lemma_first_newline_is(whole, line@.len() as int);
                assert(whole.take(line@.len() as int) =~= line@);
                assert(whole.skip(line@.len() as int + 1) =~= rest.skip(1));
            }
            let n: usize = line.len();
            if n > 0 && line[n - 1] == '\r' {
                line.pop();
            }
            push_row(&mut maze, line);
            line = Vec::new();
            proof {
                assert(line@ + text@.skip(pos + 1) =~= text@.skip(pos + 1));
            }
        } else {
            line.push(c);
            proof {
                assert(line@ + text@.skip(pos + 1) =~= whole);
            }
        }
    }
    proof {
        let pos = text@.len() as int;
        assert(line@ + text@.skip(pos) =~= line@);
        if line@.len() > 0 {
            lemma_first_newline_is(line@, line@.len() as int);
        }
    }
    if line.len() > 0 {
        push_row(&mut maze, line);
    }
    maze
}

/// World coordinate of the middle of cell number `index` along one axis.
pub fn cell_center(index: usize, block_size: usize) -> (center: usize)
    requires
        (index + 1) * block_size <= usize::MAX,
    ensures
        center == cell_center_spec(index as int, block_size as int),
{
    proof {
        assert((index + 1) * block_size == index * block_size + block_size) by (nonlinear_arith);
        assert(0 <= index * block_size) by (nonlinear_arith);
    }
    index * block_size + block_size / 2
}

/// Lists the walkable cells of a maze in reading order, as `(column, row)`.
pub fn free_cells(maze: &Maze) -> (cells: Vec<(usize, usize)>)
    ensures
        cells@ == free_cells_spec(grid(maze)),
{
    let ghost g = grid(maze);
    let mut cells: Vec<(usize, usize)> = Vec::new();
    let mut j: usize = 0;
    proof {
        assert(g.len() == maze@.len());
    }
    while j < maze.len()
        invariant
            j <= maze.len(),
            g == grid(maze),
            g.len() == maze@.len(),
            cells@ == free_in_rows(g, j as nat),
        decreases maze.len() - j,
    {
        let row = &maze[j];
        let ghost before = cells@;
        proof {
            lemma_grid_index(maze, 0, j as int);
        }
        let mut i: usize = 0;
        while i < row.len()
            invariant
                i <= row.len(),
                j < maze.len(),
                row@ == g[j as int],
                cells@ == before + free_in_row(row@, j as nat, i as nat),
            decreases row.len() - i,
        {
            if is_walkable(row[i]) {
                cells.push((i, j));
            }
            proof {
                let sofar = free_in_row(row@, j as nat, i as nat);
                if walkable(row@[i as int]) {
                    assert(before + sofar.push((i, j)) =~= (before + sofar).push((i, j)));
                }
            }
            i += 1;
        }
        j += 1;
    }
    cells
}

/// Tells whether the world of a maze fits the machine's integers at a cell
/// pitch of `block_size`.
pub fn world_fits(maze: &Maze, block_size: usize) -> (fits: bool)
    ensures
        fits == fits_world(grid(maze), block_size as int),
{
    let ghost g = grid(maze);
    let ghost bs = block_size as int;
    proof {
        assert(g.len() == maze@.len());
    }
    if !product_fits(maze.len(), block_size) {
        return false;
    }
    let mut y: usize = 0;
    while y < maze.len()
        invariant
            y <= maze.len(),
            g == grid(maze),
            g.len() == maze@.len(),
            bs == block_size as int,
            forall|j: int| 0 <= j < y ==> (#[trigger] g[j].len() + 1) * bs <= usize::MAX,
        decreases maze.len() - y,
    {
        proof {
            lemma_grid_index(maze, 0, y as int);
        }
        if !product_fits(maze[y].len(), block_size) {
            return false;
        }
        y += 1;
    }
    true
}

/// Tells whether `(count + 1) * block_size` fits a machine word.
fn product_fits(count: usize, block_size: usize) -> (fits: bool)
    ensures
        fits == ((count + 1) * block_size <= usize::MAX),
{
    proof {
        assert(0 <= (count + 1) * block_size <= 0x1_0000_0000_0000_0000 * 0xffff_ffff_ffff_ffff)
            by (nonlinear_arith)
            requires
                0 <= count <= 0xffff_ffff_ffff_ffff,
                0 <= block_size <= 0xffff_ffff_ffff_ffff,
        ;
    }
    (count as u128 + 1) * block_size as u128 <= usize::MAX as u128
}

} // verus!
