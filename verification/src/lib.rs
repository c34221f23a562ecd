//! One step of Conway's Game of Life on a rectangular grid of boolean cells.
//!
//! A grid is a vector of rows, each row a vector of cell states; `true` is a
//! live cell. `get_next` reads an immutable grid and builds a wholly new grid
//! in which every cell has been advanced one generation simultaneously.

#![verifier::loop_isolation(false)]

use vstd::prelude::*;

verus! {

/// One row of cell states; the index is the x-coordinate.
pub type Cells = Vec<bool>;

/// A rectangular grid of rows; the index is the y-coordinate.
pub type Grid = Vec<Cells>;

/// The number of rows of the grid.
pub open spec fn grid_height(g: Seq<Seq<bool>>) -> int {
    g.len() as int
}

/// The number of cells in each row: the first row's length, or 0 when the
/// grid has no rows.
pub open spec fn grid_width(g: Seq<Seq<bool>>) -> int {
    if g.len() == 0 {
        0
    } else {
        g[0].len() as int
    }
}

/// Every row has the same length: the grid is rectangular.
pub open spec fn is_rectangular(g: Seq<Seq<bool>>) -> bool {
    forall|y: int| 0 <= y < g.len() ==> (#[trigger] g[y].len()) as int == grid_width(g)
}

/// Whether (x, y) names a cell of the grid.
pub open spec fn in_bounds(x: int, y: int, g: Seq<Seq<bool>>) -> bool {
    0 <= x < grid_width(g) && 0 <= y < grid_height(g)
}

/// The cell state stored at (x, y).
pub open spec fn state_at(g: Seq<Seq<bool>>, x: int, y: int) -> bool {
    g[y][x]
}

/// The state at (x, y) as a one-element sequence, or the empty sequence when
/// (x, y) lies outside the grid.
pub open spec fn neighbour_slot(g: Seq<Seq<bool>>, x: int, y: int) -> Seq<bool> {
    if in_bounds(x, y, g) {
        seq![state_at(g, x, y)]
    } else {
        Seq::empty()
    }
}

/// The states of the in-bounds Moore neighbours of (x, y): the eight
/// surrounding offsets, y-offset ascending then x-offset ascending, with
/// out-of-bounds positions omitted.
pub open spec fn neighbour_states(g: Seq<Seq<bool>>, x: int, y: int) -> Seq<bool> {
    neighbour_slot(g, x - 1, y - 1) + neighbour_slot(g, x, y - 1) + neighbour_slot(g, x + 1, y - 1)
        + neighbour_slot(g, x - 1, y) + neighbour_slot(g, x + 1, y) + neighbour_slot(
        g,
        x - 1,
        y + 1,
    ) + neighbour_slot(g, x, y + 1) + neighbour_slot(g, x + 1, y + 1)
}

/// How many of the states in the sequence are alive.
pub open spec fn alive_count(s: Seq<bool>) -> nat
    decreases s.len(),
{
    if s.len() == 0 {
        0
    } else {
        alive_count(s.drop_last()) + (if s.last() {
            1nat
        } else {
            0nat
        })
    }
}

/// The rule of the automaton: a cell is alive in the next generation iff it
/// has exactly 3 live neighbours, or it is alive now and has exactly 2.
pub open spec fn next_state(current: bool, alive_neighbours: int) -> bool {
    alive_neighbours == 3 || (current && alive_neighbours == 2)
}

/// The grid one generation later: the same shape, every cell the rule
/// applied to its current state and live-neighbour count, both read from the
/// original grid alone.
pub open spec fn next_grid(g: Seq<Seq<bool>>) -> Seq<Seq<bool>> {
    Seq::new(
        g.len(),
        |y: int|
            Seq::new(
                g[y].len(),
                |x: int|
                    next_state(state_at(g, x, y), alive_count(neighbour_states(g, x, y)) as int),
            ),
    )
}

/// No sequence holds more live states than states.
proof fn lemma_alive_count_le_len(s: Seq<bool>)
    ensures
        alive_count(s) <= s.len(),
    decreases s.len(),
{
    if s.len() > 0 {
        lemma_alive_count_le_len(s.drop_last());
    }
}

/// A cell has at most 8 neighbour states: each of the 8 slots holds at most
/// one.
proof fn lemma_neighbour_states_len(g: Seq<Seq<bool>>, x: int, y: int)
    ensures
        neighbour_states(g, x, y).len() <= 8,
{
}

/// A position strictly inside the grid, on no edge, has exactly 8
/// neighbour states.
pub proof fn lemma_neighbour_count_interior(g: Seq<Seq<bool>>, x: int, y: int)
    requires
        1 <= x < grid_width(g) - 1,
        1 <= y < grid_height(g) - 1,
    ensures
        neighbour_states(g, x, y).len() == 8,
{
}

/// A position on exactly one edge of the grid, and on no corner, has
/// exactly 5 neighbour states.
pub proof fn lemma_neighbour_count_edge(g: Seq<Seq<bool>>, x: int, y: int)
    requires
        in_bounds(x, y, g),
        ({
            let w = grid_width(g);
            let h = grid_height(g);
            ||| (x == 0 && x < w - 1 && 1 <= y < h - 1)
            ||| (x == w - 1 && 0 < x && 1 <= y < h - 1)
            ||| (y == 0 && y < h - 1 && 1 <= x < w - 1)
            ||| (y == h - 1 && 0 < y && 1 <= x < w - 1)
        }),
    ensures
        neighbour_states(g, x, y).len() == 5,
{
}

/// A corner of a grid at least two cells wide and two cells high has exactly
/// 3 neighbour states.
pub proof fn lemma_neighbour_count_corner(g: Seq<Seq<bool>>, x: int, y: int)
    requires
        in_bounds(x, y, g),
        2 <= grid_width(g),
        2 <= grid_height(g),
        x == 0 || x == grid_width(g) - 1,
        y == 0 || y == grid_height(g) - 1,
    ensures
        neighbour_states(g, x, y).len() == 3,
{
}

/// All cell updates are simultaneous: every cell of the next grid is the
/// rule applied to that cell's current state and live-neighbour count, both
/// read from the original grid alone, never from partial results.
pub proof fn lemma_next_cell(g: Seq<Seq<bool>>, x: int, y: int)
    requires
        0 <= y < g.len(),
        0 <= x < g[y].len(),
    ensures
        next_grid(g)[y][x] == next_state(
            state_at(g, x, y),
            alive_count(neighbour_states(g, x, y)) as int,
        ),
{
}

/// One step preserves the grid's dimensions: the next grid has as many rows,
/// and every row keeps its length.
pub proof fn lemma_next_preserves_dimensions(g: Seq<Seq<bool>>)
    ensures
        next_grid(g).len() == g.len(),
        forall|y: int| 0 <= y < g.len() ==> (#[trigger] next_grid(g)[y]).len() == g[y].len(),
{
}

/// One step of a rectangular grid is rectangular again, with the same width.
pub proof fn lemma_next_preserves_rectangular(g: Seq<Seq<bool>>)
    requires
        is_rectangular(g),
    ensures
        is_rectangular(next_grid(g)),
        grid_width(next_grid(g)) == grid_width(g),
{
    lemma_next_preserves_dimensions(g);
}

/// A row of the grid, seen through the grid's deep view, is that row's own
/// view.
proof fn lemma_row_view(g: &Grid, y: int)
    requires
        0 <= y < g@.len(),
    ensures
        g.deep_view()[y] == g@[y]@,
{
    assert(g.deep_view()[y] =~= g@[y]@);
}

/// A candidate cell position; it may lie outside any given grid.
pub struct Point {
    pub x: i32,
    pub y: i32,
}

impl Point {
    /// Whether this position lies inside the grid. A grid with no rows
    /// contains no position at all.
    pub fn is_in(&self, grid: &Grid) -> (r: bool)
        ensures
            r == in_bounds(self.x as int, self.y as int, grid.deep_view()),
    {
        self.y >= 0 && (self.y as usize) < grid.len() && self.x >= 0 && (self.x as usize)
            < grid[0].len()
    }

    /// The cell state stored at this position. The position must be known to
    /// be inside the grid; callers check `is_in` first.
    pub fn get_state_in(&self, grid: &Grid) -> (r: bool)
        requires
            is_rectangular(grid.deep_view()),
            in_bounds(self.x as int, self.y as int, grid.deep_view()),
        ensures
            r == state_at(grid.deep_view(), self.x as int, self.y as int),
    {
        proof {
            lemma_row_view(grid, self.y as int);
        }
        grid[self.y as usize][self.x as usize]
    }

    /// The states of this position's in-bounds Moore neighbours, collected
    /// with the y-offset ascending and, within each y-offset, the x-offset
    /// ascending, the zero offset skipped.
    pub fn get_neighbour_states_in(&self, grid: &Grid) -> (r: Cells)
        requires
            is_rectangular(grid.deep_view()),
            i32::MIN < self.x < i32::MAX,
            i32::MIN < self.y < i32::MAX,
        ensures
            r@ == neighbour_states(grid.deep_view(), self.x as int, self.y as int),
    {
        let mut states: Cells = Vec::new();
        push_neighbour_state(&mut states, self.x - 1, self.y - 1, grid);
        push_neighbour_state(&mut states, self.x, self.y - 1, grid);
        push_neighbour_state(&mut states, self.x + 1, self.y - 1, grid);
        push_neighbour_state(&mut states, self.x - 1, self.y, grid);
        push_neighbour_state(&mut states, self.x + 1, self.y, grid);
        push_neighbour_state(&mut states, self.x - 1, self.y + 1, grid);
        push_neighbour_state(&mut states, self.x, self.y + 1, grid);
        push_neighbour_state(&mut states, self.x + 1, self.y + 1, grid);
        proof {
            assert(states@ =~= neighbour_states(
                grid.deep_view(),
                self.x as int,
                self.y as int,
            ));
        }
        states
    }

    /// The state this position takes in the next generation, read entirely
    /// from the given grid.
    pub fn get_next_state_in(&self, grid: &Grid) -> (r: bool)
        requires
            is_rectangular(grid.deep_view()),
            in_bounds(self.x as int, self.y as int, grid.deep_view()),
            self.x < i32::MAX,
            self.y < i32::MAX,
        ensures
            r == next_state(
                state_at(grid.deep_view(), self.x as int, self.y as int),
                alive_count(neighbour_states(grid.deep_view(), self.x as int, self.y as int))
                    as int,
            ),
    {
        let current = self.get_state_in(grid);
        let neighbours = self.get_neighbour_states_in(grid);
        let alive = count_alive(&neighbours);
        proof {
            lemma_neighbour_states_len(grid.deep_view(), self.x as int, self.y as int);
            lemma_alive_count_le_len(neighbours@);
        }
        get_next_state_from(current, alive as u8)
    }
}

/// The rule of the automaton on a current state and a live-neighbour count:
/// birth or survival exactly at 3 live neighbours, survival at exactly 2.
pub fn get_next_state_from(current_state: bool, alive_neighbours_count: u8) -> (r: bool)
    ensures
        r == next_state(current_state, alive_neighbours_count as int),
{
    alive_neighbours_count == 3 || (current_state && alive_neighbours_count == 2)
}

/// Counts the live states among the given cell states.
fn count_alive(states: &Cells) -> (n: usize)
    ensures
        n == alive_count(states@),
{
    let mut n: usize = 0;
    let mut i: usize = 0;
    while i < states.len()
        invariant
            i <= states.len(),
            n <= i,
            n == alive_count(states@.subrange(0, i as int)),
        decreases states.len() - i,
    {
        proof {
            assert(states@.subrange(0, i + 1).drop_last() =~= states@.subrange(0, i as int));
        }
        if states[i] {
            n = n + 1;
        }
        i = i + 1;
    }
    proof {
        assert(states@.subrange(0, states@.len() as int) =~= states@);
    }
    n
}

/// One row of the next generation of the grid.
fn next_row(grid: &Grid, y: usize) -> (row: Cells)
    requires
        is_rectangular(grid.deep_view()),
        y < grid.len(),
        grid.len() <= i32::MAX as usize,
        grid_width(grid.deep_view()) <= i32::MAX as int,
    ensures
        row@ == next_grid(grid.deep_view())[y as int],
{
    let ghost gv = grid.deep_view();
    proof {
        lemma_row_view(grid, y as int);
    }
    let width = grid[y].len();
    let mut row: Cells = Vec::new();
    let mut x: usize = 0;
    while x < width
        invariant
            row@.len() == x,
            x <= width,
            forall|i: int| 0 <= i < x ==> row@[i] == next_grid(gv)[y as int][i],
        decreases width - x,
    {
        let p = Point { x: x as i32, y: y as i32 };
        row.push(p.get_next_state_in(grid));
        x = x + 1;
    }
    proof {
        assert(row@ =~= next_grid(gv)[y as int]);
    }
    row
}

/// One simultaneous step of the automaton: a new grid of the same shape in
/// which every cell has been advanced one generation, each next state read
/// only from the original grid. The input grid is not changed.
pub fn get_next(grid: &Grid) -> (r: Grid)
    requires
        is_rectangular(grid.deep_view()),
        grid.len() <= i32::MAX as usize,
        grid_width(grid.deep_view()) <= i32::MAX as int,
    ensures
        r.deep_view() == next_grid(grid.deep_view()),
{
    let ghost gv = grid.deep_view();
    let mut rows: Grid = Vec::new();
    let mut y: usize = 0;
    while y < grid.len()
        invariant
            rows@.len() == y,
            y <= grid.len(),
            forall|j: int| 0 <= j < y ==> (#[trigger] rows@[j])@ == next_grid(gv)[j],
        decreases grid.len() - y,
    {
        let row = next_row(grid, y);
        rows.push(row);
        y = y + 1;
    }
    proof {
        assert forall|j: int| 0 <= j < rows@.len() implies rows.deep_view()[j] == next_grid(gv)[j]
        by {
            lemma_row_view(&rows, j);
        }
        assert(rows.deep_view() =~= next_grid(gv));
    }
    rows
}

/// Appends the state at (x, y) to the collected neighbour states when that
/// position lies inside the grid, and leaves them unchanged otherwise.
fn push_neighbour_state(states: &mut Vec<bool>, x: i32, y: i32, grid: &Grid)
    requires
        is_rectangular(grid.deep_view()),
    ensures
        final(states)@ == old(states)@ + neighbour_slot(grid.deep_view(), x as int, y as int),
{
    let p = Point { x: x, y: y };
    if p.is_in(grid) {
        states.push(p.get_state_in(grid));
    }
    proof {
        assert(states@ =~= old(states)@ + neighbour_slot(grid.deep_view(), x as int, y as int));
    }
}

} // verus!
