//! The world: a fixed rectangle of cells stored row by row, the rule that takes
//! one generation to the next, and the simulation state.

use vstd::prelude::*;
use crate::state::State;
use crate::text::{is_initial_status, TextBlock};

verus! {

/// Side of one cell on screen, in pixels.
pub const PIXEL_SIZE: u32 = 2;

/// Columns of the standard world.
pub const WIDTH: u32 = 2560 / PIXEL_SIZE;

/// Rows of the standard world.
pub const HEIGHT: u32 = 1440 / PIXEL_SIZE;

/// What a world holds: `cells[x + y * width]` is the cell in column `x` of row `y`.
pub struct WorldView {
    pub width: nat,
    pub height: nat,
    pub cells: Seq<bool>,
    pub state: State,
}

/// 1 for a live cell, 0 for a dead one.
pub open spec fn one_if(alive: bool) -> nat {
    if alive {
        1
    } else {
        0
    }
}

/// The number of live cells in a sequence of cells.
pub open spec fn count_live(cells: Seq<bool>) -> nat
    decreases cells.len(),
{
    if cells.len() == 0 {
        0
    } else {
        count_live(cells.drop_last()) + one_if(cells.last())
    }
}

/// The birth and survival rule: with fewer than 2 or more than 3 live
/// neighbours a cell is dead in the next generation, with exactly 3 it is
/// alive, and with exactly 2 it stays as it is.
pub open spec fn rule(alive: bool, neighbors: nat) -> bool {
    if neighbors < 2 || neighbors > 3 {
        false
    } else if neighbors == 3 {
        true
    } else {
        alive
    }
}

impl WorldView {
    /// There is exactly one cell for each coordinate pair.
    pub open spec fn wf(self) -> bool {
        self.cells.len() == self.width * self.height
    }

    /// Whether `(x, y)` lies inside the grid.
    pub open spec fn in_bounds(self, x: int, y: int) -> bool {
        0 <= x < self.width && 0 <= y < self.height
    }

    /// The index at which the cell at `(x, y)` is stored.
    pub open spec fn index_of(self, x: int, y: int) -> int {
        x + y * self.width
    }

    /// Column of the cell stored at index `i`.
    pub open spec fn column_of(self, i: int) -> int {
        i % (self.width as int)
    }

    /// Row of the cell stored at index `i`.
    pub open spec fn row_of(self, i: int) -> int {
        i / (self.width as int)
    }

    /// The cell at `(x, y)`, or `None` outside the grid.
    pub open spec fn get(self, x: int, y: int) -> Option<bool> {
        if self.in_bounds(x, y) {
            Some(self.cells[self.index_of(x, y)])
        } else {
            None
        }
    }

    /// Whether `(x, y)` is a live cell; a place outside the grid is not.
    pub open spec fn alive(self, x: int, y: int) -> bool {
        self.get(x, y) == Some(true)
    }

    /// The number of live cells among the eight neighbours of `(x, y)`. The
    /// grid has hard edges: neighbours beyond them count as dead.
    pub open spec fn live_neighbors(self, x: int, y: int) -> nat {
        one_if(self.alive(x - 1, y - 1)) + one_if(self.alive(x, y - 1)) + one_if(
            self.alive(x + 1, y - 1),
        ) + one_if(self.alive(x - 1, y)) + one_if(self.alive(x + 1, y)) + one_if(
            self.alive(x - 1, y + 1),
        ) + one_if(self.alive(x, y + 1)) + one_if(self.alive(x + 1, y + 1))
    }

    /// The cell stored at index `i` as it is in the next generation.
    pub open spec fn next_cell(self, i: int) -> bool {
        rule(self.cells[i], self.live_neighbors(self.column_of(i), self.row_of(i)))
    }

    /// The next generation: every cell follows the rule on the neighbours it
    /// has in this generation.
    pub open spec fn next_generation(self) -> WorldView {
        WorldView { cells: Seq::new(self.cells.len(), |i: int| self.next_cell(i)), ..self }
    }

    /// The same world with every cell dead.
    pub open spec fn cleared(self) -> WorldView {
        WorldView { cells: Seq::new(self.cells.len(), |i: int| false), ..self }
    }

    /// The same world with the cell at `(x, y)` set to `value`; unchanged where
    /// `(x, y)` is outside the grid.
    pub open spec fn with_cell(self, x: int, y: int, value: bool) -> WorldView {
        if self.in_bounds(x, y) {
            WorldView { cells: self.cells.update(self.index_of(x, y), value), ..self }
        } else {
            self
        }
    }

    /// The same world in the other simulation state.
    pub open spec fn toggled(self) -> WorldView {
        WorldView { state: self.state.flipped(), ..self }
    }

    /// The number of live cells.
    pub open spec fn live_count(self) -> nat {
        count_live(self.cells)
    }
}

/// Every coordinate pair inside the grid has an index of its own below
/// `width * height`, from which column and row are found again.
pub proof fn lemma_index_in_range(g: WorldView, x: int, y: int)
    requires
        g.in_bounds(x, y),
    ensures
        0 <= g.index_of(x, y) < g.width * g.height,
        g.column_of(g.index_of(x, y)) == x,
        g.row_of(g.index_of(x, y)) == y,
{
    let w = g.width as int;
    let h = g.height as int;
    assert(y * w <= (h - 1) * w) by (nonlinear_arith)
        requires
            y <= h - 1,
            w >= 0,
    ;
    assert((h - 1) * w == h * w - w) by (nonlinear_arith);
    assert(0 <= y * w) by (nonlinear_arith)
        requires
            0 <= y,
            0 <= w,
    ;
    vstd::arithmetic::div_mod::lemma_fundamental_div_mod_converse(x + y * w, w, y, x);
}

/// Every index below `width * height` is the index of its column and row,
/// which lie inside the grid.
pub proof fn lemma_index_to_coordinates(g: WorldView, i: int)
    requires
        0 <= i < g.width * g.height,
    ensures
        g.in_bounds(g.column_of(i), g.row_of(i)),
        g.index_of(g.column_of(i), g.row_of(i)) == i,
{
    let w = g.width as int;
    let h = g.height as int;
    assert(w > 0) by (nonlinear_arith)
        requires
            0 <= i < w * h,
            0 <= w,
    ;
    vstd::arithmetic::div_mod::lemma_fundamental_div_mod(i, w);
    vstd::arithmetic::div_mod::lemma_mod_bound(i, w);
    vstd::arithmetic::div_mod::lemma_div_pos_is_pos(i, w);
    assert(w * (i / w) == (i / w) * w) by (nonlinear_arith);
    if i / w >= h {
        assert((i / w) * w >= h * w) by (nonlinear_arith)
            requires
                i / w >= h,
                w > 0,
        ;
        assert(w * h == h * w) by (nonlinear_arith);
    }
}

/// A sequence of dead cells has no live cell.
pub proof fn lemma_count_live_of_dead(cells: Seq<bool>)
    requires
        forall|i: int| 0 <= i < cells.len() ==> !cells[i],
    ensures
        count_live(cells) == 0,
    decreases cells.len(),
{
    if cells.len() > 0 {
        lemma_count_live_of_dead(cells.drop_last());
    }
}

/// A cleared world has no live cell, whatever it held before, and clearing it
/// again changes nothing.
pub proof fn lemma_cleared_is_empty(g: WorldView)
    ensures
        g.cleared().live_count() == 0,
        g.cleared().cleared() == g.cleared(),
        g.cleared().state == g.state,
{
    lemma_count_live_of_dead(g.cleared().cells);
    assert(g.cleared().cleared().cells =~= g.cleared().cells);
}

/// Toggling the simulation state twice leads back to where it was, and the
/// cells are not touched on the way.
pub proof fn lemma_toggle_twice(g: WorldView)
    ensures
        g.toggled().toggled() == g,
        g.toggled().cells == g.cells,
{
}

/// The next generation is a function of the generation before it and of
/// nothing else: worlds of the same size with the same cells get the same
/// cells, whatever their simulation states.
pub proof fn lemma_next_generation_is_determined(a: WorldView, b: WorldView)
    requires
        a.width == b.width,
        a.height == b.height,
        a.cells == b.cells,
    ensures
        a.next_generation().cells == b.next_generation().cells,
{
    assert forall|i: int| 0 <= i < a.cells.len() implies a.next_cell(i) == b.next_cell(i) by {
        let x = a.column_of(i);
        let y = a.row_of(i);
        assert(a.live_neighbors(x, y) == b.live_neighbors(x, y));
    }
    assert(a.next_generation().cells =~= b.next_generation().cells);
}

/// The grid, the simulation state and the status label shown over the grid.
pub struct World {
    width: u32,
    height: u32,
    m_playground: Vec<bool>,
    m_state: State,
    m_text: TextBlock,
}

impl View for World {
    type V = WorldView;

    closed spec fn view(&self) -> WorldView {
        WorldView {
            width: self.width as nat,
            height: self.height as nat,
            cells: self.m_playground@,
            state: self.m_state,
        }
    }
}

impl World {
    /// The grid never changes size: it holds one cell for each coordinate pair.
    #[verifier::type_invariant]
    pub open spec fn inv(self) -> bool {
        self@.wf()
    }

    /// The status label of this world.
    pub closed spec fn label(&self) -> TextBlock {
        self.m_text
    }

    /// The standard world, `WIDTH` by `HEIGHT`: every cell dead, paused, with
    /// the status label of a world that has not run yet.
    pub fn new() -> (world: World)
        ensures
            world@.wf(),
            world@.width == WIDTH,
            world@.height == HEIGHT,
            world@.cells == Seq::new((WIDTH * HEIGHT) as nat, |i: int| false),
            world@.state == State::Paused,
            is_initial_status(world.label()),
    {
        World::with_size(WIDTH, HEIGHT)
    }

    /// A world of `width` columns and `height` rows: every cell dead, paused,
    /// with the status label of a world that has not run yet.
    pub fn with_size(width: u32, height: u32) -> (world: World)
        requires
            width * height <= usize::MAX,
        ensures
            world@.wf(),
            world@.width == width,
            world@.height == height,
            world@.cells == Seq::new((width * height) as nat, |i: int| false),
            world@.state == State::Paused,
            is_initial_status(world.label()),
    {
        assert(width * height <= u32::MAX * u32::MAX) by (nonlinear_arith)
            requires
                0 <= width <= u32::MAX,
                0 <= height <= u32::MAX,
        ;
        let n: u64 = width as u64 * height as u64;
        let cells: Vec<bool> = vec![false; n as usize];
        assert(cells@ =~= Seq::new((width * height) as nat, |i: int| false));
        World {
            width,
            height,
            m_playground: cells,
            m_state: State::Paused,
            m_text: TextBlock::status(),
        }
    }

    /// The number of columns.
    pub fn width(&self) -> (w: u32)
        ensures
            w == self@.width,
            self@.wf(),
    {
        proof {
            use_type_invariant(self);
        }
        self.width
    }

    /// The number of rows.
    pub fn height(&self) -> (h: u32)
        ensures
            h == self@.height,
            self@.wf(),
    {
        proof {
            use_type_invariant(self);
        }
        self.height
    }

    /// The simulation state.
    pub fn state(&self) -> (s: State)
        ensures
            s == self@.state,
    {
        self.m_state
    }

    /// The status label.
    pub fn text(&self) -> (t: &TextBlock)
        ensures
            *t == self.label(),
    {
        &self.m_text
    }

    /// Replaces the status label; grid and state stay as they are.
    pub fn set_text(&mut self, text: TextBlock)
        ensures
            final(self).label() == text,
            final(self)@ == old(self)@,
    {
        proof {
            use_type_invariant(&*self);
        }
        self.m_text = text;
    }

    /// Replaces the text of the status label; its place, colour and font, the
    /// grid and the state stay as they are.
    pub fn set_status(&mut self, text: String)
        ensures
            final(self).label() == (TextBlock { text, ..old(self).label() }),
            final(self)@ == old(self)@,
    {
        proof {
            use_type_invariant(&*self);
        }
        self.m_text.text = text;
    }

    /// The cells, row by row.
    pub fn cells(&self) -> (cells: &Vec<bool>)
        ensures
            cells@ == self@.cells,
            self@.wf(),
    {
        proof {
            use_type_invariant(self);
        }
        &self.m_playground
    }

    /// Where the cell at `(x, y)` is stored.
    fn offset(&self, x: u32, y: u32) -> (i: usize)
        requires
            self@.in_bounds(x as int, y as int),
        ensures
            i == self@.index_of(x as int, y as int),
            i < self@.cells.len(),
    {
        let total: usize = self.m_playground.len();
        proof {
            use_type_invariant(self);
            lemma_index_in_range(self@, x as int, y as int);
            assert(0 <= y * self.width) by (nonlinear_arith)
                requires
                    0 <= y,
                    0 <= self.width,
            ;
            assert(x + y * self.width < total);
        }
        x as usize + (y as usize) * (self.width as usize)
    }

    /// The cell at `(x, y)`; `None` for a coordinate outside the grid.
    pub fn get(&self, x: i32, y: i32) -> (cell: Option<bool>)
        ensures
            cell == self@.get(x as int, y as int),
            cell is None <==> x < 0 || y < 0 || x >= self@.width || y >= self@.height,
    {
        if x >= 0 && y >= 0 && (x as u32) < self.width && (y as u32) < self.height {
            let i: usize = self.offset(x as u32, y as u32);
            Some(self.m_playground[i])
        } else {
            None
        }
    }

    /// A handle on the cell at `(x, y)` through which it can be overwritten;
    /// `None`, and nothing to write to, for a coordinate outside the grid.
    pub fn get_mut(&mut self, x: i32, y: i32) -> (cell: Option<&mut bool>)
        ensures
            cell is None <==> x < 0 || y < 0 || x >= old(self)@.width || y >= old(self)@.height,
            cell is None ==> *final(self) == *old(self),
            cell matches Some(c) ==> {
                &&& Some(*c) == old(self)@.get(x as int, y as int)
                &&& final(self)@ == old(self)@.with_cell(x as int, y as int, *final(c))
                &&& final(self).label() == old(self).label()
            },
    {
        proof {
            use_type_invariant(&*self);
        }
        if x >= 0 && y >= 0 && (x as u32) < self.width && (y as u32) < self.height {
            let i: usize = self.offset(x as u32, y as u32);
            Some(&mut self.m_playground[i])
        } else {
            None
        }
    }

    /// Flips the simulation state between paused and playing; the cells stay
    /// as they are.
    pub fn toggle_state(&mut self)
        ensures
            final(self)@ == old(self)@.toggled(),
            final(self).label() == old(self).label(),
    {
        proof {
            use_type_invariant(&*self);
        }
        self.m_state = self.m_state.toggled();
    }

    /// Sets every cell to dead. The simulation state stays as it is.
    pub fn clear(&mut self)
        ensures
            final(self)@ == old(self)@.cleared(),
            final(self)@.live_count() == 0,
            final(self).label() == old(self).label(),
    {
        proof {
            use_type_invariant(&*self);
        }
        let n: usize = self.m_playground.len();
        let cells: Vec<bool> = vec![false; n];
        self.m_playground = cells;
        proof {
            assert(self@.cells =~= old(self)@.cleared().cells);
            lemma_count_live_of_dead(self@.cells);
        }
    }

    /// The number of live cells. The world stays as it is.
    pub fn num_alive(&mut self) -> (count: usize)
        ensures
            count == old(self)@.live_count(),
            *final(self) == *old(self),
    {
        let n: usize = self.m_playground.len();
        let mut count: usize = 0;
        let mut i: usize = 0;
        while i < n
            invariant
                *self == *old(self),
                n == self.m_playground@.len(),
                i <= n,
                count <= i,
                count == count_live(self.m_playground@.take(i as int)),
            decreases n - i,
        {
            proof {
                assert(self.m_playground@.take(i + 1).drop_last() =~= self.m_playground@.take(
                    i as int,
                ));
            }
            if self.m_playground[i] {
                count = count + 1;
            }
            i = i + 1;
        }
        proof {
            assert(self.m_playground@.take(n as int) =~= self.m_playground@);
        }
        count
    }

    /// Whether `(x, y)` is a live cell; a place outside the grid is not.
    pub fn is_alive(&self, x: i64, y: i64) -> (alive: bool)
        ensures
            alive == self@.alive(x as int, y as int),
    {
        if x >= 0 && y >= 0 && x < self.width as i64 && y < self.height as i64 {
            let i: usize = self.offset(x as u32, y as u32);
            self.m_playground[i]
        } else {
            false
        }
    }

    /// Sets the cell at `(x, y)` to live; does nothing for a place outside the
    /// grid.
    pub fn set_alive(&mut self, x: i64, y: i64)
        ensures
            final(self)@ == old(self)@.with_cell(x as int, y as int, true),
            final(self).label() == old(self).label(),
    {
        proof {
            use_type_invariant(&*self);
        }
        if x >= 0 && y >= 0 && x < self.width as i64 && y < self.height as i64 {
            let i: usize = self.offset(x as u32, y as u32);
            self.m_playground[i] = true;
        }
    }

    /// The number of live cells among the eight neighbours of `(x, y)`.
    fn live_neighbors(&self, x: i64, y: i64) -> (count: u8)
        requires
            -1 <= x <= u32::MAX,
            -1 <= y <= u32::MAX,
        ensures
            count == self@.live_neighbors(x as int, y as int),
    {
        let mut count: u8 = 0;
        if self.is_alive(x - 1, y - 1) {
            count = count + 1;
        }
        if self.is_alive(x, y - 1) {
            count = count + 1;
        }
        if self.is_alive(x + 1, y - 1) {
            count = count + 1;
        }
        if self.is_alive(x - 1, y) {
            count = count + 1;
        }
        if self.is_alive(x + 1, y) {
            count = count + 1;
        }
        if self.is_alive(x - 1, y + 1) {
            count = count + 1;
        }
        if self.is_alive(x, y + 1) {
            count = count + 1;
        }
        if self.is_alive(x + 1, y + 1) {
            count = count + 1;
        }
        count
    }

    /// Replaces the cells by the next generation. Every new cell is computed
    /// from the generation before the call; state and label stay as they are.
    pub fn update(&mut self)
        ensures
            final(self)@ == old(self)@.next_generation(),
            final(self).label() == old(self).label(),
    {
        proof {
            use_type_invariant(&*self);
        }
        let n: usize = self.m_playground.len();
        let mut next: Vec<bool> = Vec::with_capacity(n);
        let mut i: usize = 0;
        while i < n
            invariant
                *self == *old(self),
                self@.wf(),
                n == self@.cells.len(),
                i <= n,
                next@.len() == i,
                forall|j: int| 0 <= j < i ==> next@[j] == self@.next_cell(j),
            decreases n - i,
        {
            proof {
                lemma_index_to_coordinates(self@, i as int);
            }
            let x: usize = i % (self.width as usize);
            let y: usize = i / (self.width as usize);
            let count: u8 = self.live_neighbors(x as i64, y as i64);
            let alive: bool = self.m_playground[i];
            let cell: bool = if count < 2 || count > 3 {
                false
            } else if count == 3 {
                true
            } else {
                alive
            };
            next.push(cell);
            i = i + 1;
        }
        self.m_playground = next;
        proof {
            assert(self@.cells =~= old(self)@.next_generation().cells);
        }
    }
}

impl Default for World {
    fn default() -> (world: World)
        ensures
            world@.wf(),
            world@.width == WIDTH,
            world@.height == HEIGHT,
            world@.cells == Seq::new((WIDTH * HEIGHT) as nat, |i: int| false),
            world@.state == State::Paused,
            is_initial_status(world.label()),
    {
        World::new()
    }
}

impl<'a> IntoIterator for &'a World {
    type Item = &'a bool;

    type IntoIter = std::slice::Iter<'a, bool>;

    /// The cells, row by row.
    fn into_iter(self) -> (iter: std::slice::Iter<'a, bool>)
        ensures
            vstd::std_specs::slice::into_iter_elts(iter) == self@.cells,
    {
        self.m_playground.iter()
    }
}

} // verus!
