//! Known patterns of the rule: a still life and an oscillator.

use vstd::prelude::*;
use crate::world::{lemma_index_in_range, lemma_index_to_coordinates, WorldView};

verus! {

/// Whether the live cells of `g` are exactly the two-by-two block whose top
/// left cell is `(x, y)`.
pub open spec fn is_block(g: WorldView, x: int, y: int) -> bool {
    forall|cx: int, cy: int| #[trigger]
        g.alive(cx, cy) <==> (x <= cx <= x + 1 && y <= cy <= y + 1)
}

/// Whether the live cells of `g` are exactly the three cells of row `y` around
/// column `x`.
pub open spec fn is_row_of_three(g: WorldView, x: int, y: int) -> bool {
    forall|cx: int, cy: int| #[trigger]
        g.alive(cx, cy) <==> (cy == y && x - 1 <= cx <= x + 1)
}

/// Whether the live cells of `g` are exactly the three cells of column `x`
/// around row `y`.
pub open spec fn is_column_of_three(g: WorldView, x: int, y: int) -> bool {
    forall|cx: int, cy: int| #[trigger]
        g.alive(cx, cy) <==> (cx == x && y - 1 <= cy <= y + 1)
}

/// Inside the grid, a cell is live exactly if its place is.
proof fn lemma_cell_is_alive(g: WorldView, i: int)
    requires
        g.wf(),
        0 <= i < g.cells.len(),
    ensures
        g.cells[i] == g.alive(g.column_of(i), g.row_of(i)),
        g.in_bounds(g.column_of(i), g.row_of(i)),
{
    lemma_index_to_coordinates(g, i);
}

/// In the next generation a place inside the grid is live exactly if the rule
/// makes its cell live, and the places outside stay dead.
proof fn lemma_next_alive(g: WorldView, x: int, y: int)
    requires
        g.wf(),
    ensures
        g.next_generation().alive(x, y) == (g.in_bounds(x, y) && crate::world::rule(
            g.alive(x, y),
            g.live_neighbors(x, y),
        )),
{
    if g.in_bounds(x, y) {
        lemma_index_in_range(g, x, y);
    }
}

/// A two-by-two block with nothing else alive is a still life: the next
/// generation is the same as this one.
pub proof fn lemma_block_is_still(g: WorldView, x: int, y: int)
    requires
        g.wf(),
        is_block(g, x, y),
    ensures
        g.next_generation() == g,
{
    assert forall|i: int| 0 <= i < g.cells.len() implies g.next_cell(i) == g.cells[i] by {
        lemma_cell_is_alive(g, i);
    }
    assert(g.next_generation().cells =~= g.cells);
}

/// A row of three with nothing else alive, and with room above and below,
/// becomes the column of three around the same centre.
pub proof fn lemma_row_of_three_turns(g: WorldView, x: int, y: int)
    requires
        g.wf(),
        is_row_of_three(g, x, y),
        g.in_bounds(x, y - 1),
        g.in_bounds(x, y + 1),
    ensures
        is_column_of_three(g.next_generation(), x, y),
{
    assert forall|cx: int, cy: int| #[trigger]
        g.next_generation().alive(cx, cy) <==> (cx == x && y - 1 <= cy <= y + 1) by {
        lemma_next_alive(g, cx, cy);
    }
}

/// A column of three with nothing else alive, and with room to the left and
/// to the right, becomes the row of three around the same centre.
pub proof fn lemma_column_of_three_turns(g: WorldView, x: int, y: int)
    requires
        g.wf(),
        is_column_of_three(g, x, y),
        g.in_bounds(x - 1, y),
        g.in_bounds(x + 1, y),
    ensures
        is_row_of_three(g.next_generation(), x, y),
{
    assert forall|cx: int, cy: int| #[trigger]
        g.next_generation().alive(cx, cy) <==> (cy == y && x - 1 <= cx <= x + 1) by {
        lemma_next_alive(g, cx, cy);
    }
}

/// The blinker has period two: a row of three with room above and below is
/// back after two generations.
pub proof fn lemma_blinker_returns(g: WorldView, x: int, y: int)
    requires
        g.wf(),
        is_row_of_three(g, x, y),
        g.in_bounds(x, y - 1),
        g.in_bounds(x, y + 1),
    ensures
        is_column_of_three(g.next_generation(), x, y),
        g.next_generation().next_generation() == g,
{
    let turned = g.next_generation();
    let back = turned.next_generation();
    lemma_row_of_three_turns(g, x, y);
    assert(g.alive(x - 1, y) && g.alive(x + 1, y));
    lemma_column_of_three_turns(turned, x, y);
    assert forall|i: int| 0 <= i < g.cells.len() implies back.cells[i] == g.cells[i] by {
        lemma_cell_is_alive(g, i);
        lemma_cell_is_alive(back, i);
    }
    assert(back.cells =~= g.cells);
}

} // verus!
