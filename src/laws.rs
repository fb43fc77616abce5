//! What holds across the operations of a grid.

use vstd::prelude::*;

use crate::rule::{lemma_index_in_range, lemma_position_in_range, next_state, GridModel, IterModel};

verus! {

/// Every index of a grid is a position's index: taking an index to its
/// position and back gives the same index.
pub proof fn lemma_index_position_round_trip(g: GridModel, index: int)
    requires
        g.wf(),
        0 <= index < g.size(),
    ensures
        g.in_range(g.position_of(index).0, g.position_of(index).1),
        g.index_of(g.position_of(index).0, g.position_of(index).1) == index,
{
    lemma_position_in_range(g, index);
}

/// Every position of a grid is an index's position: taking a position to
/// its index and back gives the same position.
pub proof fn lemma_position_index_round_trip(g: GridModel, x: int, y: int)
    requires
        g.wf(),
        g.in_range(x, y),
    ensures
        0 <= g.index_of(x, y) < g.size(),
        g.position_of(g.index_of(x, y)) == (x, y),
{
    lemma_index_in_range(g, x, y);
    let w = g.width as int;
    assert((y * w + x) % w == x && (y * w + x) / w == y) by (nonlinear_arith)
        requires
            0 <= x < w,
            0 <= y,
    ;
}

/// Flipping a cell twice leaves the grid as it was.
pub proof fn lemma_toggle_twice(g: GridModel, x: int, y: int)
    requires
        g.wf(),
        g.in_range(x, y),
    ensures
        g.toggled(x, y).toggled(x, y) == g,
{
    lemma_index_in_range(g, x, y);
    assert(g.toggled(x, y).toggled(x, y).cells =~= g.cells);
}

/// The first and the last cell of the top row are neighbours across the
/// side edge: where both are live, each has at least one live neighbour,
/// the other.
pub proof fn lemma_neighbors_across_side_edge(g: GridModel)
    requires
        g.wf(),
    ensures
        g.neighbor(0, 0, 3) == (g.width - 1, 0int),
        g.neighbor(g.width - 1, 0, 4) == (0int, 0int),
        g.cell(0, 0) && g.cell(g.width - 1, 0) ==> g.live_neighbors(0, 0) >= 1 && g.live_neighbors(
            g.width - 1,
            0,
        ) >= 1,
{
    reveal_with_fuel(GridModel::live_among, 9);
}

/// Cell `(x, y)` of the next generation is the rule applied to cell
/// `(x, y)` and its neighbours now.
proof fn lemma_next_cell(g: GridModel, x: int, y: int)
    requires
        g.wf(),
        g.in_range(x, y),
    ensures
        g.next_generation().wf(),
        g.next_generation().cell(x, y) == next_state(g.cell(x, y), g.live_neighbors(x, y)),
{
    lemma_position_index_round_trip(g, x, y);
}

/// On a lone live cell's grid, the cell at `(x, y)` is dead next generation.
proof fn lemma_lone_cell_dies_at(g: GridModel, px: int, py: int, x: int, y: int)
    requires
        g.wf(),
        g.width >= 3,
        g.height >= 3,
        forall|a: int, b: int| g.in_range(a, b) ==> g.cell(a, b) == (a == px && b == py),
        g.in_range(x, y),
    ensures
        !g.next_generation().cell(x, y),
{
    reveal_with_fuel(GridModel::live_among, 9);
    lemma_next_cell(g, x, y);
}

/// A lone live cell dies, and no cell comes alive: on a grid of at least
/// three by three whose only live cell is `(px, py)`, the next generation
/// has no live cell.
pub proof fn lemma_lone_cell_dies(g: GridModel, px: int, py: int)
    requires
        g.wf(),
        g.width >= 3,
        g.height >= 3,
        g.in_range(px, py),
        forall|x: int, y: int| g.in_range(x, y) ==> g.cell(x, y) == (x == px && y == py),
    ensures
        forall|x: int, y: int| g.in_range(x, y) ==> !#[trigger] g.next_generation().cell(x, y),
{
    assert forall|x: int, y: int| g.in_range(x, y) implies !#[trigger] g.next_generation().cell(
        x,
        y,
    ) by {
        lemma_lone_cell_dies_at(g, px, py, x, y);
    }
}

/// Whether `(x, y)` is one of the three cells of a row centred on `(0, 0)`
/// that crosses the side edge.
pub open spec fn in_row_across_side(g: GridModel, x: int, y: int) -> bool {
    y == 0 && (x == g.width - 1 || x == 0 || x == 1)
}

/// Whether `(x, y)` is one of the three cells of a column centred on
/// `(0, 0)` that crosses the top edge.
pub open spec fn in_column_across_top(g: GridModel, x: int, y: int) -> bool {
    x == 0 && (y == g.height - 1 || y == 0 || y == 1)
}

/// Cell `(x, y)` after one generation of a row across the side edge.
#[verifier::rlimit(50)]
proof fn lemma_row_across_side_at(g: GridModel, x: int, y: int)
    requires
        g.wf(),
        g.width >= 5,
        g.height >= 5,
        forall|a: int, b: int| g.in_range(a, b) ==> g.cell(a, b) == in_row_across_side(g, a, b),
        g.in_range(x, y),
    ensures
        g.next_generation().cell(x, y) == in_column_across_top(g, x, y),
{
    reveal_with_fuel(GridModel::live_among, 9);
    lemma_next_cell(g, x, y);
}

/// A row of three live cells that crosses the side edge of a grid of at
/// least five by five, centred on `(0, 0)`, turns into a column of three
/// centred on the same cell, which crosses the top edge: its end cells
/// count each other through the edges.
pub proof fn lemma_row_across_side_turns(g: GridModel)
    requires
        g.wf(),
        g.width >= 5,
        g.height >= 5,
        forall|x: int, y: int| g.in_range(x, y) ==> g.cell(x, y) == in_row_across_side(g, x, y),
    ensures
        forall|x: int, y: int|
            g.in_range(x, y) ==> #[trigger] g.next_generation().cell(x, y) == in_column_across_top(
                g,
                x,
                y,
            ),
{
    assert forall|x: int, y: int| g.in_range(x, y) implies #[trigger] g.next_generation().cell(
        x,
        y,
    ) == in_column_across_top(g, x, y) by {
        lemma_row_across_side_at(g, x, y);
    }
}

/// From any point of a walk, the `i`-th of the next `k` values is the cell
/// `i` places on, or `None` past the last cell.
proof fn lemma_outputs_from(it: IterModel, k: nat)
    ensures
        it.outputs(k).len() == k,
        forall|i: int|
            0 <= i < k ==> #[trigger] it.outputs(k)[i] == if it.index + i < it.grid.cells.len() {
                Some(it.grid.cells[it.index + i])
            } else {
                None
            },
    decreases k,
{
    if k > 0 {
        let next = it.step().0;
        lemma_outputs_from(next, (k - 1) as nat);
        assert forall|i: int| 0 <= i < k implies #[trigger] it.outputs(k)[i] == if it.index + i
            < it.grid.cells.len() {
            Some(it.grid.cells[it.index + i])
        } else {
            None
        } by {
            if i > 0 {
                assert(it.outputs(k)[i] == next.outputs((k - 1) as nat)[i - 1]);
            }
        }
    }
}

/// A walk over a fresh iterator of a `w` by `h` grid gives the `w * h`
/// cells in row-major order, the `i`-th being the cell at the position of
/// index `i`, and after them only `None`.
pub proof fn lemma_iter_gives_every_cell(g: GridModel, k: nat)
    requires
        g.wf(),
    ensures
        (IterModel { grid: g, index: 0 }).outputs(k).len() == k,
        forall|i: int|
            0 <= i < k ==> #[trigger] (IterModel { grid: g, index: 0 }).outputs(k)[i] == if i
                < g.size() {
                Some(g.cell(g.position_of(i).0, g.position_of(i).1))
            } else {
                None
            },
{
    let it = IterModel { grid: g, index: 0 };
    lemma_outputs_from(it, k);
    assert forall|i: int| 0 <= i < k implies #[trigger] it.outputs(k)[i] == if i < g.size() {
        Some(g.cell(g.position_of(i).0, g.position_of(i).1))
    } else {
        None
    } by {
        if i < g.size() {
            lemma_position_in_range(g, i);
        }
    }
}

} // verus!
