//! The model of a grid, and the rule that takes one generation to the next.

use vstd::prelude::*;

verus! {

/// What a grid is: its dimensions and its cells, row by row.
pub struct GridModel {
    pub width: nat,
    pub height: nat,
    pub cells: Seq<bool>,
}

impl GridModel {
    /// Both dimensions are positive, every index fits in a `u32`, and there
    /// is one cell per position.
    pub open spec fn wf(self) -> bool {
        &&& self.width > 0
        &&& self.height > 0
        &&& self.width * self.height <= u32::MAX
        &&& self.cells.len() == self.width * self.height
    }

    /// The number of cells.
    pub open spec fn size(self) -> int {
        (self.width * self.height) as int
    }

    /// The position `(x, y)` that an index of the row-major order stands for.
    pub open spec fn position_of(self, index: int) -> (int, int) {
        (index % (self.width as int), index / (self.width as int))
    }

    /// The row-major index of position `(x, y)`.
    pub open spec fn index_of(self, x: int, y: int) -> int {
        y * self.width + x
    }

    /// Whether `(x, y)` lies inside the grid.
    pub open spec fn in_range(self, x: int, y: int) -> bool {
        0 <= x < self.width && 0 <= y < self.height
    }

    /// Whether the cell at `(x, y)` is live.
    pub open spec fn cell(self, x: int, y: int) -> bool {
        self.cells[self.index_of(x, y)]
    }

    /// This grid with the cell at `(x, y)` set to `b`.
    pub open spec fn with_cell(self, x: int, y: int, b: bool) -> GridModel {
        GridModel { cells: self.cells.update(self.index_of(x, y), b), ..self }
    }

    /// The `k`-th neighbour of `(x, y)`, across the edges where it falls
    /// outside the grid.
    pub open spec fn neighbor(self, x: int, y: int, k: int) -> (int, int) {
        (
            wrapped(x + neighbor_offset(k).0, self.width as int),
            wrapped(y + neighbor_offset(k).1, self.height as int),
        )
    }

    /// How many of the first `k` neighbours of `(x, y)` are live.
    pub open spec fn live_among(self, x: int, y: int, k: nat) -> nat
        decreases k,
    {
        if k == 0 {
            0
        } else {
            let (nx, ny) = self.neighbor(x, y, k - 1);
            self.live_among(x, y, (k - 1) as nat) + if self.cell(nx, ny) {
                1nat
            } else {
                0nat
            }
        }
    }

    /// How many of the eight neighbours of `(x, y)` are live.
    pub open spec fn live_neighbors(self, x: int, y: int) -> nat {
        self.live_among(x, y, 8)
    }

    /// The grid one generation on: each cell follows the rule, reading only
    /// the cells of this generation.
    pub open spec fn next_generation(self) -> GridModel {
        GridModel {
            cells: Seq::new(
                self.cells.len(),
                |i: int|
                    {
                        let (x, y) = self.position_of(i);
                        next_state(self.cell(x, y), self.live_neighbors(x, y))
                    },
            ),
            ..self
        }
    }

    /// This grid with the cell at `(x, y)` flipped.
    pub open spec fn toggled(self, x: int, y: int) -> GridModel {
        self.with_cell(x, y, !self.cell(x, y))
    }
}

/// Where a walk over the cells of a grid stands: the next cell it gives is
/// the one at `index`.
pub struct IterModel {
    pub grid: GridModel,
    pub index: nat,
}

impl IterModel {
    /// One step of the walk: the walk after it, and the value it gives.
    pub open spec fn step(self) -> (IterModel, Option<bool>) {
        if self.index < self.grid.cells.len() {
            (IterModel { index: self.index + 1, ..self }, Some(self.grid.cells[self.index as int]))
        } else {
            (self, None)
        }
    }

    /// The values that `k` steps of the walk give, in order.
    pub open spec fn outputs(self, k: nat) -> Seq<Option<bool>>
        decreases k,
    {
        if k == 0 {
            Seq::empty()
        } else {
            seq![self.step().1] + self.step().0.outputs((k - 1) as nat)
        }
    }
}

/// `v` brought back onto `0 .. n` where it lies one step outside it.
pub open spec fn wrapped(v: int, n: int) -> int {
    if v < 0 {
        n - 1
    } else if v >= n {
        0
    } else {
        v
    }
}

/// The offset of the `k`-th of the eight neighbours.
pub open spec fn neighbor_offset(k: int) -> (int, int) {
    if k == 0 {
        (-1, 1)
    } else if k == 1 {
        (0, 1)
    } else if k == 2 {
        (1, 1)
    } else if k == 3 {
        (-1, 0)
    } else if k == 4 {
        (1, 0)
    } else if k == 5 {
        (-1, -1)
    } else if k == 6 {
        (0, -1)
    } else {
        (1, -1)
    }
}

/// Whether a cell is live in the next generation, given whether it is live
/// now and how many of its neighbours are.
pub open spec fn next_state(alive: bool, count: nat) -> bool {
    if alive {
        count == 2 || count == 3
    } else {
        count == 3
    }
}

/// A grid of the given size whose cells are all dead.
pub open spec fn empty_grid(width: nat, height: nat) -> GridModel {
    GridModel { width, height, cells: Seq::new(width * height, |i: int| false) }
}

/// `v` brought back onto `0 .. n` where it lies one step outside it: below
/// zero it becomes `n - 1`, at `n` or above it becomes zero.
pub fn wrap(v: i64, n: i64) -> (r: i64)
    requires
        n > i64::MIN,
    ensures
        r == wrapped(v as int, n as int),
{
    if v < 0 {
        n - 1
    } else if v >= n {
        0
    } else {
        v
    }
}

/// Whether a cell is live in the next generation: a live cell stays live
/// with two or three live neighbours, a dead one comes alive with three.
pub fn next_cell_state(alive: bool, count: u32) -> (r: bool)
    ensures
        r == next_state(alive, count as nat),
{
    if alive {
        count == 2 || count == 3
    } else {
        count == 3
    }
}

/// A position inside the grid has an index inside the cell sequence.
pub proof fn lemma_index_in_range(g: GridModel, x: int, y: int)
    requires
        g.in_range(x, y),
    ensures
        0 <= g.index_of(x, y) < g.size(),
{
    let w = g.width as int;
    let h = g.height as int;
    assert(0 <= y * w + x < h * w) by (nonlinear_arith)
        requires
            0 <= x < w,
            0 <= y < h,
    ;
    assert(h * w == g.width * g.height) by (nonlinear_arith)
        requires
            w == g.width,
            h == g.height,
    ;
}

/// An index inside the cell sequence stands for a position inside the grid,
/// and that position's index is the index again.
pub proof fn lemma_position_in_range(g: GridModel, index: int)
    requires
        g.width > 0,
        0 <= index < g.size(),
    ensures
        g.in_range(g.position_of(index).0, g.position_of(index).1),
        g.index_of(g.position_of(index).0, g.position_of(index).1) == index,
{
    let w = g.width as int;
    let h = g.height as int;
    assert(h * w == g.width * g.height) by (nonlinear_arith)
        requires
            w == g.width,
            h == g.height,
    ;
    assert(0 <= index % w < w && 0 <= index / w < h && (index / w) * w + index % w == index)
        by (nonlinear_arith)
        requires
            w > 0,
            0 <= index < h * w,
    ;
}

} // verus!
