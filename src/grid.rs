//! The grid of cells and the operations on it.

use vstd::prelude::*;

use crate::rule::{
    empty_grid, lemma_index_in_range, lemma_position_in_range, neighbor_offset, next_cell_state,
    wrap, GridModel, IterModel,
};

verus! {

/// A `width` by `height` toroidal grid of cells, live (`true`) or dead,
/// kept in row-major order.
pub struct Grid {
    width: u32,
    height: u32,
    cells: Vec<bool>,
}

/// Relies on rand::random: a `bool` drawn from the thread-local generator.
/// Nothing is known of which one.
#[verifier::external_body]
fn random_bool() -> (r: bool) {
    rand::random::<bool>()
}

/// A walk over the cells of a grid in row-major order, which the grid
/// outlives.
pub struct GridIter<'a> {
    grid: &'a Grid,
    index: usize,
}

impl<'a> View for GridIter<'a> {
    type V = IterModel;

    closed spec fn view(&self) -> IterModel {
        IterModel { grid: self.grid@, index: self.index as nat }
    }
}

impl<'a> GridIter<'a> {
    /// The next cell's value, or `None` once every cell has been given.
    pub fn next(&mut self) -> (r: Option<bool>)
        ensures
            (final(self)@, r) == old(self)@.step(),
    {
        if self.index < self.grid.cells.len() {
            let b = self.grid.cells[self.index];
            self.index += 1;
            Some(b)
        } else {
            None
        }
    }
}

impl View for Grid {
    type V = GridModel;

    closed spec fn view(&self) -> GridModel {
        GridModel { width: self.width as nat, height: self.height as nat, cells: self.cells@ }
    }
}

impl Grid {
    /// A grid of `w` by `h` dead cells.
    pub fn new(w: u32, h: u32) -> (r: Grid)
        requires
            w > 0,
            h > 0,
            w * h <= u32::MAX,
        ensures
            r@.wf(),
            r@ == empty_grid(w as nat, h as nat),
            forall|x: int, y: int| r@.in_range(x, y) ==> !r@.cell(x, y),
    {
        let size = (w * h) as usize;
        let cells = vec![false; size];
        let r = Grid { width: w, height: h, cells };
        assert(r@.cells =~= empty_grid(w as nat, h as nat).cells);
        assert forall|x: int, y: int| r@.in_range(x, y) implies !r@.cell(x, y) by {
            lemma_index_in_range(r@, x, y);
        }
        r
    }

    /// The number of columns.
    pub fn width(&self) -> (r: u32)
        ensures
            r == self@.width,
    {
        self.width
    }

    /// The number of rows.
    pub fn height(&self) -> (r: u32)
        ensures
            r == self@.height,
    {
        self.height
    }

    /// Whether the cell at `pos` is live.
    pub fn get_cell(&self, pos: (u32, u32)) -> (r: bool)
        requires
            self@.wf(),
            self@.in_range(pos.0 as int, pos.1 as int),
        ensures
            r == self@.cell(pos.0 as int, pos.1 as int),
    {
        let idx = self.get_index_from_position(pos);
        self.cells[idx]
    }

    /// Makes the cell at `pos` live (`b`) or dead (`!b`).
    pub fn set_cell(&mut self, pos: (u32, u32), b: bool)
        requires
            old(self)@.wf(),
            old(self)@.in_range(pos.0 as int, pos.1 as int),
        ensures
            final(self)@ == old(self)@.with_cell(pos.0 as int, pos.1 as int, b),
            final(self)@.wf(),
    {
        let idx = self.get_index_from_position(pos);
        self.cells.set(idx, b);
    }

    /// Flips the cell at `pos` between live and dead.
    pub fn toggle_cell(&mut self, pos: (u32, u32))
        requires
            old(self)@.wf(),
            old(self)@.in_range(pos.0 as int, pos.1 as int),
        ensures
            final(self)@ == old(self)@.toggled(pos.0 as int, pos.1 as int),
            final(self)@.wf(),
    {
        let idx = self.get_index_from_position(pos);
        let b = !self.cells[idx];
        self.cells.set(idx, b);
    }

    /// Replaces the cells by `values`, taken in row-major order. The
    /// dimensions stay as they were.
    pub fn set_cells(&mut self, values: Vec<bool>)
        requires
            old(self)@.wf(),
            values@.len() == old(self)@.cells.len(),
        ensures
            final(self)@ == (GridModel { cells: values@, ..old(self)@ }),
            final(self)@.wf(),
    {
        self.cells = values;
    }

    /// Gives every cell a value drawn at random, each on its own, and
    /// writes them in with `set_cells`. The dimensions stay as they were.
    pub fn random_cells(&mut self)
        requires
            old(self)@.wf(),
        ensures
            final(self)@.width == old(self)@.width,
            final(self)@.height == old(self)@.height,
            final(self)@.cells.len() == old(self)@.cells.len(),
            final(self)@.wf(),
    {
        let n = self.cells.len();
        let mut values: Vec<bool> = Vec::with_capacity(n);
        let mut i: usize = 0;
        while i < n
            invariant
                i <= n,
                values@.len() == i,
            decreases n - i,
        {
            values.push(random_bool());
            i += 1;
        }
        self.set_cells(values);
    }

    /// An iterator over the cells, in row-major order.
    pub fn get_iter(&self) -> (r: GridIter<'_>)
        ensures
            r@ == (IterModel { grid: self@, index: 0 }),
    {
        GridIter { grid: self, index: 0 }
    }

    /// The position `(x, y)` of the cell at `index` in row-major order.
    pub fn get_position_with_index(&self, index: u32) -> (r: (u32, u32))
        requires
            self@.wf(),
            index < self@.size(),
        ensures
            (r.0 as int, r.1 as int) == self@.position_of(index as int),
            self@.in_range(r.0 as int, r.1 as int),
    {
        proof {
            lemma_position_in_range(self@, index as int);
        }
        let x = index % self.width;
        let y = index / self.width;
        (x, y)
    }

    /// The row-major index of the cell at `pos`.
    pub fn get_index_from_position(&self, pos: (u32, u32)) -> (r: usize)
        requires
            self@.wf(),
            self@.in_range(pos.0 as int, pos.1 as int),
        ensures
            r == self@.index_of(pos.0 as int, pos.1 as int),
            r < self@.size(),
    {
        proof {
            lemma_index_in_range(self@, pos.0 as int, pos.1 as int);
        }
        (pos.1 * self.width + pos.0) as usize
    }

    /// A fresh buffer of dead cells, one for each cell of this grid.
    pub fn new_cells(&self) -> (r: Vec<bool>)
        requires
            self@.wf(),
        ensures
            r@ == empty_grid(self@.width, self@.height).cells,
    {
        let size = (self.width * self.height) as usize;
        let r = vec![false; size];
        assert(r@ =~= empty_grid(self@.width, self@.height).cells);
        r
    }

    /// How many of the eight neighbours of the cell at `pos` are live,
    /// the edges of the grid wrapping around.
    pub fn live_neighbors(&self, pos: (u32, u32)) -> (r: u32)
        requires
            self@.wf(),
            self@.in_range(pos.0 as int, pos.1 as int),
        ensures
            r == self@.live_neighbors(pos.0 as int, pos.1 as int),
    {
        let w = self.width as i64;
        let h = self.height as i64;
        let x = pos.0 as i64;
        let y = pos.1 as i64;
        let tbl: [(i64, i64); 8] = [
            (-1, 1),
            (0, 1),
            (1, 1),
            (-1, 0),
            (1, 0),
            (-1, -1),
            (0, -1),
            (1, -1),
        ];
        assert forall|k: int| 0 <= k < 8 implies (tbl@[k].0 as int, tbl@[k].1 as int)
            == neighbor_offset(k) by {}
        let mut count: u32 = 0;
        let mut k: usize = 0;
        while k < 8
            invariant
                k <= 8,
                count <= k,
                self@.wf(),
                self@.in_range(x as int, y as int),
                w == self@.width,
                h == self@.height,
                forall|j: int|
                    0 <= j < 8 ==> (#[trigger] tbl@[j].0 as int, tbl@[j].1 as int)
                        == neighbor_offset(j),
                count == self@.live_among(x as int, y as int, k as nat),
            decreases 8 - k,
        {
            let (dx, dy) = tbl[k];
            let nx = wrap(x + dx, w) as u32;
            let ny = wrap(y + dy, h) as u32;
            let index = self.get_index_from_position((nx, ny));
            if self.cells[index] {
                count += 1;
            }
            k += 1;
        }
        count
    }

    /// Steps the grid one generation on. Every cell follows the rule on the
    /// cells as they were before the step, the edges wrapping around.
    pub fn next_generation(&mut self)
        requires
            old(self)@.wf(),
        ensures
            final(self)@ == old(self)@.next_generation(),
            final(self)@.wf(),
    {
        let mut new_cells = self.new_cells();
        let n = self.cells.len();
        let mut i: usize = 0;
        while i < n
            invariant
                i <= n,
                self@ == old(self)@,
                self@.wf(),
                n == self@.cells.len(),
                new_cells@.len() == n,
                forall|j: int| 0 <= j < i ==> new_cells@[j] == self@.next_generation().cells[j],
            decreases n - i,
        {
            let (x, y) = self.get_position_with_index(i as u32);
            let count = self.live_neighbors((x, y));
            let b = next_cell_state(self.cells[i], count);
            new_cells.set(i, b);
            proof {
                lemma_position_in_range(self@, i as int);
            }
            i += 1;
        }
        self.cells = new_cells;
        assert(self@.cells =~= old(self)@.next_generation().cells);
    }
}

} // verus!
