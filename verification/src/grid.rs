//! The cell buffer: a grid of cells of fixed size, stored row after row.

use vstd::prelude::*;
use crate::cell::NcCell;

verus! {

/// A count of rows or columns.
pub type NcDimension = u32;

/// The largest number of rows or columns that a terminal reports.
pub const NC_MAX_DIM: NcDimension = 0xffff;

/// A grid as a value: its cells row after row.
pub struct NcGridView {
    pub rows: int,
    pub cols: int,
    pub cells: Seq<NcCell>,
}

impl NcGridView {
    pub open spec fn wf(self) -> bool {
        &&& 0 <= self.rows <= NC_MAX_DIM
        &&& 0 <= self.cols <= NC_MAX_DIM
        &&& self.cells.len() == self.rows * self.cols
    }

    /// True of the positions that the grid has.
    pub open spec fn inside(self, y: int, x: int) -> bool {
        0 <= y < self.rows && 0 <= x < self.cols
    }

    /// The cell at row `y`, column `x`.
    pub open spec fn at(self, y: int, x: int) -> NcCell {
        self.cells[y * self.cols + x]
    }

    /// The grid with `cell` at row `y`, column `x`.
    pub open spec fn put(self, y: int, x: int, cell: NcCell) -> NcGridView {
        NcGridView { cells: self.cells.update(y * self.cols + x, cell), ..self }
    }
}

/// The grid of `rows` by `cols` cells that are all `cell`.
pub open spec fn filled(rows: int, cols: int, cell: NcCell) -> NcGridView {
    NcGridView { rows, cols, cells: Seq::new((rows * cols) as nat, |i: int| cell) }
}

/// A position inside a grid has its index inside the grid's cells.
pub proof fn lemma_index_inside(rows: int, cols: int, y: int, x: int)
    requires
        0 <= y < rows,
        0 <= x < cols,
    ensures
        0 <= y * cols + x < rows * cols,
        0 <= y * cols,
        (y + 1) * cols <= rows * cols,
        (y + 1) * cols == y * cols + cols,
{
    assert(0 <= y * cols) by (nonlinear_arith)
        requires
            0 <= y,
            0 <= cols,
    ;
    assert((y + 1) * cols <= rows * cols) by (nonlinear_arith)
        requires
            y + 1 <= rows,
            0 <= cols,
    ;
    assert((y + 1) * cols == y * cols + cols) by (nonlinear_arith);
}

/// Two positions of a grid with one index are one position.
pub proof fn lemma_index_distinct(cols: int, y1: int, x1: int, y2: int, x2: int)
    requires
        0 <= x1 < cols,
        0 <= x2 < cols,
        y1 * cols + x1 == y2 * cols + x2,
    ensures
        y1 == y2,
        x1 == x2,
{
    assert(y1 == y2) by (nonlinear_arith)
        requires
            0 <= x1 < cols,
            0 <= x2 < cols,
            y1 * cols + x1 == y2 * cols + x2,
    ;
}

/// The row and column of an index of a grid.
pub proof fn lemma_index_split(cols: int, y: int, x: int)
    requires
        0 <= y,
        0 <= x < cols,
    ensures
        (y * cols + x) / cols == y,
        (y * cols + x) % cols == x,
{
    vstd::arithmetic::div_mod::lemma_fundamental_div_mod_converse(y * cols + x, cols, y, x);
}

/// The size of a grid fits every index type.
pub proof fn lemma_size_fits(rows: int, cols: int)
    requires
        0 <= rows <= NC_MAX_DIM,
        0 <= cols <= NC_MAX_DIM,
    ensures
        0 <= rows * cols <= 0xffff * 0xffff,
{
    assert(0 <= rows * cols <= 0xffff * 0xffff) by (nonlinear_arith)
        requires
            0 <= rows <= 0xffff,
            0 <= cols <= 0xffff,
    ;
}

/// A grid of cells.
#[derive(Debug)]
pub struct NcGrid {
    rows: NcDimension,
    cols: NcDimension,
    cells: Vec<NcCell>,
}

impl View for NcGrid {
    type V = NcGridView;

    closed spec fn view(&self) -> NcGridView {
        NcGridView { rows: self.rows as int, cols: self.cols as int, cells: self.cells@ }
    }
}

impl NcGrid {
    /// True of every grid that this module hands out.
    pub open spec fn wf(&self) -> bool {
        self@.wf()
    }

    /// A grid of `rows` by `cols` cells, each of them `fill`.
    pub fn new(rows: NcDimension, cols: NcDimension, fill: NcCell) -> (g: Self)
        requires
            rows <= NC_MAX_DIM,
            cols <= NC_MAX_DIM,
        ensures
            g.wf(),
            g@ == filled(rows as int, cols as int, fill),
    {
        proof {
            lemma_size_fits(rows as int, cols as int);
        }
        let n: usize = (rows as usize) * (cols as usize);
        let mut cells: Vec<NcCell> = Vec::new();
        let mut i: usize = 0;
        while i < n
            invariant
                i <= n,
                cells@.len() == i,
                forall|j: int| 0 <= j < i ==> cells@[j] == fill,
            decreases n - i,
        {
            cells.push(fill);
            i = i + 1;
        }
        assert(cells@ =~= Seq::new((rows * cols) as nat, |i: int| fill));
        NcGrid { rows, cols, cells }
    }

    /// Takes over cells that were laid out row after row.
    pub fn from_cells(rows: NcDimension, cols: NcDimension, cells: Vec<NcCell>) -> (g: Self)
        requires
            rows <= NC_MAX_DIM,
            cols <= NC_MAX_DIM,
            cells@.len() == rows * cols,
        ensures
            g.wf(),
            g@ == (NcGridView { rows: rows as int, cols: cols as int, cells: cells@ }),
    {
        NcGrid { rows, cols, cells }
    }

    pub fn rows(&self) -> (r: NcDimension)
        ensures
            r == self@.rows,
    {
        self.rows
    }

    pub fn cols(&self) -> (r: NcDimension)
        ensures
            r == self@.cols,
    {
        self.cols
    }

    /// The cell at row `y`, column `x`.
    pub fn get(&self, y: NcDimension, x: NcDimension) -> (cell: NcCell)
        requires
            self.wf(),
            self@.inside(y as int, x as int),
        ensures
            cell == self@.at(y as int, x as int),
    {
        proof {
            lemma_index_inside(self.rows as int, self.cols as int, y as int, x as int);
            lemma_size_fits(self.rows as int, self.cols as int);
        }
        self.cells[(y as usize) * (self.cols as usize) + (x as usize)]
    }

    /// Puts `cell` at row `y`, column `x`.
    pub fn set(&mut self, y: NcDimension, x: NcDimension, cell: NcCell)
        requires
            old(self).wf(),
            old(self)@.inside(y as int, x as int),
        ensures
            final(self).wf(),
            final(self)@ == old(self)@.put(y as int, x as int, cell),
    {
        proof {
            lemma_index_inside(self.rows as int, self.cols as int, y as int, x as int);
            lemma_size_fits(self.rows as int, self.cols as int);
        }
        let i: usize = (y as usize) * (self.cols as usize) + (x as usize);
        self.cells[i] = cell;
    }
}

/// What `put` does to the cells.
pub proof fn lemma_put_cells(g: NcGridView, y: int, x: int, cell: NcCell)
    requires
        g.wf(),
        g.inside(y, x),
    ensures
        g.put(y, x, cell).wf(),
        g.put(y, x, cell).rows == g.rows,
        g.put(y, x, cell).cols == g.cols,
        g.put(y, x, cell).cells.len() == g.cells.len(),
        forall|i: int|
            0 <= i < g.cells.len() ==> #[trigger] g.put(y, x, cell).cells[i] == if i == y * g.cols
                + x {
                cell
            } else {
                g.cells[i]
            },
{
    lemma_index_inside(g.rows, g.cols, y, x);
}

} // verus!
