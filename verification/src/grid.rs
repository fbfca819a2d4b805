//! A fixed-size two-dimensional array of cells with bounds-checked access.
//!
//! Cells are stored column by column: the value at column `c` and row `r` is
//! `grid@[c][r]`. Row 0 is the bottom row of the simulated scene; the sand
//! rule in particular treats decreasing row indices as "down".

use vstd::prelude::*;

verus! {

/// Errors reported by grid construction and direct cell edits.
#[derive(Clone, Copy, Debug, PartialEq, Eq, Structural)]
pub enum GridError {
    /// A grid was requested with zero columns or zero rows.
    InvalidDimensions,
    /// A cell edit named a coordinate outside `[0, cols) x [0, rows)`.
    OutOfRangeCoordinate,
}

/// An ordered two-dimensional container of cell values, dimensions fixed at
/// construction. The abstract value is a sequence of columns, each a
/// sequence of `rows` cells.
pub struct Grid<T> {
    cells: Vec<Vec<T>>,
}

impl<T> View for Grid<T> {
    type V = Seq<Seq<T>>;

    closed spec fn view(&self) -> Seq<Seq<T>> {
        Seq::new(self.cells@.len(), |c: int| self.cells@[c]@)
    }
}

impl<T: Copy> Grid<T> {
    /// Number of columns.
    pub open spec fn spec_cols(&self) -> int {
        self@.len() as int
    }

    /// Number of rows (the length every column must share).
    pub open spec fn spec_rows(&self) -> int {
        self@[0].len() as int
    }

    /// Well-formedness: at least one column, and every column holds the same
    /// positive number of rows.
    pub open spec fn wf(&self) -> bool {
        &&& self@.len() >= 1
        &&& self@[0].len() >= 1
        &&& forall|c: int|
            0 <= c < self@.len() ==> (#[trigger] self@[c]).len() == self@[0].len()
    }

    /// The cell at `(col, row)`, as a spec value.
    pub open spec fn spec_cell(&self, col: int, row: int) -> T {
        self@[col][row]
    }

    /// Allocates a `cols x rows` grid with every cell set to
    /// `default_value`. Fails exactly on zero dimensions.
    pub fn new(cols: usize, rows: usize, default_value: T) -> (result: Result<Grid<T>, GridError>)
        ensures
            result is Ok <==> (cols >= 1 && rows >= 1),
            match result {
                Ok(g) => {
                    &&& g.wf()
                    &&& g.spec_cols() == cols
                    &&& g.spec_rows() == rows
                    &&& forall|c: int, r: int|
                        0 <= c < cols && 0 <= r < rows ==> g.spec_cell(c, r) == default_value
                },
                Err(e) => e == GridError::InvalidDimensions,
            },
    {
        if cols == 0 || rows == 0 {
            return Err(GridError::InvalidDimensions);
        }
        let mut cells: Vec<Vec<T>> = Vec::new();
        let mut c: usize = 0;
        while c < cols
            invariant
                c <= cols,
                cells@.len() == c,
                forall|i: int|
                    0 <= i < c ==> (#[trigger] cells@[i])@.len() == rows,
                forall|i: int, j: int|
                    0 <= i < c && 0 <= j < rows ==> #[trigger] cells@[i]@[j] == default_value,
            decreases cols - c,
        {
            let mut column: Vec<T> = Vec::new();
            let mut r: usize = 0;
            while r < rows
                invariant
                    r <= rows,
                    column@.len() == r,
                    forall|j: int| 0 <= j < r ==> column@[j] == default_value,
                decreases rows - r,
            {
                column.push(default_value);
                r = r + 1;
            }
            cells.push(column);
            c = c + 1;
        }
        let g = Grid { cells };
        Ok(g)
    }

    /// The grid's dimensions, as `(cols, rows)`.
    pub fn dimensions(&self) -> (d: (usize, usize))
        requires
            self.wf(),
        ensures
            d.0 == self.spec_cols(),
            d.1 == self.spec_rows(),
    {
        (self.cells.len(), self.cells[0].len())
    }

    /// Reads the cell at `(col, row)`; defined only for in-range coordinates.
    pub fn get(&self, col: usize, row: usize) -> (v: T)
        requires
            self.wf(),
            col < self.spec_cols(),
            row < self.spec_rows(),
        ensures
            v == self.spec_cell(col as int, row as int),
    {
        proof {
            assert(self@[col as int] == self.cells@[col as int]@);
        }
        self.cells[col][row]
    }

    /// Writes `value` into the cell at `(col, row)`; defined only for
    /// in-range coordinates. No cell but the named one changes.
    pub fn set(&mut self, col: usize, row: usize, value: T)
        requires
            old(self).wf(),
            col < old(self).spec_cols(),
            row < old(self).spec_rows(),
        ensures
            final(self).wf(),
            final(self)@ == old(self)@.update(
                col as int,
                old(self)@[col as int].update(row as int, value),
            ),
            final(self).spec_cols() == old(self).spec_cols(),
            final(self).spec_rows() == old(self).spec_rows(),
            final(self).spec_cell(col as int, row as int) == value,
            forall|c: int, r: int|
                0 <= c < old(self).spec_cols() && 0 <= r < old(self).spec_rows()
                    && !(c == col && r == row)
                    ==> final(self).spec_cell(c, r) == old(self).spec_cell(c, r),
    {
        proof {
            assert(self@[col as int] == self.cells@[col as int]@);
        }
        self.cells[col][row] = value;
        assert(self@ =~= old(self)@.update(
            col as int,
            old(self)@[col as int].update(row as int, value),
        ));
    }
}

} // verus!
