//! Conway's game of life: cell status, the transition rule, dead-outside
//! neighbor sampling, and the engine that advances a whole grid by one
//! generation per step.

use vstd::prelude::*;

use crate::grid::Grid;
use crate::grid::GridError;

verus! {

/// The status of one life cell.
#[derive(Clone, Copy, Debug, PartialEq, Eq, Structural)]
pub enum GridStatus {
    Alive,
    Dead,
}

/// The numeric sample a cell contributes to a neighborhood: 1 when alive,
/// 0 when dead.
pub open spec fn status_value(s: GridStatus) -> u8 {
    match s {
        GridStatus::Alive => 1,
        GridStatus::Dead => 0,
    }
}

/// The logical complement of a status.
pub open spec fn spec_toggle(s: GridStatus) -> GridStatus {
    match s {
        GridStatus::Alive => GridStatus::Dead,
        GridStatus::Dead => GridStatus::Alive,
    }
}

/// Number of live samples among the first `k` neighborhood slots, the
/// center slot (index 4) excluded.
pub open spec fn live_count_upto(ns: Seq<u8>, k: int) -> int
    decreases k,
{
    if k <= 0 {
        0
    } else {
        live_count_upto(ns, k - 1) + if k - 1 != 4 && ns[k - 1] > 0 {
            1int
        } else {
            0int
        }
    }
}

/// Number of live samples among the 8 non-center slots of a neighborhood.
pub open spec fn live_count(ns: Seq<u8>) -> int {
    live_count_upto(ns, 9)
}

/// The life transition rule over a sampled neighborhood `ns` (9 slots in
/// row-major order, center at index 4):
/// - a live center with fewer than two live neighbors dies (underpopulation);
/// - a live center with two or three live neighbors lives on (stasis);
/// - a live center with more than three live neighbors dies (overpopulation);
/// - a dead center with exactly three live neighbors becomes alive
///   (reproduction);
/// - otherwise the cell keeps its current status `center`.
pub open spec fn life_next(center: GridStatus, ns: Seq<u8>) -> GridStatus {
    let n = live_count(ns);
    if ns[4] == 1 && n < 2 {
        GridStatus::Dead
    } else if ns[4] == 1 && (n == 2 || n == 3) {
        GridStatus::Alive
    } else if ns[4] == 1 && n > 3 {
        GridStatus::Dead
    } else if ns[4] == 0 && n == 3 {
        GridStatus::Alive
    } else {
        center
    }
}

impl GridStatus {
    /// The logical complement: alive becomes dead and dead becomes alive.
    pub fn toggle(&self) -> (next: GridStatus)
        ensures
            next == spec_toggle(*self),
    {
        match self {
            GridStatus::Alive => GridStatus::Dead,
            GridStatus::Dead => GridStatus::Alive,
        }
    }

    /// The numeric neighborhood sample of this status.
    pub fn grid_value(&self) -> (v: u8)
        ensures
            v == status_value(*self),
    {
        match self {
            GridStatus::Alive => 1,
            GridStatus::Dead => 0,
        }
    }

    /// Applies the life rule to this cell given its sampled neighborhood
    /// (9 slots, center at index 4).
    pub fn game_rules(&self, neighbors: &Vec<u8>) -> (next: GridStatus)
        requires
            neighbors@.len() == 9,
        ensures
            next == life_next(*self, neighbors@),
    {
        let center = neighbors[4];
        let mut total_neighbors: u32 = 0;
        let mut i: usize = 0;
        while i < 9
            invariant
                i <= 9,
                neighbors@.len() == 9,
                total_neighbors == live_count_upto(neighbors@, i as int),
                total_neighbors <= i,
            decreases 9 - i,
        {
            if i != 4 && neighbors[i] > 0 {
                total_neighbors = total_neighbors + 1;
            }
            i = i + 1;
        }

        if center == 1 && total_neighbors < 2 {
            GridStatus::Dead
        } else if center == 1 && (total_neighbors == 2 || total_neighbors == 3) {
            GridStatus::Alive
        } else if center == 1 && total_neighbors > 3 {
            GridStatus::Dead
        } else if center == 0 && total_neighbors == 3 {
            GridStatus::Alive
        } else {
            *self
        }
    }
}

/// Whether `(c, r)` lies inside a `cols x rows` grid.
pub open spec fn in_grid(cols: int, rows: int, c: int, r: int) -> bool {
    0 <= c < cols && 0 <= r < rows
}

/// Among the first `k` neighborhood slots of `(x, y)` (center excluded),
/// the number whose coordinate lies inside the grid — the slots that can
/// ever contribute a live sample under the dead-outside policy.
pub open spec fn open_slot_count_upto(cols: int, rows: int, x: int, y: int, k: int) -> int
    decreases k,
{
    if k <= 0 {
        0
    } else {
        open_slot_count_upto(cols, rows, x, y, k - 1) + if k - 1 != 4 && in_grid(
            cols,
            rows,
            x + (k - 1) / 3 - 1,
            y + (k - 1) % 3 - 1,
        ) {
            1int
        } else {
            0int
        }
    }
}

/// The number of non-center neighborhood slots of `(x, y)` that lie inside
/// the grid; the remaining slots are forced dead.
pub open spec fn open_slot_count(cols: int, rows: int, x: int, y: int) -> int {
    open_slot_count_upto(cols, rows, x, y, 9)
}

/// Under the dead-outside policy a corner cell has exactly 3 neighborhood
/// slots that can ever be live, an edge cell 5, and an interior cell 8; and
/// every slot outside the grid samples to the dead value 0.
pub proof fn lemma_neighbor_slot_counts(g: Seq<Seq<GridStatus>>, x: int, y: int)
    requires
        g.len() >= 2,
        g[0].len() >= 2,
        0 <= x < g.len(),
        0 <= y < g[0].len(),
    ensures
        ({
            let cols = g.len() as int;
            let rows = g[0].len() as int;
            let x_border = (x == 0 || x == cols - 1);
            let y_border = (y == 0 || y == rows - 1);
            &&& (x_border && y_border) ==> open_slot_count(cols, rows, x, y) == 3
            &&& (x_border != y_border) ==> open_slot_count(cols, rows, x, y) == 5
            &&& (!x_border && !y_border) ==> open_slot_count(cols, rows, x, y) == 8
        }),
        forall|k: int|
            0 <= k < 9 && !in_grid(g.len() as int, g[0].len() as int, x + k / 3 - 1, y + k % 3 - 1)
                ==> neighbor_seq(g, x, y)[k] == 0,
{
    reveal_with_fuel(open_slot_count_upto, 10);
}

proof fn lemma_live_le_open_upto(g: Seq<Seq<GridStatus>>, x: int, y: int, k: int)
    requires
        0 <= k <= 9,
    ensures
        live_count_upto(neighbor_seq(g, x, y), k) <= open_slot_count_upto(
            g.len() as int,
            g[0].len() as int,
            x,
            y,
            k,
        ),
    decreases k,
{
    if k > 0 {
        lemma_live_le_open_upto(g, x, y, k - 1);
    }
}

/// A cell can only ever see live neighbors through slots that lie inside
/// the grid: the live count of any sampled neighborhood is bounded by its
/// open slot count — 3 at a corner, 5 at an edge, 8 in the interior.
pub proof fn lemma_live_count_bounded_by_open_slots(g: Seq<Seq<GridStatus>>, x: int, y: int)
    ensures
        live_count(neighbor_seq(g, x, y)) <= open_slot_count(g.len() as int, g[0].len() as int, x, y),
{
    lemma_live_le_open_upto(g, x, y, 9);
}

/// The live-neighbor count of a 9-slot neighborhood lies between 0 and 8.
pub proof fn lemma_live_count_bounds(ns: Seq<u8>)
    ensures
        0 <= live_count(ns) <= 8,
{
    assert forall|k: int| 0 <= k <= 9 implies 0 <= live_count_upto(ns, k)
        && live_count_upto(ns, k) <= (if k <= 4 { k } else { k - 1 }) by {
        lemma_live_count_upto_bounds(ns, k);
    }
}

proof fn lemma_live_count_upto_bounds(ns: Seq<u8>, k: int)
    requires
        0 <= k <= 9,
    ensures
        0 <= live_count_upto(ns, k) <= (if k <= 4 { k } else { k - 1 }),
    decreases k,
{
    if k > 0 {
        lemma_live_count_upto_bounds(ns, k - 1);
    }
}

/// Dead-outside sampling: the numeric value of the cell at `(c, r)`, or 0
/// when the coordinate falls outside the grid.
pub open spec fn sample(g: Seq<Seq<GridStatus>>, c: int, r: int) -> u8 {
    if 0 <= c < g.len() && 0 <= r < g[0].len() {
        status_value(g[c][r])
    } else {
        0
    }
}

/// The 3x3 neighborhood of `(x, y)` under the dead-outside policy, in
/// row-major order `(x-1,y-1) .. (x+1,y+1)`, the center itself at index 4.
pub open spec fn neighbor_seq(g: Seq<Seq<GridStatus>>, x: int, y: int) -> Seq<u8> {
    Seq::new(9, |k: int| sample(g, x + k / 3 - 1, y + k % 3 - 1))
}

/// The grid after one life generation: every cell replaced by the rule
/// applied to its dead-outside neighborhood in the old grid.
pub open spec fn life_step(g: Seq<Seq<GridStatus>>) -> Seq<Seq<GridStatus>> {
    Seq::new(
        g.len(),
        |c: int| Seq::new(g[0].len(), |r: int| life_next(g[c][r], neighbor_seq(g, c, r))),
    )
}

/// The index `base + delta - 1` when it lies in `[0, limit)`, and `None`
/// otherwise. `delta` picks one of the three window offsets -1, 0, +1.
fn offset_index(base: usize, delta: usize, limit: usize) -> (result: Option<usize>)
    requires
        delta < 3,
    ensures
        match result {
            Some(idx) => 0 <= base + delta - 1 < limit && idx == base + delta - 1,
            None => !(0 <= base + delta - 1 < limit),
        },
{
    if delta == 0 {
        if base >= 1 && base - 1 < limit {
            Some(base - 1)
        } else {
            None
        }
    } else if delta == 1 {
        if base < limit {
            Some(base)
        } else {
            None
        }
    } else {
        if limit >= 2 && base < limit - 1 {
            Some(base + 1)
        } else {
            None
        }
    }
}

/// The life simulation: a grid of cell statuses together with a generation
/// counter. One `step` applies the transition rule to every cell of the
/// current grid, building the next generation in a fresh buffer.
pub struct LifeEngine {
    grid: Grid<GridStatus>,
    generation: u64,
}

impl View for LifeEngine {
    type V = Seq<Seq<GridStatus>>;

    closed spec fn view(&self) -> Seq<Seq<GridStatus>> {
        self.grid@
    }
}

impl LifeEngine {
    /// Well-formedness: the underlying grid is well formed.
    pub closed spec fn wf(&self) -> bool {
        self.grid.wf()
    }

    /// Number of columns.
    pub open spec fn spec_cols(&self) -> int {
        self@.len() as int
    }

    /// Number of rows.
    pub open spec fn spec_rows(&self) -> int {
        self@[0].len() as int
    }

    /// Generations stepped so far.
    pub closed spec fn spec_generation(&self) -> u64 {
        self.generation
    }

    /// A fresh engine over a `cols x rows` grid with every cell dead.
    /// Fails exactly on zero dimensions.
    pub fn new(cols: usize, rows: usize) -> (result: Result<LifeEngine, GridError>)
        ensures
            result is Ok <==> (cols >= 1 && rows >= 1),
            match result {
                Ok(engine) => {
                    &&& engine.wf()
                    &&& engine.spec_cols() == cols
                    &&& engine.spec_rows() == rows
                    &&& engine.spec_generation() == 0
                    &&& forall|c: int, r: int|
                        0 <= c < cols && 0 <= r < rows ==> engine@[c][r] == GridStatus::Dead
                },
                Err(e) => e == GridError::InvalidDimensions,
            },
    {
        match Grid::new(cols, rows, GridStatus::Dead) {
            Ok(grid) => {
                let engine = LifeEngine { grid, generation: 0 };
                proof {
                    assert forall|c: int, r: int|
                        0 <= c < cols && 0 <= r < rows implies engine@[c][r]
                        == GridStatus::Dead by {
                        assert(grid.spec_cell(c, r) == GridStatus::Dead);
                    }
                }
                Ok(engine)
            },
            Err(e) => Err(e),
        }
    }

    /// How many generations have been stepped so far.
    pub fn generation(&self) -> (n: u64)
        ensures
            n == self.spec_generation(),
    {
        self.generation
    }

    /// A read-only snapshot of the current generation, for rendering.
    pub fn snapshot(&self) -> (g: &Grid<GridStatus>)
        ensures
            g@ == self@,
            g.wf() <==> self.wf(),
    {
        &self.grid
    }

    /// Advances the simulation by one generation: every cell of the next
    /// grid is the rule applied to its dead-outside neighborhood in the
    /// current grid. Dimensions never change, and the generation counter
    /// grows by one (saturating at its maximum). The new grid is a pure
    /// function of the old one, so repeated stepping is deterministic.
    pub fn step(&mut self)
        requires
            old(self).wf(),
        ensures
            final(self).wf(),
            final(self)@ == life_step(old(self)@),
            final(self).spec_cols() == old(self).spec_cols(),
            final(self).spec_rows() == old(self).spec_rows(),
            final(self).spec_generation() == if old(self).spec_generation() < u64::MAX {
                old(self).spec_generation() + 1
            } else {
                u64::MAX as int
            },
    {
        let (cols, rows) = self.grid.dimensions();
        let mut next: Grid<GridStatus> = Grid::new(cols, rows, GridStatus::Dead).unwrap();
        let mut x: usize = 0;
        while x < cols
            invariant
                self.wf(),
                cols == self.spec_cols(),
                rows == self.spec_rows(),
                x <= cols,
                next.wf(),
                next.spec_cols() == cols,
                next.spec_rows() == rows,
                forall|c: int, r: int|
                    0 <= c < x && 0 <= r < rows ==> next.spec_cell(c, r) == life_next(
                        self@[c][r],
                        neighbor_seq(self@, c, r),
                    ),
            decreases cols - x,
        {
            let mut y: usize = 0;
            while y < rows
                invariant
                    self.wf(),
                    cols == self.spec_cols(),
                    rows == self.spec_rows(),
                    x < cols,
                    y <= rows,
                    next.wf(),
                    next.spec_cols() == cols,
                    next.spec_rows() == rows,
                    forall|c: int, r: int|
                        0 <= c < x && 0 <= r < rows ==> next.spec_cell(c, r) == life_next(
                            self@[c][r],
                            neighbor_seq(self@, c, r),
                        ),
                    forall|r: int|
                        0 <= r < y ==> next.spec_cell(x as int, r) == life_next(
                            self@[x as int][r],
                            neighbor_seq(self@, x as int, r),
                        ),
                decreases rows - y,
            {
                let ns = self.neighbors(x, y);
                let current = self.grid.get(x, y);
                let value = current.game_rules(&ns);
                next.set(x, y, value);
                y = y + 1;
            }
            x = x + 1;
        }
        proof {
            assert forall|c: int| 0 <= c < cols implies next@[c] =~= life_step(self@)[c] by {
                assert forall|r: int| 0 <= r < rows implies next@[c][r] == life_step(self@)[c][r]
                    by {
                    assert(next.spec_cell(c, r) == life_next(self@[c][r], neighbor_seq(self@, c, r)));
                }
            }
            assert(next@ =~= life_step(self@));
        }
        self.grid = next;
        if self.generation < u64::MAX {
            self.generation = self.generation + 1;
        }
    }

    /// Replaces the cell at `(col, row)` by its logical complement, between
    /// steps and bypassing the transition rule. An out-of-range coordinate
    /// is reported as an error and leaves the whole state unchanged.
    pub fn toggle(&mut self, col: usize, row: usize) -> (result: Result<(), GridError>)
        requires
            old(self).wf(),
        ensures
            final(self).wf(),
            result is Ok <==> (col < old(self).spec_cols() && row < old(self).spec_rows()),
            match result {
                Ok(()) => {
                    &&& final(self)@[col as int][row as int] == spec_toggle(
                        old(self)@[col as int][row as int],
                    )
                    &&& forall|c: int, r: int|
                        0 <= c < old(self).spec_cols() && 0 <= r < old(self).spec_rows()
                            && !(c == col && r == row) ==> final(self)@[c][r] == old(self)@[c][r]
                },
                Err(e) => e == GridError::OutOfRangeCoordinate && final(self)@ == old(self)@,
            },
            final(self).spec_cols() == old(self).spec_cols(),
            final(self).spec_rows() == old(self).spec_rows(),
            final(self).spec_generation() == old(self).spec_generation(),
    {
        let (cols, rows) = self.grid.dimensions();
        if col >= cols || row >= rows {
            return Err(GridError::OutOfRangeCoordinate);
        }
        let flipped = self.grid.get(col, row).toggle();
        self.grid.set(col, row, flipped);
        Ok(())
    }

    /// Writes `value` into the cell at `(col, row)`, between steps and
    /// bypassing the transition rule. An out-of-range coordinate is reported
    /// as an error and leaves the whole state unchanged.
    pub fn paint(&mut self, col: usize, row: usize, value: GridStatus) -> (result: Result<
        (),
        GridError,
    >)
        requires
            old(self).wf(),
        ensures
            final(self).wf(),
            result is Ok <==> (col < old(self).spec_cols() && row < old(self).spec_rows()),
            match result {
                Ok(()) => {
                    &&& final(self)@[col as int][row as int] == value
                    &&& forall|c: int, r: int|
                        0 <= c < old(self).spec_cols() && 0 <= r < old(self).spec_rows()
                            && !(c == col && r == row) ==> final(self)@[c][r] == old(self)@[c][r]
                },
                Err(e) => e == GridError::OutOfRangeCoordinate && final(self)@ == old(self)@,
            },
            final(self).spec_cols() == old(self).spec_cols(),
            final(self).spec_rows() == old(self).spec_rows(),
            final(self).spec_generation() == old(self).spec_generation(),
    {
        let (cols, rows) = self.grid.dimensions();
        if col >= cols || row >= rows {
            return Err(GridError::OutOfRangeCoordinate);
        }
        self.grid.set(col, row, value);
        Ok(())
    }

    /// The dead-outside 3x3 neighborhood of `(x, y)`: 9 samples in
    /// row-major window order, the center cell's own value at index 4.
    /// `x` and `y` need not lie inside the grid; every slot that falls
    /// outside contributes the dead value 0.
    pub fn neighbors(&self, x: usize, y: usize) -> (ns: Vec<u8>)
        requires
            self.wf(),
        ensures
            ns@ == neighbor_seq(self@, x as int, y as int),
            ns@.len() == 9,
    {
        let (cols, rows) = self.grid.dimensions();
        let mut ns: Vec<u8> = Vec::new();
        let mut i: usize = 0;
        while i < 3
            invariant
                self.wf(),
                cols == self.spec_cols(),
                rows == self.spec_rows(),
                i <= 3,
                ns@.len() == 3 * i,
                forall|k: int|
                    0 <= k < 3 * i ==> ns@[k] == sample(self@, x + k / 3 - 1, y + k % 3 - 1),
            decreases 3 - i,
        {
            let mut j: usize = 0;
            while j < 3
                invariant
                    self.wf(),
                    cols == self.spec_cols(),
                    rows == self.spec_rows(),
                    i < 3,
                    j <= 3,
                    ns@.len() == 3 * i + j,
                    forall|k: int|
                        0 <= k < 3 * i + j ==> ns@[k] == sample(self@, x + k / 3 - 1, y + k % 3 - 1),
                decreases 3 - j,
            {
                let value: u8 = match (offset_index(x, i, cols), offset_index(y, j, rows)) {
                    (Some(cc), Some(rr)) => self.grid.get(cc, rr).grid_value(),
                    _ => 0,
                };
                proof {
                    let k = 3 * (i as int) + j;
                    assert(k / 3 == i && k % 3 == j) by (nonlinear_arith)
                        requires
                            k == 3 * (i as int) + j,
                            0 <= j < 3,
                            0 <= i,
                    ;
                    assert(value == sample(self@, x + k / 3 - 1, y + k % 3 - 1));
                }
                ns.push(value);
                j = j + 1;
            }
            i = i + 1;
        }
        proof {
            assert(ns@ =~= neighbor_seq(self@, x as int, y as int));
        }
        ns
    }
}

proof fn lemma_live_count_upto_zero(ns: Seq<u8>, k: int)
    requires
        0 <= k <= 9,
        forall|i: int| 0 <= i < k ==> ns[i] == 0,
    ensures
        live_count_upto(ns, k) == 0,
    decreases k,
{
    if k > 0 {
        lemma_live_count_upto_zero(ns, k - 1);
    }
}

/// Stepping a grid with no live cells yields a grid with no live cells:
/// the all-dead grid is a fixed point of the life step, so it stays all
/// dead under any number of further steps.
pub proof fn lemma_all_dead_fixed(g: Seq<Seq<GridStatus>>)
    requires
        g.len() >= 1,
        g[0].len() >= 1,
        forall|c: int| 0 <= c < g.len() ==> (#[trigger] g[c]).len() == g[0].len(),
        forall|c: int, r: int|
            0 <= c < g.len() && 0 <= r < g[0].len() ==> #[trigger] g[c][r] == GridStatus::Dead,
    ensures
        life_step(g) == g,
{
    assert forall|c: int| 0 <= c < g.len() implies life_step(g)[c] =~= g[c] by {
        assert forall|r: int| 0 <= r < g[0].len() implies life_step(g)[c][r] == g[c][r] by {
            let ns = neighbor_seq(g, c, r);
            assert forall|i: int| 0 <= i < 9 implies ns[i] == 0 by {
                assert(sample(g, c + i / 3 - 1, r + i % 3 - 1) == 0);
            }
            lemma_live_count_upto_zero(ns, 9);
            assert(life_next(g[c][r], ns) == g[c][r]);
        }
    }
    assert(life_step(g) =~~= g);
}

/// The life rule, for every neighbor count and both center states, matches
/// the four documented outcomes exactly, and leaves every other neighborhood
/// unchanged: underpopulation and overpopulation kill a live center, two or
/// three live neighbors keep it, exactly three live neighbors revive a dead
/// center, and any other dead center stays as it was.
pub proof fn lemma_life_rule_outcomes(center: GridStatus, ns: Seq<u8>)
    requires
        ns.len() == 9,
    ensures
        ns[4] == 1 && live_count(ns) < 2 ==> life_next(center, ns) == GridStatus::Dead,
        ns[4] == 1 && (live_count(ns) == 2 || live_count(ns) == 3) ==> life_next(center, ns)
            == GridStatus::Alive,
        ns[4] == 1 && live_count(ns) > 3 ==> life_next(center, ns) == GridStatus::Dead,
        ns[4] == 0 && live_count(ns) == 3 ==> life_next(center, ns) == GridStatus::Alive,
        ns[4] != 1 && !(ns[4] == 0 && live_count(ns) == 3) ==> life_next(center, ns) == center,
        0 <= live_count(ns) <= 8,
{
    lemma_live_count_bounds(ns);
}

} // verus!
