//! Falling-sand automaton: particles carry a hue tag and settle downward
//! one row per generation, under a clamped boundary policy at the side
//! walls and a deterministic, seed-injectable lateral direction source.
//!
//! One generation processes the cells in column-major order (column by
//! column, bottom row first inside each column) into a fresh next-generation
//! buffer. The straight-down probe reads that buffer, so a particle that has
//! already settled blocks the cell it now occupies; the two diagonal probes
//! read the old generation.

use vstd::prelude::*;

use crate::grid::Grid;
use crate::grid::GridError;

verus! {

/// One draw of the direction generator: a 64-bit xorshift step.
pub open spec fn rng_next(s: u64) -> u64 {
    let a = s ^ (s << 13u64);
    let b = a ^ (a >> 7u64);
    b ^ (b << 17u64)
}

/// The lateral direction read off a generator state: true means the
/// particle tries its right diagonal first.
pub open spec fn dir_is_right(s: u64) -> bool {
    s & 1u64 == 1u64
}

/// Clamps a column index to `[0, cols)`: the side walls are solid, so an
/// index past either wall resolves to the nearest valid column.
pub open spec fn clamp_col(c: int, cols: int) -> int {
    if c < 0 {
        0
    } else if c >= cols {
        cols - 1
    } else {
        c
    }
}

/// The all-empty `cols x rows` grid of sand cells.
pub open spec fn zero_grid(cols: nat, rows: nat) -> Seq<Seq<u32>> {
    Seq::new(cols, |c: int| Seq::new(rows, |r: int| 0u32))
}

/// `g` with the single cell `(c, r)` replaced by `v`.
pub open spec fn grid_write(g: Seq<Seq<u32>>, c: int, r: int, v: u32) -> Seq<Seq<u32>> {
    g.update(c, g[c].update(r, v))
}

/// The effect of processing the single source cell `(col, row)` of the old
/// generation `old_g` on the next-generation buffer `next`, with `state`
/// the direction generator's state. Returns the updated buffer and state.
///
/// A particle above the bottom row draws a direction and then tries, in
/// order: straight down (probed in `next`), the drawn diagonal, the other
/// diagonal (both probed in `old_g`, columns clamped at the walls), and
/// finally rests in place. A particle on the bottom row stays; an empty
/// cell contributes nothing.
pub open spec fn sand_apply(
    old_g: Seq<Seq<u32>>,
    next: Seq<Seq<u32>>,
    state: u64,
    col: int,
    row: int,
) -> (Seq<Seq<u32>>, u64) {
    let v = old_g[col][row];
    let cols = old_g.len() as int;
    if v >= 1 && row > 0 {
        let s2 = rng_next(state);
        let d: int = if dir_is_right(s2) {
            1
        } else {
            -1
        };
        let ia = clamp_col(col + d, cols);
        let ib = clamp_col(col - d, cols);
        if next[col][row - 1] == 0 {
            (grid_write(next, col, row - 1, v), s2)
        } else if old_g[ia][row - 1] == 0 {
            (grid_write(next, ia, row - 1, v), s2)
        } else if old_g[ib][row - 1] == 0 {
            (grid_write(next, ib, row - 1, v), s2)
        } else {
            (grid_write(next, col, row, v), s2)
        }
    } else if v >= 1 {
        (grid_write(next, col, row, v), state)
    } else {
        (next, state)
    }
}

/// The next-generation buffer and generator state after processing the
/// first `k` cells of `old_g` in column-major order (cell `k` is column
/// `k / rows`, row `k % rows`), starting from an all-empty buffer.
pub open spec fn sand_fold(old_g: Seq<Seq<u32>>, state: u64, k: int) -> (Seq<Seq<u32>>, u64)
    decreases k,
{
    if k <= 0 {
        (zero_grid(old_g.len(), old_g[0].len()), state)
    } else {
        let rows = old_g[0].len() as int;
        let prev = sand_fold(old_g, state, k - 1);
        sand_apply(old_g, prev.0, prev.1, (k - 1) / rows, (k - 1) % rows)
    }
}

/// One whole sand generation: every cell of `old_g` processed in
/// column-major order. Returns the new grid and the generator state after
/// all direction draws.
pub open spec fn sand_step_spec(old_g: Seq<Seq<u32>>, state: u64) -> (Seq<Seq<u32>>, u64) {
    sand_fold(old_g, state, old_g.len() * old_g[0].len() as int)
}

/// Writing one in-range cell never changes the outer length nor any
/// column's length.
pub proof fn lemma_grid_write_dims(g: Seq<Seq<u32>>, c: int, r: int, v: u32)
    requires
        0 <= c < g.len(),
        0 <= r < g[c].len(),
    ensures
        grid_write(g, c, r, v).len() == g.len(),
        forall|cc: int| 0 <= cc < g.len() ==> (#[trigger] grid_write(g, c, r, v)[cc]).len()
            == g[cc].len(),
{
}

/// In column-major cell order over a `cols x rows` grid, cell `k` lies in
/// column `k / rows` and row `k % rows`, both in range.
pub proof fn lemma_cell_index_bounds(cols: int, rows: int, k: int)
    requires
        cols >= 1,
        rows >= 1,
        0 <= k < cols * rows,
    ensures
        0 <= k / rows < cols,
        0 <= k % rows < rows,
{
    vstd::arithmetic::div_mod::lemma_fundamental_div_mod(k, rows);
    let q = k / rows;
    let r = k % rows;
    vstd::arithmetic::div_mod::lemma_mod_bound(k, rows);
    assert(0 <= q && q < cols) by (nonlinear_arith)
        requires
            k == rows * q + r,
            0 <= r < rows,
            0 <= k < cols * rows,
            rows >= 1,
    ;
}

/// The folded step preserves the grid's dimensions at every prefix length.
pub proof fn lemma_sand_fold_dims(old_g: Seq<Seq<u32>>, state: u64, k: int)
    requires
        old_g.len() >= 1,
        old_g[0].len() >= 1,
        forall|c: int| 0 <= c < old_g.len() ==> (#[trigger] old_g[c]).len() == old_g[0].len(),
        k <= old_g.len() * old_g[0].len(),
    ensures
        sand_fold(old_g, state, k).0.len() == old_g.len(),
        forall|c: int| 0 <= c < old_g.len() ==> (#[trigger] sand_fold(old_g, state, k).0[c]).len()
            == old_g[0].len(),
    decreases k,
{
    if k <= 0 {
    } else {
        lemma_sand_fold_dims(old_g, state, k - 1);
        let rows = old_g[0].len() as int;
        let prev = sand_fold(old_g, state, k - 1);
        let col = (k - 1) / rows;
        let row = (k - 1) % rows;
        lemma_cell_index_bounds(old_g.len() as int, rows, k - 1);
        let v = old_g[col][row];
        if v >= 1 && row > 0 {
            let s2 = rng_next(prev.1);
            let d: int = if dir_is_right(s2) {
                1
            } else {
                -1
            };
            let cols = old_g.len() as int;
            lemma_grid_write_dims(prev.0, col, row - 1, v);
            lemma_grid_write_dims(prev.0, clamp_col(col + d, cols), row - 1, v);
            lemma_grid_write_dims(prev.0, clamp_col(col - d, cols), row - 1, v);
            lemma_grid_write_dims(prev.0, col, row, v);
        } else if v >= 1 {
            lemma_grid_write_dims(prev.0, col, row, v);
        }
    }
}

/// Advances the direction generator once and reads the drawn direction.
fn draw_direction(state: u64) -> (result: (u64, bool))
    ensures
        result.0 == rng_next(state),
        result.1 == dir_is_right(rng_next(state)),
{
    let a = state ^ (state << 13u64);
    let b = a ^ (a >> 7u64);
    let s2 = b ^ (b << 17u64);
    (s2, s2 & 1u64 == 1u64)
}

/// A single particle with an empty cell straight below falls exactly one
/// row: if `(c, r)` with `r > 0` holds the only particle in the grid, then
/// after one generation the grid holds that particle at `(c, r - 1)` and
/// nothing else — whatever the direction generator's state, which is drawn
/// from exactly once.
pub proof fn lemma_single_particle_falls(g: Seq<Seq<u32>>, s: u64, c: int, r: int)
    requires
        g.len() >= 1,
        g[0].len() >= 1,
        forall|cc: int| 0 <= cc < g.len() ==> (#[trigger] g[cc]).len() == g[0].len(),
        0 <= c < g.len(),
        1 <= r < g[0].len(),
        g[c][r] >= 1,
        forall|cc: int, rr: int|
            0 <= cc < g.len() && 0 <= rr < g[0].len() && !(cc == c && rr == r)
                ==> #[trigger] g[cc][rr] == 0,
    ensures
        sand_step_spec(g, s).0 == grid_write(
            zero_grid(g.len(), g[0].len()),
            c,
            r - 1,
            g[c][r],
        ),
        sand_step_spec(g, s).1 == rng_next(s),
{
    let cols = g.len() as int;
    let rows = g[0].len() as int;
    let k = c * rows + r;
    vstd::arithmetic::div_mod::lemma_fundamental_div_mod_converse(k, rows, c, r);
    assert(0 <= k && k < cols * rows) by (nonlinear_arith)
        requires
            k == c * rows + r,
            0 <= c < cols,
            0 <= r < rows,
    ;

    assert forall|i: int|
        0 <= i < k implies g[#[trigger] (i / rows)][i % rows] == 0 by {
        lemma_cell_index_bounds(cols, rows, i);
        vstd::arithmetic::div_mod::lemma_fundamental_div_mod(i, rows);
        if i / rows == c && i % rows == r {
            assert(i == rows * c + r);
            assert(k == rows * c + r) by (nonlinear_arith)
                requires
                    k == c * rows + r,
            ;
            assert(false);
        }
    }
    let zero = zero_grid(g.len(), g[0].len());
    lemma_sand_fold_skip_from(g, s, 0, k, (zero, s));

    let after = sand_fold(g, s, k + 1);
    assert(zero[c][r - 1] == 0);
    assert(after.0 == grid_write(zero, c, r - 1, g[c][r]) && after.1 == rng_next(s));

    assert forall|i: int|
        k + 1 <= i < cols * rows implies g[#[trigger] (i / rows)][i % rows] == 0 by {
        lemma_cell_index_bounds(cols, rows, i);
        vstd::arithmetic::div_mod::lemma_fundamental_div_mod(i, rows);
        if i / rows == c && i % rows == r {
            assert(i == rows * c + r);
            assert(k == rows * c + r) by (nonlinear_arith)
                requires
                    k == c * rows + r,
            ;
            assert(false);
        }
    }
    lemma_sand_fold_skip_from(g, s, k + 1, cols * rows, after);
}

/// The buffer after the first `k` cells of a fully occupied grid have been
/// processed: every cell already handled keeps its old value, the rest are
/// still empty.
spec fn occupied_prefix(g: Seq<Seq<u32>>, k: int) -> Seq<Seq<u32>> {
    Seq::new(
        g.len(),
        |cc: int|
            Seq::new(
                g[0].len(),
                |rr: int|
                    if cc * (g[0].len() as int) + rr < k {
                        g[cc][rr]
                    } else {
                        0u32
                    },
            ),
    )
}

/// In a fully occupied grid every probe a particle makes is blocked, so the
/// folded step copies each processed cell straight across.
proof fn lemma_full_fold(g: Seq<Seq<u32>>, s: u64, k: int)
    requires
        g.len() >= 1,
        g[0].len() >= 1,
        forall|cc: int| 0 <= cc < g.len() ==> (#[trigger] g[cc]).len() == g[0].len(),
        forall|cc: int, rr: int|
            0 <= cc < g.len() && 0 <= rr < g[0].len() ==> #[trigger] g[cc][rr] >= 1,
        0 <= k <= g.len() * (g[0].len() as int),
    ensures
        sand_fold(g, s, k).0 == occupied_prefix(g, k),
    decreases k,
{
    let cols = g.len() as int;
    let rows = g[0].len() as int;
    if k == 0 {
        assert forall|cc: int| 0 <= cc < cols implies sand_fold(g, s, 0).0[cc] =~= occupied_prefix(
            g,
            0,
        )[cc] by {
            assert forall|rr: int| 0 <= rr < rows implies sand_fold(g, s, 0).0[cc][rr]
                == occupied_prefix(g, 0)[cc][rr] by {
                assert(cc * rows + rr >= 0) by (nonlinear_arith)
                    requires
                        cc >= 0,
                        rr >= 0,
                        rows >= 0,
                ;
            }
        }
        assert(sand_fold(g, s, 0).0 =~~= occupied_prefix(g, 0));
    } else {
        lemma_full_fold(g, s, k - 1);
        let prev = sand_fold(g, s, k - 1);
        let q = (k - 1) / rows;
        let r = (k - 1) % rows;
        lemma_cell_index_bounds(cols, rows, k - 1);
        vstd::arithmetic::div_mod::lemma_fundamental_div_mod(k - 1, rows);
        assert(q * rows + r == k - 1) by (nonlinear_arith)
            requires
                k - 1 == rows * q + r,
        ;
        let v = g[q][r];
        let result = sand_fold(g, s, k).0;
        if r > 0 {
            assert(q * rows + (r - 1) < k - 1);
            assert(prev.0[q][r - 1] == g[q][r - 1]);
            assert(g[q][r - 1] >= 1);
            let s2 = rng_next(prev.1);
            let d: int = if dir_is_right(s2) {
                1
            } else {
                -1
            };
            let ia = clamp_col(q + d, cols);
            let ib = clamp_col(q - d, cols);
            assert(g[ia][r - 1] >= 1 && g[ib][r - 1] >= 1);
            assert(result == grid_write(prev.0, q, r, v));
        } else {
            assert(result == grid_write(prev.0, q, r, v));
        }
        assert forall|cc: int| 0 <= cc < cols implies result[cc] =~= occupied_prefix(g, k)[cc] by {
            assert forall|rr: int| 0 <= rr < rows implies result[cc][rr] == occupied_prefix(
                g,
                k,
            )[cc][rr] by {
                vstd::arithmetic::div_mod::lemma_fundamental_div_mod_converse(
                    cc * rows + rr,
                    rows,
                    cc,
                    rr,
                );
                if cc == q && rr == r {
                    assert(result[cc][rr] == v);
                } else {
                    assert(cc * rows + rr != k - 1);
                    assert(result[cc][rr] == prev.0[cc][rr]);
                }
            }
        }
        assert(result =~~= occupied_prefix(g, k));
    }
}

/// A particle whose straight-down cell and both diagonal cells are all
/// occupied rests in place. Stated over a fully occupied grid, where that
/// holds of every particle at once: stepping such a grid reproduces it
/// unchanged.
pub proof fn lemma_blocked_grid_rests(g: Seq<Seq<u32>>, s: u64)
    requires
        g.len() >= 1,
        g[0].len() >= 1,
        forall|cc: int| 0 <= cc < g.len() ==> (#[trigger] g[cc]).len() == g[0].len(),
        forall|cc: int, rr: int|
            0 <= cc < g.len() && 0 <= rr < g[0].len() ==> #[trigger] g[cc][rr] >= 1,
    ensures
        sand_step_spec(g, s).0 == g,
{
    let cols = g.len() as int;
    let rows = g[0].len() as int;
    lemma_full_fold(g, s, cols * rows);
    let result = sand_step_spec(g, s).0;
    assert forall|cc: int| 0 <= cc < cols implies result[cc] =~= g[cc] by {
        assert forall|rr: int| 0 <= rr < rows implies result[cc][rr] == g[cc][rr] by {
            assert(cc * rows + rr < cols * rows) by (nonlinear_arith)
                requires
                    0 <= cc < cols,
                    0 <= rr < rows,
            ;
        }
    }
    assert(result =~~= g);
}

/// The buffer after the first `k` cells of a grid in the resting
/// configuration have been processed: the fully occupied bottom row and the
/// one supported particle keep their old values as they are reached, all
/// other cells stay empty.
spec fn resting_prefix(g: Seq<Seq<u32>>, c: int, k: int) -> Seq<Seq<u32>> {
    Seq::new(
        g.len(),
        |cc: int|
            Seq::new(
                g[0].len(),
                |rr: int|
                    if (rr == 0 || (cc == c && rr == 1)) && cc * (g[0].len() as int) + rr < k {
                        g[cc][rr]
                    } else {
                        0u32
                    },
            ),
    )
}

/// Whether `g` is in the resting configuration around column `c`: the
/// bottom row is fully occupied, the cell `(c, 1)` holds a particle, and
/// every other cell above the bottom row is empty.
pub open spec fn resting_config(g: Seq<Seq<u32>>, c: int) -> bool {
    &&& g.len() >= 1
    &&& g[0].len() >= 2
    &&& forall|cc: int| 0 <= cc < g.len() ==> (#[trigger] g[cc]).len() == g[0].len()
    &&& 0 <= c < g.len()
    &&& forall|cc: int| 0 <= cc < g.len() ==> #[trigger] g[cc][0] >= 1
    &&& g[c][1] >= 1
    &&& forall|cc: int, rr: int|
        0 <= cc < g.len() && 1 <= rr < g[0].len() && !(cc == c && rr == 1)
            ==> #[trigger] g[cc][rr] == 0
}

/// In the resting configuration the folded step copies the bottom row and
/// the supported particle straight across and adds nothing else.
proof fn lemma_resting_fold(g: Seq<Seq<u32>>, s: u64, c: int, k: int)
    requires
        resting_config(g, c),
        0 <= k <= g.len() * (g[0].len() as int),
    ensures
        sand_fold(g, s, k).0 == resting_prefix(g, c, k),
    decreases k,
{
    let cols = g.len() as int;
    let rows = g[0].len() as int;
    if k == 0 {
        assert forall|cc: int| 0 <= cc < cols implies sand_fold(g, s, 0).0[cc] =~= resting_prefix(
            g,
            c,
            0,
        )[cc] by {
            assert forall|rr: int| 0 <= rr < rows implies sand_fold(g, s, 0).0[cc][rr]
                == resting_prefix(g, c, 0)[cc][rr] by {
                assert(cc * rows + rr >= 0) by (nonlinear_arith)
                    requires
                        cc >= 0,
                        rr >= 0,
                        rows >= 0,
                ;
            }
        }
        assert(sand_fold(g, s, 0).0 =~~= resting_prefix(g, c, 0));
    } else {
        lemma_resting_fold(g, s, c, k - 1);
        let prev = sand_fold(g, s, k - 1);
        let q = (k - 1) / rows;
        let r = (k - 1) % rows;
        lemma_cell_index_bounds(cols, rows, k - 1);
        vstd::arithmetic::div_mod::lemma_fundamental_div_mod(k - 1, rows);
        assert(q * rows + r == k - 1) by (nonlinear_arith)
            requires
                k - 1 == rows * q + r,
        ;
        let v = g[q][r];
        let result = sand_fold(g, s, k).0;
        if r == 0 {
            // A bottom-row particle stays put.
            assert(v >= 1);
            assert(result == grid_write(prev.0, q, r, v));
        } else if q == c && r == 1 {
            // The supported particle: its column's bottom cell was processed
            // one step earlier, so the straight-down probe is blocked, and
            // both diagonals rest on the occupied bottom row.
            assert(prev.0[c][0] == g[c][0]);
            assert(g[c][0] >= 1);
            let s2 = rng_next(prev.1);
            let d: int = if dir_is_right(s2) {
                1
            } else {
                -1
            };
            let ia = clamp_col(q + d, cols);
            let ib = clamp_col(q - d, cols);
            assert(g[ia][0] >= 1 && g[ib][0] >= 1);
            assert(result == grid_write(prev.0, q, r, v));
        } else {
            // Every other cell above the bottom row is empty.
            assert(v == 0);
            assert(result == prev.0);
        }
        assert forall|cc: int| 0 <= cc < cols implies result[cc] =~= resting_prefix(g, c, k)[cc] by {
            assert forall|rr: int| 0 <= rr < rows implies result[cc][rr] == resting_prefix(
                g,
                c,
                k,
            )[cc][rr] by {
                vstd::arithmetic::div_mod::lemma_fundamental_div_mod_converse(
                    cc * rows + rr,
                    rows,
                    cc,
                    rr,
                );
            }
        }
        assert(result =~~= resting_prefix(g, c, k));
    }
}

/// A particle resting on a fully occupied bottom row, both its diagonals
/// occupied by that same row, stays in place over a step — and so does the
/// row that carries it: the whole configuration reproduces itself, whatever
/// the direction generator draws.
pub proof fn lemma_resting_particle_stays(g: Seq<Seq<u32>>, s: u64, c: int)
    requires
        resting_config(g, c),
    ensures
        sand_step_spec(g, s).0 == g,
{
    let cols = g.len() as int;
    let rows = g[0].len() as int;
    lemma_resting_fold(g, s, c, cols * rows);
    let result = sand_step_spec(g, s).0;
    assert forall|cc: int| 0 <= cc < cols implies result[cc] =~= g[cc] by {
        assert forall|rr: int| 0 <= rr < rows implies result[cc][rr] == g[cc][rr] by {
            assert(cc * rows + rr < cols * rows) by (nonlinear_arith)
                requires
                    0 <= cc < cols,
                    0 <= rr < rows,
            ;
        }
    }
    assert(result =~~= g);
}

/// Processing a stretch of empty source cells from an arbitrary buffer
/// leaves the buffer and the generator state alone.
proof fn lemma_sand_fold_skip_from(g: Seq<Seq<u32>>, s: u64, k1: int, k2: int, at_k1: (Seq<Seq<u32>>, u64))
    requires
        g.len() >= 1,
        g[0].len() >= 1,
        0 <= k1 <= k2,
        sand_fold(g, s, k1) == at_k1,
        forall|i: int|
            k1 <= i < k2 ==> g[#[trigger] (i / (g[0].len() as int))][i % (g[0].len() as int)] == 0,
    ensures
        sand_fold(g, s, k2) == at_k1,
    decreases k2 - k1,
{
    if k2 > k1 {
        lemma_sand_fold_skip_from(g, s, k1, k2 - 1, at_k1);
        let rows = g[0].len() as int;
        assert(g[(k2 - 1) / rows][(k2 - 1) % rows] == 0);
    }
}

/// The falling-sand simulation: a grid of material ids (0 empty, positive
/// a particle carrying a hue tag in tenths of a degree), a seed-injectable
/// direction generator, the hue that the next painted particle receives,
/// and a generation counter.
pub struct SandEngine {
    grid: Grid<u32>,
    rng: u64,
    hue: u32,
    generation: u64,
}

impl View for SandEngine {
    type V = Seq<Seq<u32>>;

    closed spec fn view(&self) -> Seq<Seq<u32>> {
        self.grid@
    }
}

impl SandEngine {
    /// Well-formedness: the grid is well formed and the painting hue stays
    /// inside its wrap-around range.
    pub closed spec fn wf(&self) -> bool {
        &&& self.grid.wf()
        &&& 1 <= self.hue <= 3580
    }

    /// Number of columns.
    pub open spec fn spec_cols(&self) -> int {
        self@.len() as int
    }

    /// Number of rows.
    pub open spec fn spec_rows(&self) -> int {
        self@[0].len() as int
    }

    /// The direction generator's current state.
    pub closed spec fn spec_rng(&self) -> u64 {
        self.rng
    }

    /// The hue the next painted particle receives.
    pub closed spec fn spec_hue(&self) -> u32 {
        self.hue
    }

    /// Generations stepped so far.
    pub closed spec fn spec_generation(&self) -> u64 {
        self.generation
    }

    /// A fresh engine over an all-empty `cols x rows` grid, its direction
    /// generator seeded with `seed` so that a run is fully deterministic.
    /// Fails exactly on zero dimensions.
    pub fn new(cols: usize, rows: usize, seed: u64) -> (result: Result<SandEngine, GridError>)
        ensures
            result is Ok <==> (cols >= 1 && rows >= 1),
            match result {
                Ok(engine) => {
                    &&& engine.wf()
                    &&& engine.spec_cols() == cols
                    &&& engine.spec_rows() == rows
                    &&& engine.spec_rng() == seed
                    &&& engine.spec_hue() == 200
                    &&& engine.spec_generation() == 0
                    &&& forall|c: int, r: int| 0 <= c < cols && 0 <= r < rows ==> engine@[c][r] == 0
                },
                Err(e) => e == GridError::InvalidDimensions,
            },
    {
        match Grid::new(cols, rows, 0u32) {
            Ok(grid) => {
                let engine = SandEngine { grid, rng: seed, hue: 200, generation: 0 };
                proof {
                    assert forall|c: int, r: int|
                        0 <= c < cols && 0 <= r < rows implies engine@[c][r] == 0 by {
                        assert(grid.spec_cell(c, r) == 0u32);
                    }
                }
                Ok(engine)
            },
            Err(e) => Err(e),
        }
    }

    /// A read-only snapshot of the current generation, for rendering.
    pub fn snapshot(&self) -> (g: &Grid<u32>)
        ensures
            g@ == self@,
    {
        &self.grid
    }

    /// How many generations have been stepped so far.
    pub fn generation(&self) -> (n: u64)
        ensures
            n == self.spec_generation(),
    {
        self.generation
    }

    /// The hue the next painted particle receives, in tenths of a degree.
    pub fn current_hue(&self) -> (h: u32)
        ensures
            h == self.spec_hue(),
    {
        self.hue
    }

    /// Writes `value` into the cell at `(col, row)`, between steps and
    /// bypassing the transition rule — the only way new particles enter the
    /// grid. An out-of-range coordinate is reported as an error and leaves
    /// the whole state unchanged.
    pub fn paint(&mut self, col: usize, row: usize, value: u32) -> (result: Result<
        (),
        GridError,
    >)
        requires
            old(self).wf(),
        ensures
            final(self).wf(),
            result is Ok <==> (col < old(self).spec_cols() && row < old(self).spec_rows()),
            match result {
                Ok(()) => {
                    &&& final(self)@[col as int][row as int] == value
                    &&& forall|c: int, r: int|
                        0 <= c < old(self).spec_cols() && 0 <= r < old(self).spec_rows()
                            && !(c == col && r == row) ==> final(self)@[c][r] == old(self)@[c][r]
                },
                Err(e) => e == GridError::OutOfRangeCoordinate && final(self)@ == old(self)@,
            },
            final(self).spec_cols() == old(self).spec_cols(),
            final(self).spec_rows() == old(self).spec_rows(),
            final(self).spec_rng() == old(self).spec_rng(),
            final(self).spec_hue() == old(self).spec_hue(),
            final(self).spec_generation() == old(self).spec_generation(),
    {
        let (cols, rows) = self.grid.dimensions();
        if col >= cols || row >= rows {
            return Err(GridError::OutOfRangeCoordinate);
        }
        self.grid.set(col, row, value);
        Ok(())
    }

    /// Paints the current hue into the cell at `(col, row)` and then turns
    /// the hue two tenths of a degree further, wrapping back to 1 once it
    /// passes 3580, so that successive strokes shade through the spectrum.
    pub fn paint_with_hue(&mut self, col: usize, row: usize) -> (result: Result<(), GridError>)
        requires
            old(self).wf(),
        ensures
            final(self).wf(),
            result is Ok <==> (col < old(self).spec_cols() && row < old(self).spec_rows()),
            match result {
                Ok(()) => {
                    &&& final(self)@[col as int][row as int] == old(self).spec_hue()
                    &&& forall|c: int, r: int|
                        0 <= c < old(self).spec_cols() && 0 <= r < old(self).spec_rows()
                            && !(c == col && r == row) ==> final(self)@[c][r] == old(self)@[c][r]
                    &&& final(self).spec_hue() == if old(self).spec_hue() + 2 > 3580 {
                        1int
                    } else {
                        old(self).spec_hue() + 2
                    }
                },
                Err(e) => {
                    &&& e == GridError::OutOfRangeCoordinate
                    &&& final(self)@ == old(self)@
                    &&& final(self).spec_hue() == old(self).spec_hue()
                },
            },
            final(self).spec_cols() == old(self).spec_cols(),
            final(self).spec_rows() == old(self).spec_rows(),
            final(self).spec_rng() == old(self).spec_rng(),
            final(self).spec_generation() == old(self).spec_generation(),
    {
        let hue = self.hue;
        let painted = self.paint(col, row, hue);
        if painted.is_err() {
            return painted;
        }
        let mut new_hue = self.hue + 2;
        if new_hue > 3580 {
            new_hue = 1;
        }
        self.hue = new_hue;
        Ok(())
    }

    /// Advances the simulation by one generation, processing every cell in
    /// column-major order into a fresh buffer as `sand_step_spec` describes.
    /// Dimensions never change; the resulting grid and generator state are a
    /// pure function of the old grid and state, so a run from a given seed
    /// is fully deterministic. The generation counter grows by one
    /// (saturating at its maximum); the painting hue is untouched.
    pub fn step(&mut self)
        requires
            old(self).wf(),
        ensures
            final(self).wf(),
            final(self)@ == sand_step_spec(old(self)@, old(self).spec_rng()).0,
            final(self).spec_rng() == sand_step_spec(old(self)@, old(self).spec_rng()).1,
            final(self).spec_cols() == old(self).spec_cols(),
            final(self).spec_rows() == old(self).spec_rows(),
            final(self).spec_hue() == old(self).spec_hue(),
            final(self).spec_generation() == if old(self).spec_generation() < u64::MAX {
                old(self).spec_generation() + 1
            } else {
                u64::MAX as int
            },
    {
        let (cols, rows) = self.grid.dimensions();
        let ghost g0 = self@;
        let ghost s0 = self.rng;
        let mut next: Grid<u32> = Grid::new(cols, rows, 0u32).unwrap();
        let mut state: u64 = self.rng;
        proof {
            assert forall|c: int| 0 <= c < cols implies next@[c] =~= zero_grid(
                cols as nat,
                rows as nat,
            )[c] by {
                assert forall|r: int| 0 <= r < rows implies next@[c][r] == 0u32 by {
                    assert(next.spec_cell(c, r) == 0u32);
                }
            }
            assert(next@ =~~= zero_grid(cols as nat, rows as nat));
        }
        let mut col_i: usize = 0;
        while col_i < cols
            invariant
                self.wf(),
                g0 == self@,
                s0 == self.rng,
                cols == self.spec_cols(),
                rows == self.spec_rows(),
                col_i <= cols,
                next.wf(),
                next.spec_cols() == cols,
                next.spec_rows() == rows,
                next@ == sand_fold(g0, s0, col_i as int * rows as int).0,
                state == sand_fold(g0, s0, col_i as int * rows as int).1,
            decreases cols - col_i,
        {
            proof {
                assert(col_i as int * rows as int <= cols as int * rows as int
                    && (col_i + 1) as int * rows as int <= cols as int * rows as int)
                    by (nonlinear_arith)
                    requires
                        0 <= col_i < cols,
                        rows >= 1,
                ;
            }
            let mut row_i: usize = 0;
            while row_i < rows
                invariant
                    self.wf(),
                    g0 == self@,
                    s0 == self.rng,
                    cols == self.spec_cols(),
                    rows == self.spec_rows(),
                    col_i < cols,
                    row_i <= rows,
                    col_i as int * rows as int + row_i <= cols as int * rows as int,
                    next.wf(),
                    next.spec_cols() == cols,
                    next.spec_rows() == rows,
                    next@ == sand_fold(g0, s0, col_i as int * rows as int + row_i as int).0,
                    state == sand_fold(g0, s0, col_i as int * rows as int + row_i as int).1,
                decreases rows - row_i,
            {
                let ghost k: int = col_i as int * rows as int + row_i as int;
                proof {
                    vstd::arithmetic::div_mod::lemma_fundamental_div_mod_converse(
                        k,
                        rows as int,
                        col_i as int,
                        row_i as int,
                    );
                    assert(k < cols as int * rows as int) by (nonlinear_arith)
                        requires
                            k == col_i as int * rows as int + row_i as int,
                            0 <= col_i < cols,
                            0 <= row_i < rows,
                    ;
                }
                let v = self.grid.get(col_i, row_i);
                if v >= 1 && row_i > 0 {
                    let (s2, goes_right) = draw_direction(state);
                    let left_col = if col_i == 0 {
                        0
                    } else {
                        col_i - 1
                    };
                    let right_col = if col_i + 1 >= cols {
                        cols - 1
                    } else {
                        col_i + 1
                    };
                    let (index_a, index_b) = if goes_right {
                        (right_col, left_col)
                    } else {
                        (left_col, right_col)
                    };
                    proof {
                        let d: int = if dir_is_right(s2) {
                            1
                        } else {
                            -1
                        };
                        assert(index_a == clamp_col(col_i + d, cols as int));
                        assert(index_b == clamp_col(col_i - d, cols as int));
                    }
                    let below = next.get(col_i, row_i - 1);
                    if below == 0 {
                        next.set(col_i, row_i - 1, v);
                    } else {
                        let lateral_a = self.grid.get(index_a, row_i - 1);
                        if lateral_a == 0 {
                            next.set(index_a, row_i - 1, v);
                        } else {
                            let lateral_b = self.grid.get(index_b, row_i - 1);
                            if lateral_b == 0 {
                                next.set(index_b, row_i - 1, v);
                            } else {
                                next.set(col_i, row_i, v);
                            }
                        }
                    }
                    state = s2;
                } else if v >= 1 {
                    next.set(col_i, row_i, v);
                }
                proof {
                    assert(next@ == sand_fold(g0, s0, k + 1).0 && state == sand_fold(
                        g0,
                        s0,
                        k + 1,
                    ).1);
                }
                row_i = row_i + 1;
            }
            proof {
                assert(col_i as int * rows as int + rows as int == (col_i + 1) as int
                    * rows as int) by (nonlinear_arith);
            }
            col_i = col_i + 1;
        }
        proof {
            assert(cols as int * rows as int == g0.len() * g0[0].len() as int);
        }
        self.grid = next;
        self.rng = state;
        if self.generation < u64::MAX {
            self.generation = self.generation + 1;
        }
    }

}

/// Clamps `col` to the valid column range `[0, limit)`: a negative index
/// resolves to the left wall, an index at or past `limit` to the right wall.
pub fn match_boundaries(col: isize, limit: usize) -> (idx: usize)
    requires
        limit >= 1,
    ensures
        idx == clamp_col(col as int, limit as int),
        idx < limit,
{
    if col < 0 {
        0
    } else {
        let c = col as usize;
        if c >= limit {
            limit - 1
        } else {
            c
        }
    }
}

} // verus!
