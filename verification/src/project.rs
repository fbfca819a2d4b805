//! Projection of a continuous pointer position onto a grid cell index.
//!
//! A window position is centered: the origin lies in the middle, so a
//! coordinate ranges over `[-offset, offset]` where `offset` is half the
//! window's extent. The cell index is the floor of `(p + offset) /
//! cell_size`, taken by magnitude. Callers feed the floor of the continuous
//! coordinate; flooring before or after adding the integer `offset` and
//! dividing by the integer `cell_size` yields the same cell.

use vstd::prelude::*;

verus! {

/// The cell index a coordinate projects to: the floor of
/// `(p + offset) / cell`, by magnitude.
pub open spec fn spec_project(p: int, offset: int, cell: int) -> int {
    let q = (p + offset) / cell;
    if q < 0 {
        -q
    } else {
        q
    }
}

/// For positive `m` and `c`, the rounded-up quotient written with integer
/// operations agrees with the negated floored quotient of `-m`.
proof fn lemma_ceil_div(m: int, c: int)
    requires
        m > 0,
        c > 0,
    ensures
        (m + c - 1) / c == -((-m) / c),
{
    let qe = (-m) / c;
    let re = (-m) % c;
    vstd::arithmetic::div_mod::lemma_fundamental_div_mod(-m, c);
    vstd::arithmetic::div_mod::lemma_mod_bound(-m, c);
    if re == 0 {
        assert(m + c - 1 == c * (-qe) + (c - 1)) by (nonlinear_arith)
            requires
                -m == c * qe + re,
                re == 0,
        ;
        vstd::arithmetic::div_mod::lemma_fundamental_div_mod_converse(m + c - 1, c, -qe, c - 1);
    } else {
        assert(m + c - 1 == c * (-qe) + (c - 1 - re)) by (nonlinear_arith)
            requires
                -m == c * qe + re,
        ;
        vstd::arithmetic::div_mod::lemma_fundamental_div_mod_converse(
            m + c - 1,
            c,
            -qe,
            c - 1 - re,
        );
    }
}

/// A coordinate whose shifted value lies under the grid's pixel extent
/// projects to a valid cell index: clamping pointer positions into the
/// window therefore keeps every projected coordinate inside the grid.
pub proof fn lemma_projection_stays_in_grid(p: int, offset: int, cell: int, cols: int)
    requires
        cell >= 1,
        cols >= 1,
        0 <= p + offset < cell * cols,
    ensures
        0 <= spec_project(p, offset, cell) < cols,
{
    let s = p + offset;
    vstd::arithmetic::div_mod::lemma_fundamental_div_mod(s, cell);
    vstd::arithmetic::div_mod::lemma_mod_bound(s, cell);
    let q = s / cell;
    let r = s % cell;
    assert(0 <= q && q < cols) by (nonlinear_arith)
        requires
            s == cell * q + r,
            0 <= r < cell,
            0 <= s < cell * cols,
            cell >= 1,
    ;
}

/// Maps a continuous coordinate, handed over as its floor `p`, to the grid
/// cell it falls in: the floor of `(p + offset) / cell_size`, by magnitude.
/// The result is not clamped; a caller that must stay inside a grid checks
/// the returned index against the grid's dimensions.
pub fn project_to_cell(p: i32, offset: i32, cell_size: i32) -> (idx: u64)
    requires
        cell_size >= 1,
    ensures
        idx == spec_project(p as int, offset as int, cell_size as int),
{
    let s: i64 = p as i64 + offset as i64;
    let c: u64 = cell_size as u64;
    if s >= 0 {
        let mag: u64 = s as u64;
        mag / c
    } else {
        let mag: u64 = (-s) as u64;
        proof {
            lemma_ceil_div(mag as int, c as int);
        }
        (mag + c - 1) / c
    }
}

} // verus!
