//! The arithmetic of cells that are laid out row after row.

use vstd::arithmetic::div_mod::lemma_fundamental_div_mod_converse;
use vstd::prelude::*;

verus! {

/// In rows of `ncols` cells, the cell of row `r` and column `c` is the only
/// one at its place.
pub proof fn lemma_cell_place(r: int, c: int, ncols: int)
    requires
        0 <= r,
        0 <= c < ncols,
    ensures
        (r * ncols + c) % ncols == c,
        (r * ncols + c) / ncols == r,
        0 <= r * ncols <= r * ncols + c,
{
    assert(0 <= r * ncols) by (nonlinear_arith)
        requires
            0 <= r,
            0 < ncols,
    ;
    lemma_fundamental_div_mod_converse(r * ncols + c, ncols, r, c);
}

/// A row before the last row of a table ends before the table does.
pub proof fn lemma_cell_within(r: int, c: int, nrows: int, ncols: int)
    requires
        0 <= r < nrows,
        0 <= c < ncols,
    ensures
        0 <= r * ncols + c < nrows * ncols,
{
    assert(r * ncols + ncols <= nrows * ncols) by (nonlinear_arith)
        requires
            0 <= r < nrows,
            0 < ncols,
    ;
    assert(0 <= r * ncols) by (nonlinear_arith)
        requires
            0 <= r,
            0 < ncols,
    ;
}

} // verus!
