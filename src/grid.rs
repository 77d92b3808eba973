//! The timestamp surface of one polarity: an `ndarray` matrix of `i64`,
//! indexed `[row, column]`, seen by the proofs as a sequence of rows.

use vstd::prelude::*;

verus! {

/// The timestamps of one polarity, held in an `ndarray` matrix.
#[verifier::external_body]
pub struct SaeGrid {
    m: ndarray::Array2<i64>,
}

/// What a matrix holds: its rows, in order, each the cells of that row.
pub uninterp spec fn grid_cells(g: SaeGrid) -> Seq<Seq<i64>>;

/// The rows of `cells` are `height` rows of `width` cells each.
pub open spec fn has_shape(cells: Seq<Seq<i64>>, height: int, width: int) -> bool {
    &&& cells.len() == height
    &&& forall|r: int| 0 <= r < height ==> (#[trigger] cells[r]).len() == width
}

/// `height` rows of `width` cells, every one zero.
pub open spec fn zero_surface(height: int, width: int) -> Seq<Seq<i64>> {
    Seq::new(height as nat, |r: int| Seq::new(width as nat, |c: int| 0i64))
}

/// `cells` with the cell at row `r`, column `c` set to `v`.
pub open spec fn cells_set(cells: Seq<Seq<i64>>, r: int, c: int, v: i64) -> Seq<Seq<i64>> {
    cells.update(r, cells[r].update(c, v))
}

/// Relies on `Array2::zeros`: a `height` by `width` matrix whose every cell is zero.
/// It panics when the product of the non-zero lengths overflows `isize`; both
/// lengths positive with a product within `isize` keep clear of that.
#[verifier::external_body]
pub(crate) fn grid_zeros(height: usize, width: usize) -> (g: SaeGrid)
    requires
        height > 0,
        width > 0,
        height * width <= isize::MAX,
    ensures
        has_shape(grid_cells(g), height as int, width as int),
        forall|r: int, c: int|
            0 <= r < height && 0 <= c < width ==> #[trigger] grid_cells(g)[r][c] == 0,
{
    SaeGrid { m: ndarray::Array2::zeros((height, width)) }
}

/// Relies on indexing an `Array2` by `[row, column]`: the cell there, for an index in range.
#[verifier::external_body]
pub(crate) fn grid_get(g: &SaeGrid, r: usize, c: usize) -> (v: i64)
    requires
        r < grid_cells(*g).len(),
        c < grid_cells(*g)[r as int].len(),
    ensures
        v == grid_cells(*g)[r as int][c as int],
{
    g.m[[r, c]]
}

/// Relies on mutable indexing of an `Array2` by `[row, column]`: only that cell changes.
#[verifier::external_body]
pub(crate) fn grid_set(g: &mut SaeGrid, r: usize, c: usize, v: i64)
    requires
        r < grid_cells(*old(g)).len(),
        c < grid_cells(*old(g))[r as int].len(),
    ensures
        grid_cells(*final(g)) == cells_set(grid_cells(*old(g)), r as int, c as int, v),
{
    g.m[[r, c]] = v;
}

} // verus!
