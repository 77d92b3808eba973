//! The streak criterion: does a contiguous arc of a circle hold timestamps
//! strictly more recent than every other point of that circle?

use crate::circle::offsets_of;
use crate::detector::Event;
use crate::grid::{grid_cells, grid_get, SaeGrid};
use vstd::prelude::*;

verus! {

/// The timestamps at the points of `circle` around `(x, y)`, in circle order.
pub open spec fn ring_values(cells: Seq<Seq<i64>>, circle: Seq<(int, int)>, x: int, y: int) -> Seq<
    i64,
> {
    Seq::new(circle.len(), |k: int| cells[y + circle[k].1][x + circle[k].0])
}

/// The point at offset `o` from `(x, y)` is a cell of `cells`.
pub open spec fn point_fits(cells: Seq<Seq<i64>>, o: (int, int), x: int, y: int) -> bool {
    &&& 0 <= y + o.1 < cells.len()
    &&& 0 <= x + o.0 < cells[y + o.1].len()
}

/// Every point of `circle` around `(x, y)` is a cell of `cells`.
pub open spec fn ring_fits(cells: Seq<Seq<i64>>, circle: Seq<(int, int)>, x: int, y: int) -> bool {
    forall|k: int| 0 <= k < circle.len() ==> point_fits(cells, #[trigger] circle[k], x, y)
}

/// The value `j` places after position `i` on the circular sequence `vals`.
pub open spec fn ring_at(vals: Seq<i64>, i: int, j: int) -> i64 {
    vals[(i + j) % (vals.len() as int)]
}

/// The arc of `len` points starting at position `i` is a streak: its first point is
/// not below the point before it, its last point is not below the point after it,
/// and every point outside it is strictly below every point inside it.
pub open spec fn arc_qualifies(vals: Seq<i64>, i: int, len: int) -> bool {
    let n = vals.len() as int;
    &&& ring_at(vals, i, 0) >= ring_at(vals, i, n - 1)
    &&& ring_at(vals, i, len - 1) >= ring_at(vals, i, len)
    &&& forall|j: int, k: int|
        len <= j < n && 0 <= k < len ==> #[trigger] ring_at(vals, i, j) < #[trigger] ring_at(
            vals,
            i,
            k,
        )
}

/// Some arc of `vals` whose length lies in `[min_len, max_len]` is a streak.
pub open spec fn has_streak(vals: Seq<i64>, min_len: int, max_len: int) -> bool {
    exists|i: int, len: int|
        0 <= i < vals.len() && min_len <= len <= max_len && #[trigger] arc_qualifies(vals, i, len)
}

/// The timestamp at the point `i + j` (taken around the circle) of `circle` about the event's pixel.
pub fn tj_get(sae_pol: &SaeGrid, circle: &Vec<(i16, i16)>, e: &Event, i: usize, j: usize) -> (t:
    i64)
    requires
        circle@.len() > 0,
        i + j <= usize::MAX,
        point_fits(
            grid_cells(*sae_pol),
            offsets_of(circle@)[(i + j) as int % circle@.len() as int],
            e.x as int,
            e.y as int,
        ),
    ensures
        t == ring_at(
            ring_values(grid_cells(*sae_pol), offsets_of(circle@), e.x as int, e.y as int),
            i as int,
            j as int,
        ),
{
    let k: usize = (i + j) % circle.len();
    let o = circle[k];
    proof {
        assert(offsets_of(circle@)[k as int] == (o.0 as int, o.1 as int));
    }
    let r: usize = (e.y as i32 + o.1 as i32) as usize;
    let c: usize = (e.x as i32 + o.0 as i32) as usize;
    grid_get(sae_pol, r, c)
}

/// Whether the circle `circle` about the event's pixel holds a streak whose length
/// lies in `[min_len, max_len]`.
pub fn find_streak(
    sae_pol: &SaeGrid,
    circle: &Vec<(i16, i16)>,
    e: &Event,
    min_len: usize,
    max_len: usize,
) -> (found: bool)
    requires
        1 <= min_len <= max_len < circle@.len() <= usize::MAX / 2,
        ring_fits(grid_cells(*sae_pol), offsets_of(circle@), e.x as int, e.y as int),
    ensures
        found == has_streak(
            ring_values(grid_cells(*sae_pol), offsets_of(circle@), e.x as int, e.y as int),
            min_len as int,
            max_len as int,
        ),
{
    let ghost vals = ring_values(grid_cells(*sae_pol), offsets_of(circle@), e.x as int, e.y as int);
    let n: usize = circle.len();
    let mut i: usize = 0;
    while i < n
        invariant
            vals == ring_values(grid_cells(*sae_pol), offsets_of(circle@), e.x as int, e.y as int),
            vals.len() == n,
            n == circle@.len(),
            1 <= min_len <= max_len < n <= usize::MAX / 2,
            ring_fits(grid_cells(*sae_pol), offsets_of(circle@), e.x as int, e.y as int),
            i <= n,
            forall|ii: int, l: int|
                0 <= ii < i && min_len <= l <= max_len ==> !#[trigger] arc_qualifies(vals, ii, l),
        decreases n - i,
    {
        let mut len: usize = min_len;
        while len <= max_len
            invariant
                vals == ring_values(
                    grid_cells(*sae_pol),
                    offsets_of(circle@),
                    e.x as int,
                    e.y as int,
                ),
                vals.len() == n,
                n == circle@.len(),
                1 <= min_len <= max_len < n <= usize::MAX / 2,
                ring_fits(grid_cells(*sae_pol), offsets_of(circle@), e.x as int, e.y as int),
                i < n,
                min_len <= len <= max_len + 1,
                forall|ii: int, l: int|
                    0 <= ii < i && min_len <= l <= max_len ==> !#[trigger] arc_qualifies(
                        vals,
                        ii,
                        l,
                    ),
                forall|l: int| min_len <= l < len ==> !#[trigger] arc_qualifies(vals, i as int, l),
            decreases max_len + 1 - len,
        {
            let first: i64 = tj_get(sae_pol, circle, e, i, 0);
            if first < tj_get(sae_pol, circle, e, i, n - 1) {
                len = len + 1;
                continue;
            }
            if tj_get(sae_pol, circle, e, i, len - 1) < tj_get(sae_pol, circle, e, i, len) {
                len = len + 1;
                continue;
            }
            let mut min_t: i64 = first;
            let ghost mut at_min: int = 0;
            let mut j: usize = 1;
            while j < len
                invariant
                    vals == ring_values(
                        grid_cells(*sae_pol),
                        offsets_of(circle@),
                        e.x as int,
                        e.y as int,
                    ),
                    n == circle@.len(),
                    1 <= min_len <= len <= max_len < n <= usize::MAX / 2,
                    i < n,
                    ring_fits(grid_cells(*sae_pol), offsets_of(circle@), e.x as int, e.y as int),
                    1 <= j <= len,
                    0 <= at_min < j,
                    min_t == ring_at(vals, i as int, at_min),
                    forall|k: int| 0 <= k < j ==> min_t <= #[trigger] ring_at(vals, i as int, k),
                decreases len - j,
            {
                let tj: i64 = tj_get(sae_pol, circle, e, i, j);
                if tj < min_t {
                    min_t = tj;
                    proof {
                        at_min = j as int;
                    }
                }
                j = j + 1;
            }
            let mut did_break: bool = false;
            let mut j: usize = len;
            while j < n
                invariant_except_break
                    !did_break,
                invariant
                    vals == ring_values(
                        grid_cells(*sae_pol),
                        offsets_of(circle@),
                        e.x as int,
                        e.y as int,
                    ),
                    n == circle@.len(),
                    1 <= min_len <= len <= max_len < n <= usize::MAX / 2,
                    i < n,
                    ring_fits(grid_cells(*sae_pol), offsets_of(circle@), e.x as int, e.y as int),
                    len <= j <= n,
                    forall|jj: int| len <= jj < j ==> #[trigger] ring_at(vals, i as int, jj) < min_t,
                ensures
                    did_break ==> len <= j < n && ring_at(vals, i as int, j as int) >= min_t,
                    !did_break ==> forall|jj: int|
                        len <= jj < n ==> #[trigger] ring_at(vals, i as int, jj) < min_t,
                decreases n - j,
            {
                let tj: i64 = tj_get(sae_pol, circle, e, i, j);
                if tj >= min_t {
                    did_break = true;
                    break;
                }
                j = j + 1;
            }
            if !did_break {
                proof {
                    assert forall|jj: int, k: int|
                        len <= jj < n && 0 <= k < len implies #[trigger] ring_at(
                            vals,
                            i as int,
                            jj,
                        ) < #[trigger] ring_at(vals, i as int, k) by {
                        assert(ring_at(vals, i as int, jj) < min_t);
                        assert(min_t <= ring_at(vals, i as int, k));
                    }
                    assert(arc_qualifies(vals, i as int, len as int));
                }
                return true;
            }
            proof {
                assert(ring_at(vals, i as int, j as int) >= ring_at(vals, i as int, at_min));
            }
            len = len + 1;
        }
        i = i + 1;
    }
    false
}

} // verus!
