//! Properties of the detector that relate several events or hold of every input.

use crate::circle::{
    circle3_table, circle4_table, lemma_circle3_within, lemma_circle4_within, offsets_within,
};
use crate::detector::{feature_at, feature_step, is_border_spec, lemma_rings_fit, Event, FastDetector};
use crate::grid::{cells_set, has_shape};
use crate::streak::{arc_qualifies, has_streak, ring_at, ring_fits, ring_values};
use vstd::prelude::*;

verus! {

/// The surface after the timestamps `ts` are written, in order, at pixel `(x, y)`.
pub open spec fn after_updates(cells: Seq<Seq<i64>>, x: int, y: int, ts: Seq<i64>) -> Seq<
    Seq<i64>,
>
    decreases ts.len(),
{
    if ts.len() == 0 {
        cells
    } else {
        cells_set(after_updates(cells, x, y, ts.drop_last()), y, x, ts.last())
    }
}

proof fn lemma_after_updates_cell(cells: Seq<Seq<i64>>, x: int, y: int, ts: Seq<i64>)
    requires
        0 <= y < cells.len(),
        0 <= x < cells[y].len(),
    ensures
        after_updates(cells, x, y, ts).len() == cells.len(),
        after_updates(cells, x, y, ts)[y].len() == cells[y].len(),
        ts.len() > 0 ==> after_updates(cells, x, y, ts)[y][x] == ts.last(),
    decreases ts.len(),
{
    if ts.len() > 0 {
        lemma_after_updates_cell(cells, x, y, ts.drop_last());
    }
}

/// Events of non-decreasing timestamps at one pixel of one polarity leave a
/// non-decreasing timestamp there: after `a` of them it is at most what it is after `b >= a`.
pub proof fn law_cell_monotone(
    cells: Seq<Seq<i64>>,
    x: int,
    y: int,
    ts: Seq<i64>,
    a: int,
    b: int,
)
    requires
        0 <= y < cells.len(),
        0 <= x < cells[y].len(),
        forall|i: int, j: int| 0 <= i <= j < ts.len() ==> ts[i] <= ts[j],
        1 <= a <= b <= ts.len(),
    ensures
        after_updates(cells, x, y, ts.take(a))[y][x] <= after_updates(cells, x, y, ts.take(b))[y][x],
{
    lemma_after_updates_cell(cells, x, y, ts.take(a));
    lemma_after_updates_cell(cells, x, y, ts.take(b));
    assert(ts.take(a).last() == ts[a - 1]);
    assert(ts.take(b).last() == ts[b - 1]);
}

/// An event whose timestamp is not below the one stored at its pixel leaves there its
/// own timestamp, so the stored value does not decrease.
pub proof fn law_step_monotone(
    before: FastDetector,
    after: FastDetector,
    e: Event,
    max_scale: int,
    r: bool,
)
    requires
        has_shape(before.surface(e.on), before.height_spec(), before.width_spec()),
        (e.x as int) < before.width_spec(),
        (e.y as int) < before.height_spec(),
        before.surface(e.on)[e.y as int][e.x as int] <= e.t,
        feature_step(before, after, e, max_scale, r),
    ensures
        after.surface(e.on)[e.y as int][e.x as int] == e.t,
        after.surface(e.on)[e.y as int][e.x as int] >= before.surface(e.on)[e.y as int][e.x as int],
{
}

/// Where every point of a circle holds the same timestamp, no arc is a streak.
proof fn lemma_flat_ring_no_streak(vals: Seq<i64>, v: i64, min_len: int, max_len: int)
    requires
        1 <= min_len,
        max_len < vals.len(),
        forall|k: int| 0 <= k < vals.len() ==> #[trigger] vals[k] == v,
    ensures
        !has_streak(vals, min_len, max_len),
{
    assert forall|i: int, len: int|
        0 <= i < vals.len() && min_len <= len <= max_len implies !#[trigger] arc_qualifies(
        vals,
        i,
        len,
    ) by {
        let n = vals.len() as int;
        assert(vals[(i + len) % n] == v);
        assert(vals[(i + 0) % n] == v);
        assert(!(ring_at(vals, i, len) < ring_at(vals, i, 0)));
    }
}

/// A surface that holds one timestamp everywhere gives no corner, whatever the event
/// written at the tested pixel.
pub proof fn law_uniform_not_feature(
    cells: Seq<Seq<i64>>,
    v: i64,
    x: int,
    y: int,
    t: i64,
    max_scale: int,
    height: int,
    width: int,
)
    requires
        has_shape(cells, height, width),
        forall|r: int, c: int| 0 <= r < height && 0 <= c < width ==> #[trigger] cells[r][c] == v,
        0 <= x < width,
        0 <= y < height,
        max_scale >= 1,
    ensures
        !feature_at(cells_set(cells, y, x, t), x, y, max_scale, height, width),
{
    let updated = cells_set(cells, y, x, t);
    if !is_border_spec(x, y, max_scale, height, width) {
        assert(has_shape(updated, height, width)) by {
            assert forall|r: int| 0 <= r < height implies (#[trigger] updated[r]).len() == width by {
                if r != y {
                    assert(updated[r] == cells[r]);
                }
            }
        }
        lemma_rings_fit(updated, x, y, max_scale, height, width);
        lemma_circle3_within();
        lemma_circle4_within();
        let vals = ring_values(updated, circle3_table(), x, y);
        assert forall|k: int| 0 <= k < vals.len() implies #[trigger] vals[k] == v by {
            let o = circle3_table()[k];
            assert(o.0 != 0 || o.1 != 0);
            if y + o.1 == y {
                assert(updated[y][x + o.0] == cells[y][x + o.0]);
            } else {
                assert(updated[y + o.1] == cells[y + o.1]);
            }
        }
        lemma_flat_ring_no_streak(vals, v, 3, 6);
    }
}

/// Both circles must hold a streak: without one on the radius-four circle there is no
/// corner, whatever the radius-three circle holds.
pub proof fn law_both_stages_required(
    cells: Seq<Seq<i64>>,
    x: int,
    y: int,
    max_scale: int,
    height: int,
    width: int,
)
    requires
        !has_streak(ring_values(cells, circle4_table(), x, y), 4, 8),
    ensures
        !feature_at(cells, x, y, max_scale, height, width),
{
}

/// Two detectors in the same state, given the same event, give the same answer and
/// end in the same state.
pub proof fn law_deterministic(
    a0: FastDetector,
    a1: FastDetector,
    ra: bool,
    b0: FastDetector,
    b1: FastDetector,
    rb: bool,
    e: Event,
    max_scale: int,
)
    requires
        a0.surface(true) == b0.surface(true),
        a0.surface(false) == b0.surface(false),
        a0.height_spec() == b0.height_spec(),
        a0.width_spec() == b0.width_spec(),
        feature_step(a0, a1, e, max_scale, ra),
        feature_step(b0, b1, e, max_scale, rb),
    ensures
        ra == rb,
        a1.surface(true) == b1.surface(true),
        a1.surface(false) == b1.surface(false),
        a1.height_spec() == b1.height_spec(),
        a1.width_spec() == b1.width_spec(),
{
}


/// Writing at the centre pixel leaves the timestamps on a circle about it unchanged.
proof fn lemma_ring_ignores_centre(
    cells: Seq<Seq<i64>>,
    circle: Seq<(int, int)>,
    radius: int,
    x: int,
    y: int,
    t: i64,
)
    requires
        offsets_within(circle, radius),
        ring_fits(cells, circle, x, y),
        0 <= y < cells.len(),
        0 <= x < cells[y].len(),
    ensures
        ring_values(cells_set(cells, y, x, t), circle, x, y) == ring_values(cells, circle, x, y),
{
    let updated = cells_set(cells, y, x, t);
    assert forall|k: int| 0 <= k < circle.len() implies #[trigger] ring_values(
        updated,
        circle,
        x,
        y,
    )[k] == ring_values(cells, circle, x, y)[k] by {
        let o = circle[k];
        assert(o.0 != 0 || o.1 != 0);
        if o.1 != 0 {
            assert(updated[y + o.1] == cells[y + o.1]);
        }
    }
    assert(ring_values(updated, circle, x, y) =~= ring_values(cells, circle, x, y));
}

/// A pixel clear of the border is a corner once its event is written, when, before it,
/// four consecutive points of the radius-three circle and `len4` (four to eight)
/// consecutive points of the radius-four circle hold a timestamp `hi`, and every
/// other point of both circles holds a lower timestamp `lo`.
pub proof fn law_synthetic_corner(
    cells: Seq<Seq<i64>>,
    x: int,
    y: int,
    t: i64,
    max_scale: int,
    height: int,
    width: int,
    a: int,
    b: int,
    len4: int,
    hi: i64,
    lo: i64,
)
    requires
        has_shape(cells, height, width),
        max_scale >= 1,
        !is_border_spec(x, y, max_scale, height, width),
        0 <= a < 16,
        0 <= b < 20,
        4 <= len4 <= 8,
        lo < hi,
        forall|k: int|
            0 <= k < 16 ==> #[trigger] ring_at(ring_values(cells, circle3_table(), x, y), a, k)
                == if k < 4 {
                hi
            } else {
                lo
            },
        forall|k: int|
            0 <= k < 20 ==> #[trigger] ring_at(ring_values(cells, circle4_table(), x, y), b, k)
                == if k < len4 {
                hi
            } else {
                lo
            },
    ensures
        feature_at(cells_set(cells, y, x, t), x, y, max_scale, height, width),
{
    lemma_circle3_within();
    lemma_circle4_within();
    lemma_rings_fit(cells, x, y, max_scale, height, width);
    assert(max_scale * 4 >= 4);
    lemma_ring_ignores_centre(cells, circle3_table(), 3, x, y, t);
    lemma_ring_ignores_centre(cells, circle4_table(), 4, x, y, t);
    let v3 = ring_values(cells, circle3_table(), x, y);
    let v4 = ring_values(cells, circle4_table(), x, y);
    assert(ring_at(v3, a, 0) == hi && ring_at(v3, a, 15) == lo);
    assert(ring_at(v3, a, 3) == hi && ring_at(v3, a, 4) == lo);
    assert(arc_qualifies(v3, a, 4));
    assert(ring_at(v4, b, 0) == hi && ring_at(v4, b, 19) == lo);
    assert(ring_at(v4, b, len4 - 1) == hi && ring_at(v4, b, len4) == lo);
    assert(arc_qualifies(v4, b, len4));
}

} // verus!
