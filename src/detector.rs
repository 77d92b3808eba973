//! The detector: two timestamp surfaces, one per polarity, and the two-scale
//! streak test run on each incoming event.

use crate::circle::{
    circle3, circle3_table, circle4, circle4_table, lemma_circle3_within, lemma_circle4_within,
    offsets_of, offsets_within,
};
use crate::grid::{
    cells_set, grid_cells, grid_get, grid_set, grid_zeros, has_shape, zero_surface, SaeGrid,
};
use crate::streak::{find_streak, has_streak, ring_fits, ring_values};
use vstd::prelude::*;

verus! {

/// One event of the camera: a pixel, a timestamp and an on/off polarity.
#[derive(Clone, Copy, Debug, PartialEq, Eq)]
pub struct Event {
    pub x: u16,
    pub y: u16,
    pub t: i64,
    pub on: bool,
}

/// The pixel `(x, y)` lies within `max_scale * 4` of an edge of a `height` by `width` sensor.
pub open spec fn is_border_spec(x: int, y: int, max_scale: int, height: int, width: int) -> bool {
    let margin = max_scale * 4;
    x < margin || x >= width - margin || y < margin || y >= height - margin
}

/// The pixel `(x, y)` of the surface `cells` is a corner: it is clear of the border,
/// the radius-three circle holds a streak of three to six points, and the
/// radius-four circle one of four to eight points.
pub open spec fn feature_at(
    cells: Seq<Seq<i64>>,
    x: int,
    y: int,
    max_scale: int,
    height: int,
    width: int,
) -> bool {
    &&& !is_border_spec(x, y, max_scale, height, width)
    &&& has_streak(ring_values(cells, circle3_table(), x, y), 3, 6)
    &&& has_streak(ring_values(cells, circle4_table(), x, y), 4, 8)
}

/// Clear of the border, both circles lie inside the sensor.
pub proof fn lemma_rings_fit(
    cells: Seq<Seq<i64>>,
    x: int,
    y: int,
    max_scale: int,
    height: int,
    width: int,
)
    requires
        has_shape(cells, height, width),
        max_scale >= 1,
        !is_border_spec(x, y, max_scale, height, width),
    ensures
        ring_fits(cells, circle3_table(), x, y),
        ring_fits(cells, circle4_table(), x, y),
{
    lemma_circle3_within();
    lemma_circle4_within();
    assert(max_scale * 4 >= 4);
    assert forall|k: int| 0 <= k < circle3_table().len() implies {
        let o = #[trigger] circle3_table()[k];
        &&& 0 <= y + o.1 < cells.len()
        &&& 0 <= x + o.0 < cells[y + o.1].len()
    } by {
        let o = circle3_table()[k];
        assert(0 <= y + o.1 < height);
        assert(cells[y + o.1].len() == width);
    }
    assert forall|k: int| 0 <= k < circle4_table().len() implies {
        let o = #[trigger] circle4_table()[k];
        &&& 0 <= y + o.1 < cells.len()
        &&& 0 <= x + o.0 < cells[y + o.1].len()
    } by {
        let o = circle4_table()[k];
        assert(0 <= y + o.1 < height);
        assert(cells[y + o.1].len() == width);
    }
}

/// What one call of `is_feature` does: the event's timestamp is written at its pixel in
/// the surface of its polarity, nothing else changes, and the result tells whether that
/// pixel is a corner of the updated surface.
pub open spec fn feature_step(
    before: FastDetector,
    after: FastDetector,
    e: Event,
    max_scale: int,
    r: bool,
) -> bool {
    &&& after.wf()
    &&& has_shape(after.surface(true), after.height_spec(), after.width_spec())
    &&& has_shape(after.surface(false), after.height_spec(), after.width_spec())
    &&& after.height_spec() == before.height_spec()
    &&& after.width_spec() == before.width_spec()
    &&& after.surface(e.on) == cells_set(before.surface(e.on), e.y as int, e.x as int, e.t)
    &&& after.surface(!e.on) == before.surface(!e.on)
    &&& r == feature_at(
        after.surface(e.on),
        e.x as int,
        e.y as int,
        max_scale,
        before.height_spec(),
        before.width_spec(),
    )
}

/// A corner detector over the events of one sensor.
pub struct FastDetector {
    sae_off: SaeGrid,
    sae_on: SaeGrid,
    circle3_: Vec<(i16, i16)>,
    circle4_: Vec<(i16, i16)>,
    height: usize,
    width: usize,
}

impl FastDetector {
    /// The surface of one polarity: for each pixel, the timestamp of its latest event.
    pub closed spec fn surface(&self, on: bool) -> Seq<Seq<i64>> {
        if on {
            grid_cells(self.sae_on)
        } else {
            grid_cells(self.sae_off)
        }
    }

    /// The sensor's height, in rows.
    pub closed spec fn height_spec(&self) -> int {
        self.height as int
    }

    /// The sensor's width, in columns.
    pub closed spec fn width_spec(&self) -> int {
        self.width as int
    }

    /// Both surfaces have the sensor's shape, and the circles are the fixed tables.
    pub closed spec fn wf(&self) -> bool {
        &&& has_shape(grid_cells(self.sae_off), self.height as int, self.width as int)
        &&& has_shape(grid_cells(self.sae_on), self.height as int, self.width as int)
        &&& offsets_of(self.circle3_@) == circle3_table()
        &&& offsets_of(self.circle4_@) == circle4_table()
        &&& self.circle3_@.len() == 16
        &&& self.circle4_@.len() == 20
    }

    /// A detector for a `sensor_height` by `sensor_width` sensor, every timestamp zero.
    pub fn new(sensor_height: usize, sensor_width: usize) -> (d: Self)
        requires
            sensor_height > 0,
            sensor_width > 0,
            sensor_height * sensor_width <= isize::MAX,
        ensures
            d.wf(),
            d.height_spec() == sensor_height,
            d.width_spec() == sensor_width,
            forall|on: bool|
                has_shape(#[trigger] d.surface(on), sensor_height as int, sensor_width as int),
            forall|on: bool|
                #[trigger] d.surface(on) == zero_surface(sensor_height as int, sensor_width as int),
            forall|on: bool, r: int, c: int|
                0 <= r < sensor_height && 0 <= c < sensor_width ==> #[trigger] d.surface(
                    on,
                )[r][c] == 0,
    {
        let sae_off = grid_zeros(sensor_height, sensor_width);
        let sae_on = grid_zeros(sensor_height, sensor_width);
        let circle3_ = circle3();
        let circle4_ = circle4();
        proof {
            lemma_circle3_within();
            lemma_circle4_within();
            let zero = zero_surface(sensor_height as int, sensor_width as int);
            assert forall|r: int| 0 <= r < sensor_height implies #[trigger] grid_cells(sae_off)[r]
                =~= zero[r] && grid_cells(sae_on)[r] =~= zero[r] by {}
            assert(grid_cells(sae_off) =~= zero);
            assert(grid_cells(sae_on) =~= zero);
        }
        FastDetector { sae_off, sae_on, circle3_, circle4_, height: sensor_height, width: sensor_width }
    }

    /// A detector as `new` makes it, or `None` when a dimension is zero or the
    /// cell count of a surface does not fit in `isize`.
    pub fn try_new(sensor_height: usize, sensor_width: usize) -> (d: Option<Self>)
        ensures
            d.is_none() <==> (sensor_height == 0 || sensor_width == 0 || sensor_height
                * sensor_width > isize::MAX),
            d matches Some(d) ==> {
                &&& d.wf()
                &&& d.height_spec() == sensor_height
                &&& d.width_spec() == sensor_width
                &&& forall|on: bool|
                    has_shape(#[trigger] d.surface(on), sensor_height as int, sensor_width as int)
                &&& forall|on: bool|
                    #[trigger] d.surface(on) == zero_surface(
                        sensor_height as int,
                        sensor_width as int,
                    )
                &&& forall|on: bool, r: int, c: int|
                    0 <= r < sensor_height && 0 <= c < sensor_width ==> #[trigger] d.surface(
                        on,
                    )[r][c] == 0
            },
    {
        if sensor_height == 0 || sensor_width == 0 {
            return None;
        }
        if sensor_height > (isize::MAX as usize) / sensor_width {
            proof {
                assert(sensor_height * sensor_width > isize::MAX) by (nonlinear_arith)
                    requires
                        sensor_height > (isize::MAX as usize) / sensor_width,
                        sensor_width > 0,
                ;
            }
            return None;
        }
        proof {
            assert(sensor_height * sensor_width <= isize::MAX) by (nonlinear_arith)
                requires
                    sensor_height <= (isize::MAX as usize) / sensor_width,
                    sensor_width > 0,
            ;
        }
        Some(FastDetector::new(sensor_height, sensor_width))
    }

    /// The timestamp of the latest event of polarity `on` at `(x, y)`, zero if none came.
    pub fn read(&self, on: bool, x: usize, y: usize) -> (t: i64)
        requires
            self.wf(),
            (x as int) < self.width_spec(),
            (y as int) < self.height_spec(),
        ensures
            t == self.surface(on)[y as int][x as int],
    {
        if on {
            grid_get(&self.sae_on, y, x)
        } else {
            grid_get(&self.sae_off, y, x)
        }
    }

    /// Whether `(x, y)` lies within `max_scale * 4` of an edge of the sensor.
    pub fn is_border(&self, x: usize, y: usize, max_scale: usize) -> (b: bool)
        ensures
            b == is_border_spec(
                x as int,
                y as int,
                max_scale as int,
                self.height_spec(),
                self.width_spec(),
            ),
    {
        if max_scale > usize::MAX / 4 {
            assert(max_scale * 4 > usize::MAX);
            return true;
        }
        let cs: usize = max_scale * 4;
        x < cs || self.width < cs || x >= self.width - cs || y < cs || self.height < cs || y
            >= self.height - cs
    }

    /// Records the event in the surface of its polarity, then tells whether its
    /// pixel is a corner of that surface.
    pub fn is_feature(&mut self, e: &Event, max_scale: usize) -> (r: bool)
        requires
            old(self).wf(),
            (e.x as int) < old(self).width_spec(),
            (e.y as int) < old(self).height_spec(),
            max_scale >= 1,
        ensures
            feature_step(*old(self), *final(self), *e, max_scale as int, r),
    {
        // Update the surface of the event's polarity.
        if e.on {
            grid_set(&mut self.sae_on, e.y as usize, e.x as usize, e.t);
        } else {
            grid_set(&mut self.sae_off, e.y as usize, e.x as usize, e.t);
        }
        let sae_pol = if e.on {
            &self.sae_on
        } else {
            &self.sae_off
        };
        assert(has_shape(grid_cells(*sae_pol), self.height as int, self.width as int));

        if self.is_border(e.x as usize, e.y as usize, max_scale) {
            return false;
        }
        proof {
            lemma_rings_fit(
                grid_cells(*sae_pol),
                e.x as int,
                e.y as int,
                max_scale as int,
                self.height as int,
                self.width as int,
            );
        }
        // The radius-three circle picks candidates; the radius-four circle confirms them.
        let mut found_streak: bool = find_streak(sae_pol, &self.circle3_, e, 3, 6);
        if found_streak {
            found_streak = find_streak(sae_pol, &self.circle4_, e, 4, 8);
        }
        found_streak
    }
}

} // verus!
