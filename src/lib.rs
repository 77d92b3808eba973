//! Event-camera corner detection over a Surface of Active Events.
//!
//! Each event writes its timestamp into the surface of its polarity; its pixel is a
//! corner when, on two circles about it, a contiguous arc of neighbours holds
//! timestamps strictly more recent than every other neighbour on that circle.

mod circle;
mod detector;
mod grid;
mod laws;
pub mod logging;
mod streak;

pub use circle::{circle3, circle3_table, circle4, circle4_table, offsets_of, offsets_within};
pub use detector::{feature_at, feature_step, is_border_spec, lemma_rings_fit, Event, FastDetector};
pub use grid::{cells_set, grid_cells, has_shape, zero_surface, SaeGrid};
pub use laws::{
    after_updates, law_both_stages_required, law_cell_monotone, law_deterministic,
    law_step_monotone, law_synthetic_corner, law_uniform_not_feature,
};
pub use logging::{as_unsigned, LogFeature, LogFeatureSource};
pub use streak::{arc_qualifies, find_streak, has_streak, ring_at, ring_fits, ring_values, tj_get};
