//! The record written for each detected feature when features are logged.

use vstd::prelude::*;

verus! {

/// Which detector found a logged feature.
#[derive(Debug, Clone, Copy, PartialEq, Eq)]
pub enum LogFeatureSource {
    ADDER,
    OpenCV,
    DVS,
}

/// A detected feature: its pixel, whether non-maximum suppression was applied, and its source.
#[derive(Debug, Clone, Copy)]
pub struct LogFeature {
    pub x: u16,
    pub y: u16,
    pub non_max_suppression: bool,
    pub source: LogFeatureSource,
}

/// The 16-bit two's-complement pattern of `v` read as unsigned.
pub open spec fn as_unsigned(v: i16) -> int {
    if v >= 0 {
        v as int
    } else {
        v as int + 0x1_0000
    }
}

/// The 16-bit two's-complement pattern of `v` read as unsigned.
fn to_unsigned(v: i16) -> (u: u16)
    ensures
        u as int == as_unsigned(v),
{
    if v >= 0 {
        v as u16
    } else {
        (v as i32 + 0x1_0000) as u16
    }
}

impl LogFeature {
    /// A feature of this detector at `(x, y)`, without non-maximum suppression.
    pub fn from_coord(x: i16, y: i16) -> (f: Self)
        ensures
            f.x as int == as_unsigned(x),
            f.y as int == as_unsigned(y),
            !f.non_max_suppression,
            f.source == LogFeatureSource::DVS,
    {
        LogFeature {
            x: to_unsigned(x),
            y: to_unsigned(y),
            non_max_suppression: false,
            source: LogFeatureSource::DVS,
        }
    }
}

} // verus!
