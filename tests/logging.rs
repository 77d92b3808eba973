use dvs_fast::{LogFeature, LogFeatureSource};

#[test]
fn from_coord_keeps_coordinates() {
    let f = LogFeature::from_coord(12, 300);
    assert_eq!(f.x, 12);
    assert_eq!(f.y, 300);
    assert!(!f.non_max_suppression);
    assert_eq!(f.source, LogFeatureSource::DVS);
}

#[test]
fn from_coord_reads_negative_as_unsigned() {
    let f = LogFeature::from_coord(-1, i16::MIN);
    assert_eq!(f.x, 65535);
    assert_eq!(f.y, 32768);
}
