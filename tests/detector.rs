use dvs_fast::{Event, FastDetector};

const HEIGHT: usize = 260;
const WIDTH: usize = 346;

const CIRCLE3: [(i32, i32); 16] = [
    (0, 3), (1, 3), (2, 2), (3, 1), (3, 0), (3, -1), (2, -2), (1, -3),
    (0, -3), (-1, -3), (-2, -2), (-3, -1), (-3, 0), (-3, 1), (-2, 2), (-1, 3),
];

const CIRCLE4: [(i32, i32); 20] = [
    (0, 4), (1, 4), (2, 3), (3, 2), (4, 1), (4, 0), (4, -1), (3, -2), (2, -3), (1, -4),
    (0, -4), (-1, -4), (-2, -3), (-3, -2), (-4, -1), (-4, 0), (-4, 1), (-3, 2), (-2, 3), (-1, 4),
];

fn ev(x: i32, y: i32, t: i64, on: bool) -> Event {
    Event { x: x as u16, y: y as u16, t, on }
}

/// Writes timestamp `t` at the points `first..first + len` of `circle` about `(cx, cy)`.
fn mark_arc(d: &mut FastDetector, circle: &[(i32, i32)], first: usize, len: usize, cx: i32, cy: i32, t: i64, on: bool) {
    for k in first..first + len {
        let (dx, dy) = circle[k % circle.len()];
        d.is_feature(&ev(cx + dx, cy + dy, t, on), 1);
    }
}

#[test]
fn border_excludes_pixel_left_of_margin() {
    let mut d = FastDetector::new(HEIGHT, WIDTH);
    assert!(d.is_border(3, 130, 1));
    // Whatever the surface holds, a pixel inside the margin is no corner.
    for y in 125..136 {
        for x in 0..10 {
            d.is_feature(&ev(x, y, 5 + x as i64, true), 1);
        }
    }
    assert!(!d.is_feature(&ev(3, 130, 100, true), 1));
}

#[test]
fn border_lets_pixel_at_margin_through() {
    let mut d = FastDetector::new(HEIGHT, WIDTH);
    assert!(!d.is_border(4, 130, 1));
    mark_arc(&mut d, &CIRCLE3, 0, 4, 4, 130, 100, true);
    mark_arc(&mut d, &CIRCLE4, 0, 4, 4, 130, 100, true);
    assert!(d.is_feature(&ev(4, 130, 200, true), 1));
}

#[test]
fn border_edges_and_scales() {
    let d = FastDetector::new(HEIGHT, WIDTH);
    assert!(!d.is_border(341, 255, 1));
    assert!(d.is_border(342, 130, 1));
    assert!(d.is_border(100, 256, 1));
    assert!(d.is_border(100, 3, 1));
    assert!(d.is_border(7, 130, 2));
    assert!(!d.is_border(8, 130, 2));
    assert!(d.is_border(100, 100, usize::MAX));
    assert!(d.is_border(100, 100, 100));
}

#[test]
fn uniform_surface_gives_no_corner() {
    let mut d = FastDetector::new(20, 20);
    for y in 0..20 {
        for x in 0..20 {
            d.is_feature(&ev(x, y, 50, false), 1);
        }
    }
    assert!(!d.is_feature(&ev(10, 10, 60, false), 1));
}

#[test]
fn fresh_surface_gives_no_corner() {
    let mut d = FastDetector::new(HEIGHT, WIDTH);
    assert!(!d.is_feature(&ev(100, 100, 10, true), 1));
    assert!(!d.is_feature(&ev(100, 100, 20, false), 1));
}

#[test]
fn synthetic_arcs_give_corner() {
    let mut d = FastDetector::new(HEIGHT, WIDTH);
    mark_arc(&mut d, &CIRCLE3, 0, 4, 100, 130, 100, true);
    mark_arc(&mut d, &CIRCLE4, 0, 4, 100, 130, 100, true);
    assert!(d.is_feature(&ev(100, 130, 200, true), 1));
}

#[test]
fn synthetic_arcs_wrapping_around_give_corner() {
    let mut d = FastDetector::new(HEIGHT, WIDTH);
    mark_arc(&mut d, &CIRCLE3, 14, 5, 50, 60, 100, false);
    mark_arc(&mut d, &CIRCLE4, 17, 7, 50, 60, 100, false);
    assert!(d.is_feature(&ev(50, 60, 200, false), 1));
}

#[test]
fn corner_belongs_to_one_polarity() {
    let mut d = FastDetector::new(HEIGHT, WIDTH);
    mark_arc(&mut d, &CIRCLE3, 0, 4, 100, 130, 100, true);
    mark_arc(&mut d, &CIRCLE4, 0, 4, 100, 130, 100, true);
    assert!(!d.is_feature(&ev(100, 130, 200, false), 1));
}

#[test]
fn arc_too_long_gives_no_corner() {
    let mut d = FastDetector::new(HEIGHT, WIDTH);
    mark_arc(&mut d, &CIRCLE3, 0, 7, 100, 130, 100, true);
    mark_arc(&mut d, &CIRCLE4, 0, 4, 100, 130, 100, true);
    assert!(!d.is_feature(&ev(100, 130, 200, true), 1));
}

#[test]
fn radius_four_stage_is_required() {
    let mut d = FastDetector::new(HEIGHT, WIDTH);
    mark_arc(&mut d, &CIRCLE3, 0, 4, 100, 130, 100, true);
    assert!(!d.is_feature(&ev(100, 130, 200, true), 1));
}

#[test]
fn radius_three_stage_is_required() {
    let mut d = FastDetector::new(HEIGHT, WIDTH);
    mark_arc(&mut d, &CIRCLE4, 0, 4, 100, 130, 100, true);
    assert!(!d.is_feature(&ev(100, 130, 200, true), 1));
}

#[test]
fn replay_is_deterministic() {
    let mut events = vec![];
    for k in 0..4 {
        let (dx, dy) = CIRCLE3[k];
        events.push(ev(100 + dx, 130 + dy, 100, true));
        let (dx, dy) = CIRCLE4[k];
        events.push(ev(100 + dx, 130 + dy, 100, true));
    }
    events.push(ev(100, 130, 200, true));
    for k in 0..60 {
        events.push(ev(30 + (k * 7) % 50, 40 + (k * 13) % 40, 300 + k as i64, k % 3 == 0));
    }
    let run = |events: &Vec<Event>| -> Vec<bool> {
        let mut d = FastDetector::new(HEIGHT, WIDTH);
        events.iter().map(|e| d.is_feature(e, 1)).collect()
    };
    let first = run(&events);
    let second = run(&events);
    assert_eq!(first, second);
    assert!(first[8]);
}

#[test]
fn stored_timestamp_never_decreases() {
    let mut d = FastDetector::new(HEIGHT, WIDTH);
    let mut last = d.read(true, 5, 5);
    assert_eq!(last, 0);
    for t in [1i64, 2, 2, 7, 1000] {
        d.is_feature(&ev(5, 5, t, true), 1);
        let now = d.read(true, 5, 5);
        assert_eq!(now, t);
        assert!(now >= last);
        last = now;
    }
    assert_eq!(d.read(false, 5, 5), 0);
}

#[test]
fn update_touches_one_cell() {
    let mut d = FastDetector::new(10, 12);
    d.is_feature(&ev(11, 9, 42, false), 1);
    assert_eq!(d.read(false, 11, 9), 42);
    assert_eq!(d.read(false, 10, 9), 0);
    assert_eq!(d.read(false, 11, 8), 0);
    assert_eq!(d.read(true, 11, 9), 0);
}

#[test]
fn every_pixel_is_safe() {
    let mut d = FastDetector::new(12, 14);
    let mut t = 0i64;
    for y in 0..12 {
        for x in 0..14 {
            t += 1;
            d.is_feature(&ev(x, y, t, (x + y) % 2 == 0), 1);
        }
    }
}

#[test]
fn try_new_rejects_empty_sensor() {
    assert!(FastDetector::try_new(0, 10).is_none());
    assert!(FastDetector::try_new(10, 0).is_none());
    assert!(FastDetector::try_new(usize::MAX, 2).is_none());
    let d = FastDetector::try_new(3, 4).unwrap();
    assert_eq!(d.read(true, 3, 2), 0);
}
