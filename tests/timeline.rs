use gantt_core::timeline::{
    TimelineScale, TimelineViewport, MAX_PIXELS_PER_DAY, MICROS_PER_PIXEL, MIN_PIXELS_PER_DAY,
};

const DAY: i64 = 86_400;

#[test]
fn start_is_at_zero() {
    let v = TimelineViewport::new(1_700_000_000, 1_700_000_000 + 30 * DAY);
    assert_eq!(v.datetime_to_x(v.start), 0);
    assert_eq!(v.date_to_x(v.start), 0);
}

#[test]
fn offsets_follow_the_zoom() {
    let v = TimelineViewport::new(0, 10 * DAY);
    assert_eq!(v.pixels_per_day, 18 * MICROS_PER_PIXEL);
    assert_eq!(v.scale, TimelineScale::Weeks);
    assert_eq!(v.datetime_to_x(DAY), 18_000_000);
    assert_eq!(v.datetime_to_x(DAY / 2), 9_000_000);
    assert_eq!(v.datetime_to_x(3_600), 750_000);
    assert_eq!(v.datetime_to_x(-DAY), -18_000_000);
    assert_eq!(v.datetime_to_x(-1), -209);
    assert_eq!(v.total_width(), 180_000_000);
    assert_eq!(v.pixels_per_hour(), 750_000);
}

#[test]
fn offsets_map_back_within_a_second() {
    let mut v = TimelineViewport::new(1_000, 1_000 + 100 * DAY);
    for _ in 0..3 {
        for dt in [1_000, 1_001, 4_321, 1_000 + 7 * DAY + 13, 999, -50_000] {
            let back = v.x_to_datetime(v.datetime_to_x(dt));
            assert!(back <= dt && dt - 1 <= back, "{} came back as {}", dt, back);
        }
        v.zoom_out();
        v.zoom_out();
        v.zoom_out();
    }
    assert_eq!(v.x_to_datetime(0), 1_000);
}

#[test]
fn zoom_in_then_out_restores_level() {
    let mut v = TimelineViewport::new(0, DAY);
    let before = v.pixels_per_day;
    v.zoom_in();
    assert_eq!(v.pixels_per_day, 21_600_000);
    v.zoom_out();
    assert!(before - 1 <= v.pixels_per_day && v.pixels_per_day <= before);
    assert_eq!(v.pixels_per_hour, v.pixels_per_day / 24);
}

#[test]
fn zoom_is_clamped() {
    let mut v = TimelineViewport::new(0, DAY);
    for _ in 0..40 {
        v.zoom_in();
    }
    assert_eq!(v.pixels_per_day, MAX_PIXELS_PER_DAY);
    assert_eq!(v.scale, TimelineScale::Hours);
    for _ in 0..60 {
        v.zoom_out();
    }
    assert_eq!(v.pixels_per_day, MIN_PIXELS_PER_DAY);
    assert_eq!(v.scale, TimelineScale::Months);
}

#[test]
fn scale_follows_thresholds_both_ways() {
    let mut v = TimelineViewport::new(0, DAY);
    let mut seen_in = Vec::new();
    while v.pixels_per_day < MAX_PIXELS_PER_DAY {
        v.zoom_in();
        let expected = if v.pixels_per_day > 50_000_000 {
            TimelineScale::Hours
        } else if v.pixels_per_day > 10_000_000 {
            TimelineScale::Days
        } else if v.pixels_per_day > 3_000_000 {
            TimelineScale::Weeks
        } else {
            TimelineScale::Months
        };
        assert_eq!(v.scale, expected);
        seen_in.push((v.pixels_per_day, v.scale));
    }
    while v.pixels_per_day > MIN_PIXELS_PER_DAY {
        v.zoom_out();
        assert_eq!(v.scale == TimelineScale::Hours, v.pixels_per_day > 50_000_000);
    }
    let mut w = TimelineViewport::new(0, DAY);
    w.pixels_per_day = 50_000_000;
    w.pixels_per_hour = w.pixels_per_day / 24;
    w.zoom_in();
    assert_eq!(w.pixels_per_day, 60_000_000);
    assert_eq!(w.scale, TimelineScale::Hours);
    w.zoom_out();
    assert_eq!(w.pixels_per_day, 50_000_000);
    assert_eq!(w.scale, TimelineScale::Days);
    assert!(!seen_in.is_empty());
}
