//! The timeline's pixel axis: maps points in time to horizontal offsets and
//! picks a label granularity from the zoom level.
//!
//! Lengths on the axis are counted in micropixels (millionths of a pixel),
//! points in time in seconds from 1970-01-01T00:00:00.
use vstd::prelude::*;
use vstd::arithmetic::div_mod::{lemma_fundamental_div_mod, lemma_fundamental_div_mod_converse, lemma_mod_bound};

verus! {

/// Label granularity of the timeline.
#[derive(Debug, Clone, Copy, PartialEq, Eq, Structural)]
pub enum TimelineScale {
    Hours,
    Days,
    Weeks,
    Months,
}

/// Micropixels in one pixel.
pub const MICROS_PER_PIXEL: u64 = 1_000_000;

pub const SECONDS_PER_DAY: i128 = 86_400;

/// Smallest zoom level: 1 pixel per day.
pub const MIN_PIXELS_PER_DAY: u64 = 1_000_000;

/// Largest zoom level: 120 pixels per day.
pub const MAX_PIXELS_PER_DAY: u64 = 120_000_000;

/// Zoom level of a new viewport: 18 pixels per day.
pub const INITIAL_PIXELS_PER_DAY: u64 = 18_000_000;

/// Above this zoom level (50 pixels per day) labels show hours.
pub const HOURS_ABOVE: u64 = 50_000_000;

/// Above this zoom level (10 pixels per day) labels show days.
pub const DAYS_ABOVE: u64 = 10_000_000;

/// Above this zoom level (3 pixels per day) labels show weeks; at or below
/// it, months.
pub const WEEKS_ABOVE: u64 = 3_000_000;

/// The label granularity for a zoom level, by fixed thresholds.
pub open spec fn scale_for(pixels_per_day: int) -> TimelineScale {
    if pixels_per_day > HOURS_ABOVE {
        TimelineScale::Hours
    } else if pixels_per_day > DAYS_ABOVE {
        TimelineScale::Days
    } else if pixels_per_day > WEEKS_ABOVE {
        TimelineScale::Weeks
    } else {
        TimelineScale::Months
    }
}

/// Offset of `dt` from `start` at the given zoom level: elapsed seconds as
/// a fraction of a day times the zoom, rounded down.
pub open spec fn pixel_offset(start: int, dt: int, pixels_per_day: int) -> int {
    ((dt - start) * pixels_per_day) / (SECONDS_PER_DAY as int)
}

/// Seconds from the viewport's start to the point at offset `x`, rounded
/// down.
pub open spec fn seconds_at(x: int, pixels_per_day: int) -> int {
    (x * SECONDS_PER_DAY) / pixels_per_day
}

/// Zoom level after one step in: times 1.2, at most the largest level.
pub open spec fn zoomed_in(pixels_per_day: int) -> int {
    if pixels_per_day * 6 / 5 > MAX_PIXELS_PER_DAY {
        MAX_PIXELS_PER_DAY as int
    } else {
        pixels_per_day * 6 / 5
    }
}

/// Zoom level after one step out: divided by 1.2, at least the smallest
/// level.
pub open spec fn zoomed_out(pixels_per_day: int) -> int {
    if pixels_per_day * 5 / 6 < MIN_PIXELS_PER_DAY {
        MIN_PIXELS_PER_DAY as int
    } else {
        pixels_per_day * 5 / 6
    }
}

proof fn lemma_floor_div(x: int, d: int)
    requires
        d > 0,
    ensures
        d * (x / d) <= x < d * (x / d) + d,
{
    lemma_fundamental_div_mod(x, d);
    lemma_mod_bound(x, d);
}

/// The viewport's start lies at offset zero, whatever the zoom level.
pub proof fn lemma_start_at_origin(start: int, pixels_per_day: int)
    ensures
        pixel_offset(start, start, pixels_per_day) == 0,
{
}

/// Mapping a point in time to its offset and back gives the same point, or
/// the second before it: offsets are rounded down, and at every allowed zoom
/// level one second is wider than one micropixel.
pub proof fn lemma_time_round_trip(start: int, dt: int, pixels_per_day: int)
    requires
        MIN_PIXELS_PER_DAY <= pixels_per_day,
    ensures
        dt - 1 <= start + seconds_at(pixel_offset(start, dt, pixels_per_day), pixels_per_day) <= dt,
{
    let (e, p, d) = (dt - start, pixels_per_day, SECONDS_PER_DAY as int);
    let x = pixel_offset(start, dt, p);
    let y = seconds_at(x, p);
    lemma_floor_div(e * p, d);
    lemma_floor_div(x * d, p);
    assert(d * x <= e * p < d * x + d);
    assert(p * y <= x * d < p * y + p);
    assert(e - 1 <= y <= e) by (nonlinear_arith)
        requires
            d * x <= e * p < d * x + d,
            p * y <= x * d < p * y + p,
            0 < d < p,
    ;
}

/// Mapping an offset to its point in time and back gives the same offset,
/// or one less by at most the width of a second plus one micropixel.
pub proof fn lemma_offset_round_trip(start: int, x: int, pixels_per_day: int)
    requires
        MIN_PIXELS_PER_DAY <= pixels_per_day,
    ensures
        ({
            let back = pixel_offset(start, start + seconds_at(x, pixels_per_day), pixels_per_day);
            &&& back <= x
            &&& (x - back) * SECONDS_PER_DAY < pixels_per_day + SECONDS_PER_DAY
        }),
{
    let (p, d) = (pixels_per_day, SECONDS_PER_DAY as int);
    let y = seconds_at(x, p);
    let z = pixel_offset(start, start + y, p);
    assert(start + y - start == y);
    lemma_floor_div(x * d, p);
    lemma_floor_div(y * p, d);
    assert(p * y <= x * d < p * y + p);
    assert(d * z <= y * p < d * z + d);
    assert(z <= x && (x - z) * d < p + d) by (nonlinear_arith)
        requires
            p * y <= x * d < p * y + p,
            d * z <= y * p < d * z + d,
            0 < d < p,
    ;
}

/// One step in followed by one step out restores the zoom level, up to one
/// micropixel of rounding, when the step in is not cut off at the largest
/// level.
pub proof fn lemma_zoom_in_out(pixels_per_day: int)
    requires
        MIN_PIXELS_PER_DAY <= pixels_per_day,
        pixels_per_day * 6 / 5 <= MAX_PIXELS_PER_DAY,
    ensures
        pixels_per_day - 1 <= zoomed_out(zoomed_in(pixels_per_day)) <= pixels_per_day,
{
    let p = pixels_per_day;
    let q = p * 6 / 5;
    let r = q * 5 / 6;
    lemma_floor_div(p * 6, 5);
    lemma_floor_div(q * 5, 6);
    assert(p - 1 <= r <= p);
}

/// Labels show hours exactly when the zoom level is above 50 pixels per
/// day, whichever way the level was reached.
pub proof fn lemma_hours_threshold(pixels_per_day: int)
    ensures
        (scale_for(pixels_per_day) == TimelineScale::Hours) == (pixels_per_day > HOURS_ABOVE),
{
}

/// `n / d` rounded down, for a positive `d`.
fn floor_div(n: i128, d: i128) -> (q: i128)
    requires
        d > 0,
        -0x100_0000_0000_0000_0000_0000_0000_0000i128 < n < 0x100_0000_0000_0000_0000_0000_0000_0000i128,
    ensures
        q == n / d,
{
    if n >= 0 {
        ((n as u128) / (d as u128)) as i128
    } else {
        let m: u128 = (0 - n) as u128;
        let c: u128 = (m + (d as u128 - 1)) / (d as u128);
        proof {
            let (mi, di, ci) = (m as int, d as int, c as int);
            lemma_floor_div(mi + di - 1, di);
            assert(di * ci <= mi + di - 1 < di * ci + di);
            assert(ci <= mi && (-ci) * di == -(di * ci)) by (nonlinear_arith)
                requires
                    di * ci <= mi + di - 1,
                    di >= 1,
                    ci >= 0,
                    mi >= 0,
            ;
            lemma_fundamental_div_mod_converse(n as int, di, -ci, n + di * ci);
        }
        0 - (c as i128)
    }
}

/// The visible window of the timeline and its zoom level.
#[derive(Debug, Clone, Copy)]
pub struct TimelineViewport {
    /// Leftmost visible point in time.
    pub start: i64,
    /// Rightmost visible point in time.
    pub end: i64,
    /// Label granularity.
    pub scale: TimelineScale,
    /// Zoom level, in micropixels per day.
    pub pixels_per_day: u64,
    /// Micropixels per hour: always a 24th of `pixels_per_day`.
    pub pixels_per_hour: u64,
}

impl TimelineViewport {
    /// The zoom level lies within its bounds and the hourly figure follows it.
    pub open spec fn wf(&self) -> bool {
        &&& MIN_PIXELS_PER_DAY <= self.pixels_per_day <= MAX_PIXELS_PER_DAY
        &&& self.pixels_per_hour == self.pixels_per_day / 24
    }

    /// A viewport over `start..end` at 18 pixels per day, labelled by weeks.
    pub fn new(start: i64, end: i64) -> (v: TimelineViewport)
        ensures
            v.wf(),
            v.start == start,
            v.end == end,
            v.scale == TimelineScale::Weeks,
            v.pixels_per_day == INITIAL_PIXELS_PER_DAY,
    {
        TimelineViewport {
            start,
            end,
            scale: TimelineScale::Weeks,
            pixels_per_day: INITIAL_PIXELS_PER_DAY,
            pixels_per_hour: INITIAL_PIXELS_PER_DAY / 24,
        }
    }

    /// Offset of `dt` from the viewport's start, in micropixels. The hourly
    /// and the daily reading of the zoom level give the same offset, so the
    /// scale plays no part.
    pub fn datetime_to_x(&self, dt: i64) -> (x: i128)
        requires
            self.wf(),
        ensures
            x == pixel_offset(self.start as int, dt as int, self.pixels_per_day as int),
    {
        let elapsed: i128 = dt as i128 - self.start as i128;
        proof {
            assert(-0x1_0000_0000_0000_0000i128 <= elapsed <= 0x1_0000_0000_0000_0000i128);
            assert(-0x1_0000_0000_0000_0000_0000_0000i128 <= elapsed * (self.pixels_per_day as i128)
                <= 0x1_0000_0000_0000_0000_0000_0000i128) by (nonlinear_arith)
                requires
                    -0x1_0000_0000_0000_0000i128 <= elapsed <= 0x1_0000_0000_0000_0000i128,
                    0 <= self.pixels_per_day <= MAX_PIXELS_PER_DAY,
            ;
        }
        floor_div(elapsed * (self.pixels_per_day as i128), SECONDS_PER_DAY)
    }

    /// Same as `datetime_to_x`.
    pub fn date_to_x(&self, date: i64) -> (x: i128)
        requires
            self.wf(),
        ensures
            x == pixel_offset(self.start as int, date as int, self.pixels_per_day as int),
    {
        self.datetime_to_x(date)
    }

    /// The point in time at offset `x` micropixels from the viewport's
    /// start, rounded down to a whole second: the inverse of
    /// `datetime_to_x`.
    pub fn x_to_datetime(&self, x: i128) -> (dt: i64)
        requires
            self.wf(),
            -0x1_0000_0000_0000_0000_0000_0000i128 <= x <= 0x1_0000_0000_0000_0000_0000_0000i128,
            i64::MIN <= self.start + seconds_at(x as int, self.pixels_per_day as int) <= i64::MAX,
        ensures
            dt == self.start + seconds_at(x as int, self.pixels_per_day as int),
    {
        proof {
            assert(-0x100_0000_0000_0000_0000_0000_0000_0000int < (x as int) * 86_400
                < 0x100_0000_0000_0000_0000_0000_0000_0000int);
        }
        let secs = floor_div(x * SECONDS_PER_DAY, self.pixels_per_day as i128);
        (self.start as i128 + secs) as i64
    }

    /// Width of the whole window: the offset of its end.
    pub fn total_width(&self) -> (w: i128)
        requires
            self.wf(),
        ensures
            w == pixel_offset(self.start as int, self.end as int, self.pixels_per_day as int),
    {
        self.datetime_to_x(self.end)
    }

    /// Micropixels per hour at the current zoom level.
    pub fn pixels_per_hour(&self) -> (r: u64)
        requires
            self.wf(),
        ensures
            r == self.pixels_per_day / 24,
    {
        self.pixels_per_hour
    }

    /// Zooms in by a factor of 1.2, up to the largest level, and picks the
    /// scale for the new level.
    pub fn zoom_in(&mut self)
        requires
            old(self).wf(),
        ensures
            final(self).wf(),
            final(self).pixels_per_day == zoomed_in(old(self).pixels_per_day as int),
            final(self).scale == scale_for(final(self).pixels_per_day as int),
            final(self).start == old(self).start,
            final(self).end == old(self).end,
    {
        let grown = self.pixels_per_day * 6 / 5;
        self.pixels_per_day = if grown > MAX_PIXELS_PER_DAY {
            MAX_PIXELS_PER_DAY
        } else {
            grown
        };
        self.pixels_per_hour = self.pixels_per_day / 24;
        self.update_scale_for_zoom();
    }

    /// Zooms out by a factor of 1.2, down to the smallest level, and picks
    /// the scale for the new level.
    pub fn zoom_out(&mut self)
        requires
            old(self).wf(),
        ensures
            final(self).wf(),
            final(self).pixels_per_day == zoomed_out(old(self).pixels_per_day as int),
            final(self).scale == scale_for(final(self).pixels_per_day as int),
            final(self).start == old(self).start,
            final(self).end == old(self).end,
    {
        let shrunk = self.pixels_per_day * 5 / 6;
        self.pixels_per_day = if shrunk < MIN_PIXELS_PER_DAY {
            MIN_PIXELS_PER_DAY
        } else {
            shrunk
        };
        self.pixels_per_hour = self.pixels_per_day / 24;
        self.update_scale_for_zoom();
    }

    /// Sets the scale from the zoom level alone.
    fn update_scale_for_zoom(&mut self)
        ensures
            final(self).scale == scale_for(old(self).pixels_per_day as int),
            final(self).start == old(self).start,
            final(self).end == old(self).end,
            final(self).pixels_per_day == old(self).pixels_per_day,
            final(self).pixels_per_hour == old(self).pixels_per_hour,
    {
        if self.pixels_per_day > HOURS_ABOVE {
            self.scale = TimelineScale::Hours;
        } else if self.pixels_per_day > DAYS_ABOVE {
            self.scale = TimelineScale::Days;
        } else if self.pixels_per_day > WEEKS_ABOVE {
            self.scale = TimelineScale::Weeks;
        } else {
            self.scale = TimelineScale::Months;
        }
    }
}

} // verus!
