//! Waypoints and linear interpolation between them.

use vstd::prelude::*;

verus! {

/// Number of progress units in one whole segment. A progress value `p` stands
/// for the fraction `p / PROGRESS_SCALE` of the way between two waypoints.
pub const PROGRESS_SCALE: u64 = 1_000_000;

/// A point on the map: longitude and latitude in micro-degrees.
#[derive(Clone, Copy, Debug, PartialEq, Eq, Structural)]
pub struct Waypoint {
    pub lng: i64,
    pub lat: i64,
}

/// The coordinate that lies the fraction `progress / PROGRESS_SCALE` of the way
/// from `from` to `to`. The offset from `from` is rounded towards `from`.
pub open spec fn lerp_axis(from: int, to: int, progress: int) -> int {
    if to >= from {
        from + ((to - from) * progress) / (PROGRESS_SCALE as int)
    } else {
        from - ((from - to) * progress) / (PROGRESS_SCALE as int)
    }
}

/// The interpolated point, axis by axis.
pub open spec fn lerp(from: Waypoint, to: Waypoint, progress: int) -> Waypoint {
    Waypoint {
        lng: lerp_axis(from.lng as int, to.lng as int, progress) as i64,
        lat: lerp_axis(from.lat as int, to.lat as int, progress) as i64,
    }
}

/// An interpolated coordinate never leaves the interval between its two ends,
/// and at progress zero it is the starting coordinate.
pub proof fn lemma_lerp_axis_between(from: int, to: int, progress: int)
    requires
        0 <= progress <= PROGRESS_SCALE,
    ensures
        from <= to ==> from <= lerp_axis(from, to, progress) <= to,
        to <= from ==> to <= lerp_axis(from, to, progress) <= from,
        lerp_axis(from, to, 0) == from,
        lerp_axis(from, to, PROGRESS_SCALE as int) == to,
{
    let span = if to >= from { to - from } else { from - to };
    let scale = PROGRESS_SCALE as int;
    assert(0 <= (span * progress) / scale <= span) by (nonlinear_arith)
        requires
            0 <= span,
            0 <= progress <= scale,
            scale > 0,
    ;
    assert((span * 0) / scale == 0) by (nonlinear_arith)
        requires
            scale > 0,
    ;
    assert((span * scale) / scale == span) by (nonlinear_arith)
        requires
            scale > 0,
    ;
}

/// An interpolated point has, on each axis, the interpolated coordinate: it
/// lies in the box spanned by its two ends. At progress zero it is the
/// starting point, at a whole segment it is the end point.
pub proof fn lemma_lerp_between(from: Waypoint, to: Waypoint, progress: int)
    requires
        0 <= progress <= PROGRESS_SCALE,
    ensures
        lerp(from, to, progress).lng == lerp_axis(from.lng as int, to.lng as int, progress),
        lerp(from, to, progress).lat == lerp_axis(from.lat as int, to.lat as int, progress),
        lerp(from, to, 0) == from,
        lerp(from, to, PROGRESS_SCALE as int) == to,
{
    lemma_lerp_axis_between(from.lng as int, to.lng as int, progress);
    lemma_lerp_axis_between(from.lat as int, to.lat as int, progress);
}

fn interpolate_axis(from: i64, to: i64, progress: u64) -> (r: i64)
    requires
        progress <= PROGRESS_SCALE,
    ensures
        r == lerp_axis(from as int, to as int, progress as int),
{
    proof {
        lemma_lerp_axis_between(from as int, to as int, progress as int);
    }
    if to >= from {
        let span: u128 = (to as i128 - from as i128) as u128;
        assert(span * progress <= span * PROGRESS_SCALE) by (nonlinear_arith)
            requires
                progress <= PROGRESS_SCALE,
        ;
        let offset: u128 = span * (progress as u128) / (PROGRESS_SCALE as u128);
        (from as i128 + offset as i128) as i64
    } else {
        let span: u128 = (from as i128 - to as i128) as u128;
        assert(span * progress <= span * PROGRESS_SCALE) by (nonlinear_arith)
            requires
                progress <= PROGRESS_SCALE,
        ;
        let offset: u128 = span * (progress as u128) / (PROGRESS_SCALE as u128);
        (from as i128 - offset as i128) as i64
    }
}

/// Linear interpolation between two waypoints, component-wise on longitude
/// and latitude.
pub fn interpolate(from: Waypoint, to: Waypoint, progress: u64) -> (r: Waypoint)
    requires
        progress <= PROGRESS_SCALE,
    ensures
        r == lerp(from, to, progress as int),
        r.lng == lerp_axis(from.lng as int, to.lng as int, progress as int),
        r.lat == lerp_axis(from.lat as int, to.lat as int, progress as int),
{
    Waypoint {
        lng: interpolate_axis(from.lng, to.lng, progress),
        lat: interpolate_axis(from.lat, to.lat, progress),
    }
}

} // verus!
