//! The camera look controller: accumulated mouse deltas become yaw/pitch
//! updates, with the pitch clamped after every event and roll never applied.

use vstd::prelude::*;
use crate::config::CONFIG_MAX;
use crate::input::MouseDelta;
use crate::math::{
    abs_s,
    clamp_i64,
    clamp_s,
    div_trunc,
    div_trunc_i128,
    lemma_div_trunc_mag,
    lemma_div_trunc_nonneg,
    lemma_mul_bounds,
    min_i64,
    mul_div,
};

verus! {

/// Pitch stays inside ±1.54 radians (in milliradians), just short of ±π/2,
/// to avoid gimbal flip.
pub const PITCH_LIMIT: i64 = 1540;

/// Milliradians per millidegree, scaled by a million: π/180 × 10⁶.
pub const RAD_PER_DEG_MICRO: i64 = 17_453;

/// One million, the scale of `RAD_PER_DEG_MICRO`.
pub const MICRO: i64 = 1_000_000;

/// Range bound on one mouse event's delta (100 000 pixels, in milli-pixels).
pub const MOUSE_MAX: i64 = 100_000_000;

/// Range bound on a viewport dimension (100 000 pixels, in milli-pixels).
pub const WINDOW_MAX: i64 = 100_000_000;

/// Range bound on the angular divisor constant.
pub const ANGLE_SCALE_MAX: i64 = 1_000_000_000;

/// Range bound on the number of mouse events in one tick.
pub const EVENTS_MAX: usize = 4096;

/// Range bound on a yaw accumulator fed to the controller; one tick's
/// events keep the result inside `i64`.
pub const YAW_MAX: i64 = 8_000_000_000_000_000_000;

/// Bound on the angle change of a single event within the ranges above.
pub const EVENT_ANGLE_MAX: i64 = 200_000_000_000_000;

/// Camera orientation: yaw about the vertical axis, then pitch about the
/// horizontal axis, in milliradians. Roll is never applied, so a pure pitch
/// change cannot alter yaw and vice versa. Orientation persists across
/// ticks, unlike velocity.
#[derive(Clone, Copy, PartialEq, Eq, Structural, Debug)]
pub struct CameraOrientation {
    pub yaw: i64,
    pub pitch: i64,
}

impl CameraOrientation {
    /// Well-formedness: the pitch is clamped.
    pub open spec fn wf(self) -> bool {
        -PITCH_LIMIT <= self.pitch <= PITCH_LIMIT
    }
}

/// Viewport dimensions in milli-pixels.
#[derive(Clone, Copy, PartialEq, Eq, Structural, Debug)]
pub struct Viewport {
    pub width: i64,
    pub height: i64,
}

/// The smaller viewport dimension, which equalizes angular sensitivity
/// across aspect ratios.
pub open spec fn window_scale_s(width: int, height: int) -> int {
    if height < width {
        height
    } else {
        width
    }
}

/// The angle one event turns through: `sensitivity * delta * window_scale`,
/// rescaled and divided by the `angle_scale` constant, read in
/// millidegrees; then converted to milliradians.
pub open spec fn angle_delta_s(sensitivity: int, delta: int, ws: int, angle_scale: int) -> int {
    let millideg = div_trunc(sensitivity * delta * ws, 1_000_000 * angle_scale);
    div_trunc(millideg * RAD_PER_DEG_MICRO, MICRO as int)
}

/// One mouse event applied to an orientation: yaw and pitch each turn by
/// their axis' angle delta, and the pitch is clamped.
pub open spec fn look_step_s(
    yaw: int,
    pitch: int,
    dx: int,
    dy: int,
    sensitivity: int,
    ws: int,
    angle_scale: int,
) -> (int, int) {
    (
        yaw - angle_delta_s(sensitivity, dx, ws, angle_scale),
        clamp_s(
            pitch - angle_delta_s(sensitivity, dy, ws, angle_scale),
            -PITCH_LIMIT as int,
            PITCH_LIMIT as int,
        ),
    )
}

/// A tick's mouse events applied in arrival order.
pub open spec fn look_fold_s(
    yaw: int,
    pitch: int,
    events: Seq<MouseDelta>,
    sensitivity: int,
    ws: int,
    angle_scale: int,
) -> (int, int)
    decreases events.len(),
{
    if events.len() == 0 {
        (yaw, pitch)
    } else {
        let st = look_step_s(
            yaw,
            pitch,
            events[0].x as int,
            events[0].y as int,
            sensitivity,
            ws,
            angle_scale,
        );
        look_fold_s(st.0, st.1, events.skip(1), sensitivity, ws, angle_scale)
    }
}

/// Pitch-clamp law: starting from a clamped pitch, after any number of
/// mouse events the pitch is still within ±1.54 radians.
pub proof fn lemma_pitch_always_clamped(
    yaw: int,
    pitch: int,
    events: Seq<MouseDelta>,
    sensitivity: int,
    ws: int,
    angle_scale: int,
)
    requires
        -PITCH_LIMIT <= pitch <= PITCH_LIMIT,
    ensures
        ({
            let out = look_fold_s(yaw, pitch, events, sensitivity, ws, angle_scale);
            -PITCH_LIMIT <= out.1 <= PITCH_LIMIT
        }),
    decreases events.len(),
{
    if events.len() > 0 {
        let st = look_step_s(
            yaw,
            pitch,
            events[0].x as int,
            events[0].y as int,
            sensitivity,
            ws,
            angle_scale,
        );
        lemma_pitch_always_clamped(st.0, st.1, events.skip(1), sensitivity, ws, angle_scale);
    }
}

/// Axis-independence law: an event with no horizontal delta leaves yaw
/// exactly as it was, and an event with no vertical delta leaves a clamped
/// pitch exactly as it was — the composition injects no cross-axis change.
pub proof fn lemma_look_axis_independence(
    yaw: int,
    pitch: int,
    dx: int,
    dy: int,
    sensitivity: int,
    ws: int,
    angle_scale: int,
)
    requires
        0 < angle_scale,
    ensures
        dx == 0 ==> look_step_s(yaw, pitch, dx, dy, sensitivity, ws, angle_scale).0 == yaw,
        dy == 0 && -PITCH_LIMIT <= pitch <= PITCH_LIMIT ==> look_step_s(
            yaw,
            pitch,
            dx,
            dy,
            sensitivity,
            ws,
            angle_scale,
        ).1 == pitch,
{
    assert(sensitivity * 0 == 0) by (nonlinear_arith);
    assert(0int * ws == 0) by (nonlinear_arith);
    assert(0 < 1_000_000 * angle_scale);
    lemma_div_trunc_nonneg(0, 1_000_000 * angle_scale);
    assert(div_trunc(0, 1_000_000 * angle_scale) == 0);
    assert(0int * RAD_PER_DEG_MICRO == 0) by (nonlinear_arith);
    lemma_div_trunc_nonneg(0, MICRO as int);
    assert(angle_delta_s(sensitivity, 0, ws, angle_scale) == 0);
}

/// Compute one event's angle change.
pub fn angle_delta(sensitivity: i64, delta: i64, ws: i64, angle_scale: i64) -> (r: i64)
    requires
        0 < sensitivity <= CONFIG_MAX,
        -MOUSE_MAX <= delta <= MOUSE_MAX,
        0 <= ws <= WINDOW_MAX,
        0 < angle_scale <= ANGLE_SCALE_MAX,
    ensures
        r as int == angle_delta_s(sensitivity as int, delta as int, ws as int, angle_scale as int),
        -EVENT_ANGLE_MAX <= r <= EVENT_ANGLE_MAX,
{
    let divisor: i64 = 1_000_000 * angle_scale;
    proof {
        lemma_mul_bounds(sensitivity as int, delta as int, CONFIG_MAX as int, MOUSE_MAX as int);
    }
    let p1: i128 = (sensitivity as i128) * (delta as i128);
    proof {
        lemma_mul_bounds(
            p1 as int,
            ws as int,
            100_000_000_000_000int,
            WINDOW_MAX as int,
        );
    }
    let num: i128 = p1 * (ws as i128);
    proof {
        lemma_div_trunc_mag(num as int, divisor as int);
        let md = div_trunc(num as int, divisor as int);
        let t = abs_s(md);
        let a = abs_s(num as int);
        assert(t * 1_000_000int <= a) by (nonlinear_arith)
            requires
                0 <= t,
                1_000_000 <= divisor as int,
                t * (divisor as int) <= a,
        ;
        assert(t <= 10_000_000_000_000_000int);
    }
    let millideg = div_trunc_i128(num, divisor);
    proof {
        lemma_div_trunc_mag(millideg as int * RAD_PER_DEG_MICRO as int, MICRO as int);
    }
    mul_div(millideg, RAD_PER_DEG_MICRO, MICRO)
}

/// Apply a tick's mouse events, in arrival order, to the camera
/// orientation.
pub fn apply_mouse_events(
    orientation: CameraOrientation,
    events: &Vec<MouseDelta>,
    sensitivity: i64,
    viewport: Viewport,
    angle_scale: i64,
) -> (r: CameraOrientation)
    requires
        orientation.wf(),
        -YAW_MAX <= orientation.yaw <= YAW_MAX,
        0 < sensitivity <= CONFIG_MAX,
        0 < angle_scale <= ANGLE_SCALE_MAX,
        0 <= viewport.width <= WINDOW_MAX,
        0 <= viewport.height <= WINDOW_MAX,
        events@.len() <= EVENTS_MAX,
        forall|i: int|
            0 <= i < events@.len() ==> {
                &&& -MOUSE_MAX <= (#[trigger] events@[i]).x <= MOUSE_MAX
                &&& -MOUSE_MAX <= events@[i].y <= MOUSE_MAX
            },
    ensures
        ({
            let out = look_fold_s(
                orientation.yaw as int,
                orientation.pitch as int,
                events@,
                sensitivity as int,
                window_scale_s(viewport.width as int, viewport.height as int),
                angle_scale as int,
            );
            r.yaw as int == out.0 && r.pitch as int == out.1
        }),
        r.wf(),
{
    let ghost ws_s = window_scale_s(viewport.width as int, viewport.height as int);
    let ws = min_i64(viewport.height, viewport.width);
    let mut yaw = orientation.yaw;
    let mut pitch = orientation.pitch;
    let n = events.len();
    let mut idx: usize = 0;
    proof {
        assert(events@.skip(0) =~= events@);
    }
    while idx < n
        invariant
            idx <= n,
            n == events@.len(),
            n <= EVENTS_MAX,
            0 < sensitivity <= CONFIG_MAX,
            0 < angle_scale <= ANGLE_SCALE_MAX,
            ws as int == ws_s,
            0 <= ws <= WINDOW_MAX,
            forall|i: int|
                0 <= i < events@.len() ==> {
                    &&& -MOUSE_MAX <= (#[trigger] events@[i]).x <= MOUSE_MAX
                    &&& -MOUSE_MAX <= events@[i].y <= MOUSE_MAX
                },
            -PITCH_LIMIT <= pitch <= PITCH_LIMIT,
            -(YAW_MAX as int) - idx as int * (EVENT_ANGLE_MAX as int) <= yaw as int,
            yaw as int <= YAW_MAX as int + idx as int * (EVENT_ANGLE_MAX as int),
            look_fold_s(
                yaw as int,
                pitch as int,
                events@.skip(idx as int),
                sensitivity as int,
                ws_s,
                angle_scale as int,
            ) == look_fold_s(
                orientation.yaw as int,
                orientation.pitch as int,
                events@,
                sensitivity as int,
                ws_s,
                angle_scale as int,
            ),
        decreases n - idx,
    {
        let e = events[idx];
        let dyaw = angle_delta(sensitivity, e.x, ws, angle_scale);
        let dpitch = angle_delta(sensitivity, e.y, ws, angle_scale);
        proof {
            assert(events@.skip(idx as int)[0] == events@[idx as int]);
            assert(events@.skip(idx as int).skip(1) =~= events@.skip(idx as int + 1));
        }
        yaw = yaw - dyaw;
        pitch = clamp_i64(pitch - dpitch, -PITCH_LIMIT, PITCH_LIMIT);
        idx = idx + 1;
    }
    proof {
        assert(events@.skip(n as int) =~= Seq::<MouseDelta>::empty());
    }
    CameraOrientation { yaw, pitch }
}

} // verus!
