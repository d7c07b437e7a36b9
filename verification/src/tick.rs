//! The per-tick movement system: orchestrates the grounded-velocity source,
//! the wish-direction resolver, the velocity integrator and the camera look
//! controller over one simulation tick's snapshots. An absent controller or
//! camera skips the tick: no velocity and no orientation are produced.

use vstd::prelude::*;
use crate::camera::{
    ANGLE_SCALE_MAX,
    CameraOrientation,
    EVENTS_MAX,
    MOUSE_MAX,
    Viewport,
    WINDOW_MAX,
    YAW_MAX,
    apply_mouse_events,
    look_fold_s,
    window_scale_s,
};
use crate::config::{DT_MAX, MovementConfig};
use crate::input::{InputSnapshot, KeysHeld};
use crate::math::{
    SCALE,
    fix_mul,
    lemma_div_trunc_mag,
    lemma_div_trunc_nonneg,
    lemma_mul_bounds,
    lemma_sqrt_floor_unique,
    mul_div,
};
use crate::physics::{
    PhysicsReport,
    TRANSLATION_MAX,
    VELOCITY_MAX,
    derive_velocity,
    derived_grounded_s,
    derived_velocity_s,
};
use crate::vec3::{Vec3, bounded3, v3};
use crate::velocity::{VELOCITY_OUT_MAX, integrate_s, integrate_velocity};
use crate::wish::{wish_direction, wish_direction_s};

verus! {

/// How a tick turns input into motion: the trivial direct mover that walks
/// at `run_speed` along the wish direction, or the full friction and
/// acceleration model.
#[derive(Clone, Copy, PartialEq, Eq, Structural, Debug)]
pub enum MovementPolicy {
    DirectKinematic,
    AcceleratedFriction,
}

/// What the tick reads of the controlled character: the previous step's
/// physics report (absent on the first tick, or while no body is attached)
/// and the camera's forward vector.
#[derive(Clone, Copy, Debug)]
pub struct ControllerSnapshot {
    pub report: Option<PhysicsReport>,
    pub forward: Vec3,
}

/// What the tick reads of the camera: its orientation and the viewport.
#[derive(Clone, Copy, Debug)]
pub struct CameraSnapshot {
    pub orientation: CameraOrientation,
    pub viewport: Viewport,
}

/// One tick's outputs, handed back to the collaborators.
#[derive(Clone, Copy, Debug)]
pub struct TickOutput {
    /// The next-frame velocity.
    pub velocity: Vec3,
    /// The displacement the physics collaborator should apply this tick:
    /// `velocity * delta_time`. Overwritten every tick; never reused.
    pub requested_translation: Vec3,
    /// The committed camera orientation.
    pub orientation: CameraOrientation,
}

/// The direct mover's velocity: the wish direction at `run_speed`.
pub open spec fn direct_velocity_s(w: (int, int, int), run_speed: int) -> (int, int, int) {
    (fix_mul(w.0, run_speed), 0int, fix_mul(w.2, run_speed))
}

/// A frame time clamped below at zero, as the integrator consumes it.
pub open spec fn dt_clamped(dt: int) -> int {
    if dt < 0 {
        0
    } else {
        dt
    }
}

/// The velocity one tick produces under a policy.
pub open spec fn tick_velocity_s(
    report: Option<PhysicsReport>,
    forward: (int, int, int),
    keys: KeysHeld,
    cfg: MovementConfig,
    policy: MovementPolicy,
    dt: int,
) -> (int, int, int) {
    let w = wish_direction_s(forward, keys);
    match policy {
        MovementPolicy::DirectKinematic => direct_velocity_s(w, cfg.run_speed as int),
        MovementPolicy::AcceleratedFriction => integrate_s(
            derived_velocity_s(report, dt),
            derived_grounded_s(report, dt),
            w,
            keys.jump,
            cfg,
            dt_clamped(dt),
        ),
    }
}

/// The requested translation: velocity scaled by the frame time.
pub open spec fn translation_s(v: (int, int, int), dt: int) -> (int, int, int) {
    (fix_mul(v.0, dt), fix_mul(v.1, dt), fix_mul(v.2, dt))
}

/// Run one simulation tick. Produces an output exactly when both the
/// controller and the camera are present; an absent collaborator skips the
/// tick silently, to be retried next tick.
pub fn movement_tick(
    controller: Option<ControllerSnapshot>,
    camera: Option<CameraSnapshot>,
    input: &InputSnapshot,
    cfg: &MovementConfig,
    policy: MovementPolicy,
    angle_scale: i64,
) -> (out: Option<TickOutput>)
    requires
        cfg.wf(),
        0 < angle_scale <= ANGLE_SCALE_MAX,
        input.delta_time <= DT_MAX,
        input.mouse@.len() <= EVENTS_MAX,
        forall|i: int|
            0 <= i < input.mouse@.len() ==> {
                &&& -MOUSE_MAX <= (#[trigger] input.mouse@[i]).x <= MOUSE_MAX
                &&& -MOUSE_MAX <= input.mouse@[i].y <= MOUSE_MAX
            },
        controller is Some && controller->0.report is Some ==> bounded3(
            v3(controller->0.report->0.effective_translation),
            TRANSLATION_MAX as int,
        ),
        controller is Some ==> bounded3(v3(controller->0.forward), VELOCITY_MAX as int),
        camera is Some ==> {
            &&& camera->0.orientation.wf()
            &&& -YAW_MAX <= camera->0.orientation.yaw <= YAW_MAX
            &&& 0 <= camera->0.viewport.width <= WINDOW_MAX
            &&& 0 <= camera->0.viewport.height <= WINDOW_MAX
        },
    ensures
        out is Some <==> (controller is Some && camera is Some),
        out is Some ==> ({
            let ctl = controller->0;
            let cam = camera->0;
            let o = out->0;
            let vel = tick_velocity_s(
                ctl.report,
                v3(ctl.forward),
                input.keys,
                *cfg,
                policy,
                input.delta_time as int,
            );
            let look = look_fold_s(
                cam.orientation.yaw as int,
                cam.orientation.pitch as int,
                input.mouse@,
                cfg.sensitivity as int,
                window_scale_s(cam.viewport.width as int, cam.viewport.height as int),
                angle_scale as int,
            );
            &&& v3(o.velocity) == vel
            &&& v3(o.requested_translation) == translation_s(vel, dt_clamped(
                input.delta_time as int,
            ))
            &&& o.orientation.yaw as int == look.0
            &&& o.orientation.pitch as int == look.1
            &&& o.orientation.wf()
        }),
{
    match (controller, camera) {
        (Option::Some(ctl), Option::Some(cam)) => {
            let dt_eff: i64 = if input.delta_time < 0 {
                0
            } else {
                input.delta_time
            };
            let (current_velocity, grounded) = derive_velocity(ctl.report, input.delta_time);
            let w = wish_direction(ctl.forward, input.keys);
            let velocity = match policy {
                MovementPolicy::DirectKinematic => {
                    proof {
                        lemma_mul_bounds(w.x as int, cfg.run_speed as int, SCALE as int, 1_000_000int);
                        lemma_mul_bounds(w.z as int, cfg.run_speed as int, SCALE as int, 1_000_000int);
                        lemma_div_trunc_mag(w.x as int * cfg.run_speed as int, SCALE as int);
                        lemma_div_trunc_mag(w.z as int * cfg.run_speed as int, SCALE as int);
                    }
                    let vx = mul_div(w.x, cfg.run_speed, SCALE);
                    let vz = mul_div(w.z, cfg.run_speed, SCALE);
                    Vec3 { x: vx, y: 0, z: vz }
                },
                MovementPolicy::AcceleratedFriction => integrate_velocity(
                    current_velocity,
                    grounded,
                    w,
                    input.keys.jump,
                    cfg,
                    dt_eff,
                ),
            };
            proof {
                lemma_mul_bounds(
                    velocity.x as int,
                    dt_eff as int,
                    VELOCITY_OUT_MAX as int,
                    DT_MAX as int,
                );
                lemma_mul_bounds(
                    velocity.y as int,
                    dt_eff as int,
                    VELOCITY_OUT_MAX as int,
                    DT_MAX as int,
                );
                lemma_mul_bounds(
                    velocity.z as int,
                    dt_eff as int,
                    VELOCITY_OUT_MAX as int,
                    DT_MAX as int,
                );
                lemma_div_trunc_mag(velocity.x as int * dt_eff as int, SCALE as int);
                lemma_div_trunc_mag(velocity.y as int * dt_eff as int, SCALE as int);
                lemma_div_trunc_mag(velocity.z as int * dt_eff as int, SCALE as int);
            }
            let requested_translation = Vec3 {
                x: mul_div(velocity.x, dt_eff, SCALE),
                y: mul_div(velocity.y, dt_eff, SCALE),
                z: mul_div(velocity.z, dt_eff, SCALE),
            };
            let orientation = apply_mouse_events(
                cam.orientation,
                &input.mouse,
                cfg.sensitivity,
                cam.viewport,
                angle_scale,
            );
            Option::Some(TickOutput { velocity, requested_translation, orientation })
        },
        _ => Option::None,
    }
}

/// Degenerate-time law: with a zero or negative frame time, the velocity is
/// derived without any division and the integrated next-frame velocity is
/// the zero vector — gravity, friction and acceleration all vanish with the
/// frame time, and the grounded flag is treated as false, so no jump fires.
pub proof fn lemma_degenerate_time_zero_velocity(
    report: Option<PhysicsReport>,
    forward: (int, int, int),
    keys: KeysHeld,
    cfg: MovementConfig,
    dt: int,
)
    requires
        cfg.wf(),
        dt <= 0,
    ensures
        tick_velocity_s(report, forward, keys, cfg, MovementPolicy::AcceleratedFriction, dt) == (
            0int,
            0int,
            0int,
        ),
{
    let w = wish_direction_s(forward, keys);
    let v = derived_velocity_s(report, dt);
    assert(v == (0int, 0int, 0int));
    assert(!derived_grounded_s(report, dt));
    // friction: the zero vector sits inside the deadzone
    assert(v.0 * v.0 + v.2 * v.2 == 0) by (nonlinear_arith)
        requires
            v.0 == 0,
            v.2 == 0,
    ;
    lemma_sqrt_floor_unique(0, 0);
    // acceleration: a zero budget adds nothing
    assert(cfg.max_accel as int * 0 == 0) by (nonlinear_arith);
    lemma_div_trunc_nonneg(0, SCALE as int);
    assert(fix_mul(cfg.max_accel as int, 0) == 0);
    assert(0int * w.0 == 0 && 0int * w.2 == 0) by (nonlinear_arith);
    assert(w.0 * 0 == 0 && w.2 * 0 == 0) by (nonlinear_arith);
    assert(fix_mul(w.0, 0) == 0 && fix_mul(w.2, 0) == 0);
    // vertical: no gravity over zero time, no jump while not grounded
    assert(cfg.gravity as int * 0 == 0) by (nonlinear_arith);
    assert(fix_mul(cfg.gravity as int, 0) == 0);
}

} // verus!
