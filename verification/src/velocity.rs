//! The velocity integrator: ground friction with a snap-to-stop deadzone,
//! capped acceleration toward the wish direction, and gravity/jump
//! integration of the vertical component.

use vstd::prelude::*;
use crate::config::{DT_MAX, MovementConfig};
use crate::math::{
    SCALE,
    abs_s,
    div_trunc,
    div_trunc_i128,
    fix_mul,
    isqrt,
    lemma_abs_sq,
    lemma_div_trunc_mag,
    lemma_div_trunc_mono,
    lemma_div_trunc_nonneg,
    lemma_div_trunc_shift,
    lemma_mul_bounds,
    lemma_scale_ratio_shrinks,
    lemma_sq_of_le,
    lemma_sqrt_floor_exists,
    lemma_sqrt_floor_unique,
    mul_div,
    sqrt_floor,
};
use crate::physics::VELOCITY_MAX;
use crate::vec3::{Vec3, bounded3, h_norm2, v3};
use crate::wish::unit_h;

verus! {

/// Horizontal speeds below this deadzone (0.1 units per second) snap to
/// zero under friction, preventing infinite asymptotic creep.
pub const FRICTION_DEADZONE: i64 = 100;

/// Bound on every component of an integrated velocity: the derived-velocity
/// bound plus one tick's worth of acceleration, gravity and jump.
pub const VELOCITY_OUT_MAX: i64 = 2_000_000_000_000;

// --- step 1: friction (horizontal only) ---

/// The friction control term: current speed, floored at `stop_speed` so
/// deceleration stays effective at low speed and uncapped above it.
pub open spec fn friction_control(speed: int, stop_speed: int) -> int {
    if speed > stop_speed {
        speed
    } else {
        stop_speed
    }
}

/// Speed lost to ground friction in one tick: `control * friction * dt`.
pub open spec fn friction_speed_loss(speed: int, friction: int, stop_speed: int, dt: int) -> int {
    fix_mul(fix_mul(friction_control(speed, stop_speed), friction), dt)
}

/// Ground speed after friction, floored at zero.
pub open spec fn friction_new_speed(speed: int, friction: int, stop_speed: int, dt: int) -> int {
    let raw = speed - friction_speed_loss(speed, friction, stop_speed, dt);
    if raw < 0 {
        0
    } else {
        raw
    }
}

/// Horizontal velocity after the friction step: zero inside the deadzone,
/// rescaled to the post-friction speed when grounded (direction preserved),
/// untouched while airborne. The vertical component is dropped here; the
/// integrator carries it separately.
pub open spec fn friction_s(
    v: (int, int, int),
    grounded: bool,
    friction: int,
    stop_speed: int,
    dt: int,
) -> (int, int, int) {
    let speed = sqrt_floor(h_norm2(v));
    if speed < FRICTION_DEADZONE {
        (0int, 0int, 0int)
    } else if grounded {
        let ns = friction_new_speed(speed, friction, stop_speed, dt);
        (div_trunc(v.0 * ns, speed), 0int, div_trunc(v.2 * ns, speed))
    } else {
        (v.0, 0int, v.2)
    }
}

// --- step 2: acceleration toward the wish direction ---

/// Fixed-point dot product of the horizontal parts.
pub open spec fn dot_h(a: (int, int, int), b: (int, int, int)) -> int {
    div_trunc(a.0 * b.0 + a.2 * b.2, SCALE as int)
}

/// Speed to add toward the wish direction: the shortfall against
/// `run_speed`, clamped to `[0, max_accel * dt]` — never a deceleration,
/// and never more than one tick's acceleration budget.
pub open spec fn add_speed_capped(run_speed: int, cur: int, max_accel: int, dt: int) -> int {
    let cap = fix_mul(max_accel, dt);
    let want = run_speed - cur;
    if want < 0 {
        0
    } else if want > cap {
        cap
    } else {
        want
    }
}

/// Horizontal velocity after the acceleration step.
pub open spec fn accel_s(
    h: (int, int, int),
    w: (int, int, int),
    run_speed: int,
    max_accel: int,
    dt: int,
) -> (int, int, int) {
    let add = add_speed_capped(run_speed, dot_h(h, w), max_accel, dt);
    (h.0 + fix_mul(w.0, add), h.1, h.2 + fix_mul(w.2, add))
}

// --- step 3: vertical integration ---

/// The jump impulse: `jump_force` exactly when the jump key is held while
/// grounded this tick, zero otherwise — never while airborne.
pub open spec fn jump_impulse(jump_held: bool, grounded: bool, jump_force: int) -> int {
    if jump_held && grounded {
        jump_force
    } else {
        0
    }
}

/// Vertical velocity after one tick: gravity pulls, the jump impulse adds.
pub open spec fn vertical_s(
    vy: int,
    grounded: bool,
    jump_held: bool,
    gravity: int,
    jump_force: int,
    dt: int,
) -> int {
    vy - fix_mul(gravity, dt) + jump_impulse(jump_held, grounded, jump_force)
}

// --- the whole integrator ---

/// Next-frame velocity: friction then acceleration on the horizontal part,
/// gravity and jump on the vertical part.
pub open spec fn integrate_s(
    v: (int, int, int),
    grounded: bool,
    w: (int, int, int),
    jump_held: bool,
    cfg: MovementConfig,
    dt: int,
) -> (int, int, int) {
    let h = accel_s(
        friction_s(v, grounded, cfg.friction as int, cfg.stop_speed as int, dt),
        w,
        cfg.run_speed as int,
        cfg.max_accel as int,
        dt,
    );
    (
        h.0,
        vertical_s(
            v.1 as int,
            grounded,
            jump_held,
            cfg.gravity as int,
            cfg.jump_force as int,
            dt,
        ),
        h.2,
    )
}

/// Apply ground friction to the horizontal part of `v`.
pub fn apply_friction(v: Vec3, grounded: bool, cfg: &MovementConfig, delta_time: i64) -> (r: Vec3)
    requires
        cfg.wf(),
        bounded3(v3(v), VELOCITY_MAX as int),
        0 <= delta_time <= DT_MAX,
    ensures
        v3(r) == friction_s(
            v3(v),
            grounded,
            cfg.friction as int,
            cfg.stop_speed as int,
            delta_time as int,
        ),
        bounded3(v3(r), VELOCITY_MAX as int),
{
    proof {
        lemma_abs_sq(v.x as int);
        lemma_abs_sq(v.z as int);
        lemma_sq_of_le(abs_s(v.x as int), VELOCITY_MAX as int);
        lemma_sq_of_le(abs_s(v.z as int), VELOCITY_MAX as int);
    }
    let wx: i128 = (v.x as i128) * (v.x as i128);
    let wz: i128 = (v.z as i128) * (v.z as i128);
    let n2: i128 = wx + wz;
    let root = isqrt(n2 as u128);
    proof {
        lemma_sqrt_floor_unique(n2 as int, root as int);
        assert(root as int <= 1_500_000_000_000int) by (nonlinear_arith)
            requires
                0 <= root as int,
                (root as int) * (root as int) <= n2 as int,
                n2 as int <= 2_000_000_000_000_000_000_000_000int,
        ;
    }
    let speed: i64 = root as i64;
    if speed < FRICTION_DEADZONE {
        Vec3::zero()
    } else if grounded {
        let control: i64 = if speed > cfg.stop_speed {
            speed
        } else {
            cfg.stop_speed
        };
        proof {
            lemma_mul_bounds(
                control as int,
                cfg.friction as int,
                1_500_000_000_000int,
                1_000_000int,
            );
            lemma_div_trunc_mag(control as int * cfg.friction as int, SCALE as int);
        }
        let loss_rate = mul_div(control, cfg.friction, SCALE);
        proof {
            assert(0 <= control as int * cfg.friction as int) by (nonlinear_arith)
                requires
                    0 <= control as int,
                    0 <= cfg.friction as int,
            ;
            lemma_div_trunc_nonneg(control as int * cfg.friction as int, SCALE as int);
            lemma_mul_bounds(
                loss_rate as int,
                delta_time as int,
                1_500_000_000_000_000int,
                DT_MAX as int,
            );
            lemma_div_trunc_mag(loss_rate as int * delta_time as int, SCALE as int);
            assert(0 <= loss_rate as int * delta_time as int) by (nonlinear_arith)
                requires
                    0 <= loss_rate as int,
                    0 <= delta_time as int,
            ;
            lemma_div_trunc_nonneg(loss_rate as int * delta_time as int, SCALE as int);
        }
        let loss = mul_div(loss_rate, delta_time, SCALE);
        let raw = speed - loss;
        let new_speed: i64 = if raw < 0 {
            0
        } else {
            raw
        };
        proof {
            lemma_scale_ratio_shrinks(v.x as int, new_speed as int, speed as int);
            lemma_scale_ratio_shrinks(v.z as int, new_speed as int, speed as int);
        }
        let rx = mul_div(v.x, new_speed, speed);
        let rz = mul_div(v.z, new_speed, speed);
        Vec3 { x: rx, y: 0, z: rz }
    } else {
        v.horizontal()
    }
}

/// Accelerate the friction-adjusted horizontal velocity `h` toward the wish
/// direction `w`. With a zero wish direction the velocity is unchanged.
pub fn accelerate(h: Vec3, w: Vec3, cfg: &MovementConfig, delta_time: i64) -> (r: Vec3)
    requires
        cfg.wf(),
        bounded3(v3(h), VELOCITY_MAX as int),
        unit_h(v3(w)),
        bounded3(v3(w), SCALE as int),
        0 <= delta_time <= DT_MAX,
    ensures
        v3(r) == accel_s(
            v3(h),
            v3(w),
            cfg.run_speed as int,
            cfg.max_accel as int,
            delta_time as int,
        ),
        bounded3(v3(r), VELOCITY_OUT_MAX as int),
{
    proof {
        lemma_mul_bounds(h.x as int, w.x as int, VELOCITY_MAX as int, SCALE as int);
        lemma_mul_bounds(h.z as int, w.z as int, VELOCITY_MAX as int, SCALE as int);
    }
    let num: i128 = (h.x as i128) * (w.x as i128) + (h.z as i128) * (w.z as i128);
    proof {
        lemma_div_trunc_mag(num as int, SCALE as int);
    }
    let cur = div_trunc_i128(num, SCALE);
    proof {
        lemma_mul_bounds(cfg.max_accel as int, delta_time as int, 1_000_000int, DT_MAX as int);
        lemma_div_trunc_mag(cfg.max_accel as int * delta_time as int, SCALE as int);
        assert(0 <= cfg.max_accel as int * delta_time as int) by (nonlinear_arith)
            requires
                0 <= cfg.max_accel as int,
                0 <= delta_time as int,
        ;
        lemma_div_trunc_nonneg(cfg.max_accel as int * delta_time as int, SCALE as int);
    }
    let cap = mul_div(cfg.max_accel, delta_time, SCALE);
    let want = cfg.run_speed - cur;
    let add_speed: i64 = if want < 0 {
        0
    } else if want > cap {
        cap
    } else {
        want
    };
    proof {
        lemma_mul_bounds(w.x as int, add_speed as int, SCALE as int, 600_000_000int);
        lemma_mul_bounds(w.z as int, add_speed as int, SCALE as int, 600_000_000int);
        lemma_div_trunc_mag(w.x as int * add_speed as int, SCALE as int);
        lemma_div_trunc_mag(w.z as int * add_speed as int, SCALE as int);
    }
    let ax = mul_div(w.x, add_speed, SCALE);
    let az = mul_div(w.z, add_speed, SCALE);
    Vec3 { x: h.x + ax, y: h.y, z: h.z + az }
}

/// Integrate the vertical component: gravity for one tick, plus the jump
/// impulse exactly when the jump key is held while grounded.
pub fn vertical_velocity(
    current_y: i64,
    grounded: bool,
    jump_held: bool,
    cfg: &MovementConfig,
    delta_time: i64,
) -> (r: i64)
    requires
        cfg.wf(),
        -VELOCITY_MAX <= current_y <= VELOCITY_MAX,
        0 <= delta_time <= DT_MAX,
    ensures
        r as int == vertical_s(
            current_y as int,
            grounded,
            jump_held,
            cfg.gravity as int,
            cfg.jump_force as int,
            delta_time as int,
        ),
        -VELOCITY_OUT_MAX <= r <= VELOCITY_OUT_MAX,
{
    proof {
        lemma_mul_bounds(cfg.gravity as int, delta_time as int, 1_000_000int, DT_MAX as int);
        lemma_div_trunc_mag(cfg.gravity as int * delta_time as int, SCALE as int);
    }
    let gravity_pull = mul_div(cfg.gravity, delta_time, SCALE);
    let jump_velocity: i64 = if jump_held && grounded {
        cfg.jump_force
    } else {
        0
    };
    current_y - gravity_pull + jump_velocity
}

/// The whole integrator: next-frame velocity from the current velocity, the
/// grounded flag, the wish direction and the held jump key.
pub fn integrate_velocity(
    current: Vec3,
    grounded: bool,
    w: Vec3,
    jump_held: bool,
    cfg: &MovementConfig,
    delta_time: i64,
) -> (nv: Vec3)
    requires
        cfg.wf(),
        bounded3(v3(current), VELOCITY_MAX as int),
        unit_h(v3(w)),
        bounded3(v3(w), SCALE as int),
        0 <= delta_time <= DT_MAX,
    ensures
        v3(nv) == integrate_s(v3(current), grounded, v3(w), jump_held, *cfg, delta_time as int),
        bounded3(v3(nv), VELOCITY_OUT_MAX as int),
{
    let after_friction = apply_friction(current, grounded, cfg, delta_time);
    let horizontal = accelerate(after_friction, w, cfg, delta_time);
    let vy = vertical_velocity(current.y, grounded, jump_held, cfg, delta_time);
    Vec3 { x: horizontal.x, y: vy, z: horizontal.z }
}

// --- laws of the integrator ---

/// Deadzone law: at horizontal speed below the deadzone (squared length
/// under `100 * 100`), friction zeroes the horizontal velocity, grounded or
/// not.
pub proof fn lemma_friction_deadzone(
    v: (int, int, int),
    grounded: bool,
    friction: int,
    stop_speed: int,
    dt: int,
)
    requires
        h_norm2(v) < 10_000,
    ensures
        friction_s(v, grounded, friction, stop_speed, dt) == (0int, 0int, 0int),
{
    lemma_abs_sq(v.0);
    lemma_abs_sq(v.2);
    lemma_sqrt_floor_exists(h_norm2(v));
    let s = sqrt_floor(h_norm2(v));
    assert(s < 100) by (nonlinear_arith)
        requires
            0 <= s,
            s * s <= h_norm2(v),
            h_norm2(v) < 10_000,
    ;
}

/// Linear-loss law: at speed at least `stop_speed`, the friction control
/// term is the speed itself, so one tick removes exactly
/// `speed * friction * dt` — before the floor at zero.
pub proof fn lemma_friction_linear_loss(speed: int, friction: int, stop_speed: int, dt: int)
    requires
        stop_speed <= speed,
    ensures
        friction_speed_loss(speed, friction, stop_speed, dt) == fix_mul(fix_mul(speed, friction), dt),
        speed - fix_mul(fix_mul(speed, friction), dt) >= 0 ==> friction_new_speed(
            speed,
            friction,
            stop_speed,
            dt,
        ) == speed - fix_mul(fix_mul(speed, friction), dt),
{
}

/// Jump law: the impulse is `jump_force` exactly when the jump key is held
/// while grounded; airborne or without the key it is zero.
pub proof fn lemma_jump_iff(jump_held: bool, grounded: bool, jump_force: int)
    ensures
        jump_held && grounded ==> jump_impulse(jump_held, grounded, jump_force) == jump_force,
        !(jump_held && grounded) ==> jump_impulse(jump_held, grounded, jump_force) == 0,
        !grounded ==> jump_impulse(jump_held, grounded, jump_force) == 0,
{
}

/// One component's contribution to the dot product of the acceleration
/// addition with the wish direction: non-negative, and bounded by the
/// squared component times the added speed.
proof fn lemma_accel_component(wi: int, add_speed: int)
    requires
        0 <= add_speed,
    ensures
        0 <= fix_mul(wi, add_speed) * wi,
        (fix_mul(wi, add_speed) * wi) * (SCALE as int) <= (wi * wi) * add_speed,
{
    if wi >= 0 {
        assert(0 <= wi * add_speed) by (nonlinear_arith)
            requires
                0 <= wi,
                0 <= add_speed,
        ;
        lemma_div_trunc_nonneg(wi * add_speed, SCALE as int);
        let a = div_trunc(wi * add_speed, SCALE as int);
        assert(0 <= a * wi && (a * wi) * (SCALE as int) <= (wi * wi) * add_speed)
            by (nonlinear_arith)
            requires
                0 <= a,
                0 <= wi,
                (SCALE as int) * a <= wi * add_speed,
                0 < SCALE,
        ;
    } else {
        let u = -wi;
        assert(u * add_speed == -(wi * add_speed)) by (nonlinear_arith)
            requires
                u == -wi,
        ;
        lemma_div_trunc_nonneg(u * add_speed, SCALE as int);
        let b = div_trunc(u * add_speed, SCALE as int);
        if wi * add_speed >= 0 {
            // only possible when both sides are zero
            assert(0 <= u * add_speed) by (nonlinear_arith)
                requires
                    0 < u,
                    0 <= add_speed,
            ;
            lemma_div_trunc_nonneg(wi * add_speed, SCALE as int);
            assert(fix_mul(wi, add_speed) == 0);
            assert(0int * wi == 0 && 0int * (SCALE as int) == 0) by (nonlinear_arith);
            assert(0 <= (wi * wi) * add_speed) by (nonlinear_arith)
                requires
                    0 <= add_speed,
            ;
        } else {
            assert(fix_mul(wi, add_speed) == -b);
            assert(0 <= (-b) * wi && ((-b) * wi) * (SCALE as int) <= (wi * wi) * add_speed)
                by (nonlinear_arith)
                requires
                    0 <= b,
                    0 < u,
                    u == -wi,
                    (SCALE as int) * b <= u * add_speed,
                    0 < SCALE,
            ;
        }
    }
}

/// Acceleration cap law: one tick's acceleration step never changes the
/// fixed-point speed along the wish direction by more than
/// `max_accel * dt`, whatever `run_speed` asks for — and never lowers it.
pub proof fn lemma_accel_gain_capped(
    h: (int, int, int),
    w: (int, int, int),
    run_speed: int,
    max_accel: int,
    dt: int,
)
    requires
        unit_h(w),
        0 <= max_accel,
        0 <= dt,
    ensures
        dot_h(accel_s(h, w, run_speed, max_accel, dt), w) - dot_h(h, w) <= fix_mul(max_accel, dt),
        dot_h(h, w) <= dot_h(accel_s(h, w, run_speed, max_accel, dt), w),
{
    let sc = SCALE as int;
    assert(0 <= max_accel * dt) by (nonlinear_arith)
        requires
            0 <= max_accel,
            0 <= dt,
    ;
    lemma_div_trunc_nonneg(max_accel * dt, sc);
    let cap = fix_mul(max_accel, dt);
    let add_speed = add_speed_capped(run_speed, dot_h(h, w), max_accel, dt);
    assert(0 <= add_speed <= cap);
    lemma_accel_component(w.0, add_speed);
    lemma_accel_component(w.2, add_speed);
    let ax = fix_mul(w.0, add_speed);
    let az = fix_mul(w.2, add_speed);
    let gain = ax * w.0 + az * w.2;
    assert(gain * sc <= (w.0 * w.0 + w.2 * w.2) * add_speed) by (nonlinear_arith)
        requires
            (ax * w.0) * sc <= (w.0 * w.0) * add_speed,
            (az * w.2) * sc <= (w.2 * w.2) * add_speed,
            gain == ax * w.0 + az * w.2,
    ;
    assert((w.0 * w.0 + w.2 * w.2) * add_speed <= (sc * sc) * add_speed) by (nonlinear_arith)
        requires
            w.0 * w.0 + w.2 * w.2 <= sc * sc,
            0 <= add_speed,
    ;
    // gain * sc <= (sc * sc) * add_speed, and sc > 0, so gain <= sc * add_speed
    assert(gain <= sc * add_speed) by (nonlinear_arith)
        requires
            gain * sc <= (sc * sc) * add_speed,
            0 < sc,
    ;
    let n1 = h.0 * w.0 + h.2 * w.2;
    let n2 = (h.0 + ax) * w.0 + (h.2 + az) * w.2;
    assert(n2 == n1 + gain) by (nonlinear_arith)
        requires
            n1 == h.0 * w.0 + h.2 * w.2,
            n2 == (h.0 + ax) * w.0 + (h.2 + az) * w.2,
            gain == ax * w.0 + az * w.2,
    ;
    lemma_div_trunc_mono(n1, n2, sc);
    lemma_div_trunc_mono(n2, n1 + add_speed * sc, sc);
    lemma_div_trunc_shift(n1, add_speed, sc);
    assert(add_speed * sc == sc * add_speed) by (nonlinear_arith);
}

} // verus!
