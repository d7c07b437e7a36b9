// Exercises the camera look controller and the per-tick orchestrator.
// Angles are milliradians, pixels and viewport sizes are milli-pixels.

use playermove::camera::{apply_mouse_events, CameraOrientation, Viewport};
use playermove::config::MovementConfig;
use playermove::input::{InputSnapshot, KeysHeld, MouseDelta};
use playermove::physics::PhysicsReport;
use playermove::tick::{movement_tick, CameraSnapshot, ControllerSnapshot, MovementPolicy, TickOutput};
use playermove::vec3::Vec3;

const ANGLE_SCALE: i64 = 10_000;

fn test_config() -> MovementConfig {
    MovementConfig::new(5_000, 1_000, 32_000, 18_000, 20_000, 30_000, 10_000).unwrap()
}

fn keys_none() -> KeysHeld {
    KeysHeld { forward: false, back: false, strafe_left: false, strafe_right: false, jump: false }
}

fn viewport_1000px() -> Viewport {
    Viewport { width: 1_000_000, height: 1_000_000 }
}

#[test]
fn scenario_e_single_horizontal_event() {
    // delta (1000 px, 0), window_scale 1000 px, sensitivity 5, divisor
    // 10000: yaw turns by 5 * 1000 * 1000 / 10000 = 500 degrees, which is
    // 8.7265 radians; pitch is untouched
    let orientation = CameraOrientation { yaw: 0, pitch: 0 };
    let events = vec![MouseDelta { x: 1_000_000, y: 0 }];
    let r = apply_mouse_events(orientation, &events, 5_000, viewport_1000px(), ANGLE_SCALE);
    assert_eq!(r.yaw, -8_726);
    assert_eq!(r.pitch, 0);
}

#[test]
fn pitch_is_clamped_per_event() {
    let orientation = CameraOrientation { yaw: 100, pitch: 0 };
    let events = vec![MouseDelta { x: 0, y: 1_000_000 }];
    let r = apply_mouse_events(orientation, &events, 5_000, viewport_1000px(), ANGLE_SCALE);
    assert_eq!(r.pitch, -1_540);
    assert_eq!(r.yaw, 100);
}

#[test]
fn events_apply_in_arrival_order() {
    // the first event pins the pitch to the clamp; the second, smaller and
    // opposite, lifts it by 872 milliradians
    let orientation = CameraOrientation { yaw: 0, pitch: 0 };
    let events = vec![
        MouseDelta { x: 0, y: 1_000_000 },
        MouseDelta { x: 0, y: -100_000 },
    ];
    let r = apply_mouse_events(orientation, &events, 5_000, viewport_1000px(), ANGLE_SCALE);
    assert_eq!(r.pitch, -668);
    assert_eq!(r.yaw, 0);
}

#[test]
fn no_events_leave_orientation() {
    let orientation = CameraOrientation { yaw: -4_321, pitch: 777 };
    let events: Vec<MouseDelta> = vec![];
    let r = apply_mouse_events(orientation, &events, 5_000, viewport_1000px(), ANGLE_SCALE);
    assert_eq!(r, orientation);
}

#[test]
fn window_scale_uses_smaller_dimension() {
    // a wide viewport: the 1000 px height sets the scale, as in the square case
    let orientation = CameraOrientation { yaw: 0, pitch: 0 };
    let events = vec![MouseDelta { x: 1_000_000, y: 0 }];
    let wide = Viewport { width: 4_000_000, height: 1_000_000 };
    let r = apply_mouse_events(orientation, &events, 5_000, wide, ANGLE_SCALE);
    assert_eq!(r.yaw, -8_726);
}

fn full_snapshots() -> (ControllerSnapshot, CameraSnapshot) {
    let controller = ControllerSnapshot {
        report: Some(PhysicsReport {
            effective_translation: Vec3 { x: 0, y: 0, z: 500 },
            grounded: true,
        }),
        forward: Vec3 { x: 0, y: 0, z: 1_000 },
    };
    let camera = CameraSnapshot {
        orientation: CameraOrientation { yaw: 0, pitch: 0 },
        viewport: viewport_1000px(),
    };
    (controller, camera)
}

#[test]
fn tick_skips_without_controller() {
    let (_, camera) = full_snapshots();
    let input = InputSnapshot { keys: keys_none(), mouse: vec![], delta_time: 100 };
    let out = movement_tick(
        None,
        Some(camera),
        &input,
        &test_config(),
        MovementPolicy::AcceleratedFriction,
        ANGLE_SCALE,
    );
    assert!(out.is_none());
}

#[test]
fn tick_skips_without_camera() {
    let (controller, _) = full_snapshots();
    let input = InputSnapshot { keys: keys_none(), mouse: vec![], delta_time: 100 };
    let out = movement_tick(
        Some(controller),
        None,
        &input,
        &test_config(),
        MovementPolicy::AcceleratedFriction,
        ANGLE_SCALE,
    );
    assert!(out.is_none());
}

#[test]
fn tick_integrates_and_scales_translation() {
    // previous translation 0.5 over 0.1 s: speed 5 < stop 20, friction
    // leaves 3; the forward key adds the 3.2 cap: 6.2 along +Z; gravity
    // pulls 3 down; the requested translation is velocity * 0.1
    let (controller, camera) = full_snapshots();
    let keys = KeysHeld { forward: true, ..keys_none() };
    let input = InputSnapshot { keys, mouse: vec![], delta_time: 100 };
    let out: TickOutput = movement_tick(
        Some(controller),
        Some(camera),
        &input,
        &test_config(),
        MovementPolicy::AcceleratedFriction,
        ANGLE_SCALE,
    )
    .unwrap();
    assert_eq!(out.velocity, Vec3 { x: 0, y: -3_000, z: 6_200 });
    assert_eq!(out.requested_translation, Vec3 { x: 0, y: -300, z: 620 });
    assert_eq!(out.orientation, CameraOrientation { yaw: 0, pitch: 0 });
}

#[test]
fn tick_scenario_d_zero_delta_time() {
    // delta_time 0: the physics feedback is not divided, and the whole
    // integration collapses to the zero vector — no panic, no motion
    let (controller, camera) = full_snapshots();
    let keys = KeysHeld { forward: true, jump: true, ..keys_none() };
    let input = InputSnapshot { keys, mouse: vec![], delta_time: 0 };
    let out = movement_tick(
        Some(controller),
        Some(camera),
        &input,
        &test_config(),
        MovementPolicy::AcceleratedFriction,
        ANGLE_SCALE,
    )
    .unwrap();
    assert_eq!(out.velocity, Vec3 { x: 0, y: 0, z: 0 });
    assert_eq!(out.requested_translation, Vec3 { x: 0, y: 0, z: 0 });
}

#[test]
fn tick_direct_policy_walks_at_run_speed() {
    let (controller, camera) = full_snapshots();
    let keys = KeysHeld { forward: true, ..keys_none() };
    let input = InputSnapshot { keys, mouse: vec![], delta_time: 100 };
    let out = movement_tick(
        Some(controller),
        Some(camera),
        &input,
        &test_config(),
        MovementPolicy::DirectKinematic,
        ANGLE_SCALE,
    )
    .unwrap();
    assert_eq!(out.velocity, Vec3 { x: 0, y: 0, z: 18_000 });
    assert_eq!(out.requested_translation, Vec3 { x: 0, y: 0, z: 1_800 });
}

#[test]
fn tick_commits_camera_orientation() {
    let (controller, camera) = full_snapshots();
    let input = InputSnapshot {
        keys: keys_none(),
        mouse: vec![MouseDelta { x: 1_000_000, y: 0 }],
        delta_time: 100,
    };
    let out = movement_tick(
        Some(controller),
        Some(camera),
        &input,
        &test_config(),
        MovementPolicy::AcceleratedFriction,
        ANGLE_SCALE,
    )
    .unwrap();
    assert_eq!(out.orientation, CameraOrientation { yaw: -8_726, pitch: 0 });
}
