// Exercises the fixed-point movement core: configuration validation, the
// grounded-velocity source, the wish-direction resolver and the velocity
// integrator. All quantities are milliunits: 1000 = 1.0.

use playermove::config::{ConfigError, MovementConfig};
use playermove::input::KeysHeld;
use playermove::math::{isqrt, mul_div};
use playermove::physics::{derive_velocity, PhysicsReport};
use playermove::vec3::Vec3;
use playermove::velocity::{accelerate, apply_friction, integrate_velocity, vertical_velocity};
use playermove::wish::wish_direction;

fn test_config() -> MovementConfig {
    // the session constants: sensitivity 5.0, friction 1.0, max_accel 32.0,
    // run_speed 18.0, stop_speed 20.0, gravity 30.0, jump_force 10.0
    MovementConfig::new(5_000, 1_000, 32_000, 18_000, 20_000, 30_000, 10_000).unwrap()
}

fn keys_none() -> KeysHeld {
    KeysHeld { forward: false, back: false, strafe_left: false, strafe_right: false, jump: false }
}

#[test]
fn config_accepts_valid_values() {
    let cfg = test_config();
    assert_eq!(cfg.run_speed, 18_000);
    assert_eq!(cfg.stop_speed, 20_000);
}

#[test]
fn config_rejects_negative_values() {
    assert_eq!(
        MovementConfig::new(5_000, -1, 32_000, 18_000, 20_000, 30_000, 10_000),
        Err(ConfigError::NotPositive)
    );
    assert_eq!(
        MovementConfig::new(5_000, 1_000, 32_000, 18_000, 20_000, -30_000, 10_000),
        Err(ConfigError::NotPositive)
    );
}

#[test]
fn config_rejects_zero_speeds() {
    assert_eq!(
        MovementConfig::new(0, 1_000, 32_000, 18_000, 20_000, 30_000, 10_000),
        Err(ConfigError::NotPositive)
    );
    assert_eq!(
        MovementConfig::new(5_000, 1_000, 32_000, 0, 20_000, 30_000, 10_000),
        Err(ConfigError::NotPositive)
    );
}

#[test]
fn config_rejects_out_of_range_values() {
    assert_eq!(
        MovementConfig::new(5_000, 1_000, 32_000, 18_000, 20_000, 30_000, 1_000_001),
        Err(ConfigError::OutOfRange)
    );
}

#[test]
fn isqrt_floors() {
    assert_eq!(isqrt(0), 0);
    assert_eq!(isqrt(1), 1);
    assert_eq!(isqrt(2_000_000), 1414);
    assert_eq!(isqrt(25_000_000), 5000);
}

#[test]
fn mul_div_truncates_toward_zero() {
    assert_eq!(mul_div(7, 3, 2), 10); // 21 / 2
    assert_eq!(mul_div(-5, 3, 2), -7); // -15 / 2
    assert_eq!(mul_div(5, -3, 2), -7);
}

#[test]
fn first_tick_has_no_report() {
    let (v, grounded) = derive_velocity(None, 100);
    assert_eq!(v, Vec3 { x: 0, y: 0, z: 0 });
    assert!(!grounded);
}

#[test]
fn velocity_is_translation_over_time() {
    let report = PhysicsReport {
        effective_translation: Vec3 { x: 1_000, y: 2_000, z: 3_000 },
        grounded: true,
    };
    let (v, grounded) = derive_velocity(Some(report), 100);
    assert_eq!(v, Vec3 { x: 10_000, y: 20_000, z: 30_000 });
    assert!(grounded);
}

#[test]
fn scenario_d_zero_delta_time_gives_zero_velocity() {
    let report = PhysicsReport {
        effective_translation: Vec3 { x: 5_000, y: 5_000, z: 5_000 },
        grounded: true,
    };
    let (v, grounded) = derive_velocity(Some(report), 0);
    assert_eq!(v, Vec3 { x: 0, y: 0, z: 0 });
    assert!(!grounded);
    let (v, grounded) = derive_velocity(Some(report), -7);
    assert_eq!(v, Vec3 { x: 0, y: 0, z: 0 });
    assert!(!grounded);
}

#[test]
fn wish_no_keys_is_zero() {
    let forward = Vec3 { x: 0, y: 0, z: 1_000 };
    let w = wish_direction(forward, keys_none());
    assert_eq!(w, Vec3 { x: 0, y: 0, z: 0 });
}

#[test]
fn wish_forward_follows_bearing() {
    let forward = Vec3 { x: 0, y: -500, z: 1_000 };
    let w = wish_direction(forward, KeysHeld { forward: true, ..keys_none() });
    assert_eq!(w, Vec3 { x: 0, y: 0, z: 1_000 });
}

#[test]
fn wish_strafe_rotates_bearing() {
    let forward = Vec3 { x: 0, y: 0, z: 1_000 };
    let left = wish_direction(forward, KeysHeld { strafe_left: true, ..keys_none() });
    assert_eq!(left, Vec3 { x: 1_000, y: 0, z: 0 });
    let right = wish_direction(forward, KeysHeld { strafe_right: true, ..keys_none() });
    assert_eq!(right, Vec3 { x: -1_000, y: 0, z: 0 });
}

#[test]
fn wish_opposite_keys_cancel() {
    let forward = Vec3 { x: 0, y: 0, z: 1_000 };
    let keys = KeysHeld { forward: true, back: true, ..keys_none() };
    assert_eq!(wish_direction(forward, keys), Vec3 { x: 0, y: 0, z: 0 });
}

#[test]
fn wish_diagonal_keeps_unit_length() {
    let forward = Vec3 { x: 0, y: 0, z: 1_000 };
    let keys = KeysHeld { forward: true, strafe_left: true, ..keys_none() };
    let w = wish_direction(forward, keys);
    assert_eq!(w, Vec3 { x: 706, y: 0, z: 706 });
    assert!(w.x * w.x + w.z * w.z <= 1_000_000);
}

#[test]
fn wish_vertical_bearing_degenerates_to_zero() {
    let forward = Vec3 { x: 0, y: 1_000, z: 0 };
    let w = wish_direction(forward, KeysHeld { forward: true, ..keys_none() });
    assert_eq!(w, Vec3 { x: 0, y: 0, z: 0 });
}

#[test]
fn friction_deadzone_zeroes_slow_velocity() {
    // speed just under 0.1 units per second
    let cfg = test_config();
    let v = Vec3 { x: 50, y: 777, z: 50 };
    assert_eq!(apply_friction(v, true, &cfg, 100), Vec3 { x: 0, y: 0, z: 0 });
    assert_eq!(apply_friction(v, false, &cfg, 100), Vec3 { x: 0, y: 0, z: 0 });
}

#[test]
fn friction_airborne_leaves_horizontal_velocity() {
    let cfg = test_config();
    let v = Vec3 { x: 4_000, y: -9_000, z: 3_000 };
    assert_eq!(apply_friction(v, false, &cfg, 100), Vec3 { x: 4_000, y: 0, z: 3_000 });
}

#[test]
fn scenario_a_stop_speed_floors_friction_control() {
    // speed 5 < stop_speed 20 so control = 20; friction 1 over 0.1 s loses
    // 2 units of speed: 5 becomes 3, along the same direction
    let cfg = test_config();
    let v = Vec3 { x: 0, y: 0, z: 5_000 };
    assert_eq!(apply_friction(v, true, &cfg, 100), Vec3 { x: 0, y: 0, z: 3_000 });
}

#[test]
fn friction_above_stop_speed_loses_proportionally() {
    // speed 30 >= stop_speed 20: loss is exactly 30 * 1.0 * 0.1 = 3
    let cfg = test_config();
    let v = Vec3 { x: 0, y: 0, z: 30_000 };
    assert_eq!(apply_friction(v, true, &cfg, 100), Vec3 { x: 0, y: 0, z: 27_000 });
}

#[test]
fn friction_floors_speed_at_zero() {
    // 0.2 s of friction at control 20 would remove 4 > speed 3.5
    let cfg = test_config();
    let v = Vec3 { x: 0, y: 0, z: 3_500 };
    assert_eq!(apply_friction(v, true, &cfg, 200), Vec3 { x: 0, y: 0, z: 0 });
}

#[test]
fn scenario_b_zero_wish_leaves_velocity() {
    let cfg = test_config();
    let h = Vec3 { x: 1_234, y: 0, z: -987 };
    let w = Vec3 { x: 0, y: 0, z: 0 };
    assert_eq!(accelerate(h, w, &cfg, 100), h);
}

#[test]
fn acceleration_gain_is_capped() {
    // from rest toward +Z: add_speed = min(run 18, cap 32 * 0.1) = 3.2
    let cfg = test_config();
    let h = Vec3 { x: 0, y: 0, z: 0 };
    let w = Vec3 { x: 0, y: 0, z: 1_000 };
    assert_eq!(accelerate(h, w, &cfg, 100), Vec3 { x: 0, y: 0, z: 3_200 });
}

#[test]
fn acceleration_never_decelerates() {
    // already faster than run_speed along the wish: nothing is added
    let cfg = test_config();
    let h = Vec3 { x: 0, y: 0, z: 25_000 };
    let w = Vec3 { x: 0, y: 0, z: 1_000 };
    assert_eq!(accelerate(h, w, &cfg, 100), h);
}

#[test]
fn scenario_c_jump_needs_ground_contact() {
    let cfg = test_config();
    // airborne: the held jump key adds nothing
    assert_eq!(vertical_velocity(0, false, true, &cfg, 100), -3_000);
    // grounded without the key: nothing either
    assert_eq!(vertical_velocity(0, true, false, &cfg, 100), -3_000);
    // grounded with the key: exactly jump_force on top of gravity
    assert_eq!(vertical_velocity(0, true, true, &cfg, 100), 7_000);
}

#[test]
fn gravity_integrates_over_time() {
    let cfg = test_config();
    assert_eq!(vertical_velocity(12_000, false, false, &cfg, 200), 6_000);
}

#[test]
fn integrate_accelerates_from_rest() {
    let cfg = test_config();
    let current = Vec3 { x: 0, y: 0, z: 0 };
    let w = Vec3 { x: 0, y: 0, z: 1_000 };
    let nv = integrate_velocity(current, true, w, false, &cfg, 100);
    assert_eq!(nv, Vec3 { x: 0, y: -3_000, z: 3_200 });
}

#[test]
fn integrate_jump_stacks_on_vertical_velocity() {
    let cfg = test_config();
    let current = Vec3 { x: 0, y: 2_000, z: 0 };
    let w = Vec3 { x: 0, y: 0, z: 0 };
    let nv = integrate_velocity(current, true, w, true, &cfg, 100);
    // 2 - 3 + 10 = 9 units per second upward
    assert_eq!(nv.y, 9_000);
}
