//! Per-session movement tuning, validated once at configuration-load time.

use vstd::prelude::*;

verus! {

/// Range bound on every configuration magnitude (1000 units, in
/// milliunits); it keeps all fixed-point intermediates inside machine range.
pub const CONFIG_MAX: i64 = 1_000_000;

/// Range bound on a frame's elapsed time: 600 seconds, in milliseconds.
pub const DT_MAX: i64 = 600_000;

/// Immutable per-session movement tuning, in fixed-point milliunits.
#[derive(Clone, Copy, PartialEq, Eq, Structural, Debug)]
pub struct MovementConfig {
    /// Mouse-look sensitivity factor.
    pub sensitivity: i64,
    /// Ground friction coefficient, per second.
    pub friction: i64,
    /// Cap on speed gained toward the wish direction, per second.
    pub max_accel: i64,
    /// Target ground speed, units per second.
    pub run_speed: i64,
    /// Floor on the friction control term, units per second.
    pub stop_speed: i64,
    /// Downward acceleration, units per second per second.
    pub gravity: i64,
    /// Upward velocity added by a jump, units per second.
    pub jump_force: i64,
}

/// Why a configuration was rejected at load time.
#[derive(Clone, Copy, PartialEq, Eq, Structural, Debug)]
pub enum ConfigError {
    /// A value is negative, or a value that must be strictly positive
    /// (sensitivity and the speeds) is zero.
    NotPositive,
    /// A value exceeds the machine range `CONFIG_MAX`.
    OutOfRange,
}

impl MovementConfig {
    /// Sign conditions: nothing negative, and sensitivity and the speeds
    /// strictly positive.
    pub open spec fn signs_ok(self) -> bool {
        &&& 0 < self.sensitivity
        &&& 0 <= self.friction
        &&& 0 <= self.max_accel
        &&& 0 < self.run_speed
        &&& 0 < self.stop_speed
        &&& 0 <= self.gravity
        &&& 0 <= self.jump_force
    }

    /// Machine-range conditions.
    pub open spec fn range_ok(self) -> bool {
        &&& self.sensitivity <= CONFIG_MAX
        &&& self.friction <= CONFIG_MAX
        &&& self.max_accel <= CONFIG_MAX
        &&& self.run_speed <= CONFIG_MAX
        &&& self.stop_speed <= CONFIG_MAX
        &&& self.gravity <= CONFIG_MAX
        &&& self.jump_force <= CONFIG_MAX
    }

    /// A well-formed configuration, as every movement function requires it.
    pub open spec fn wf(self) -> bool {
        self.signs_ok() && self.range_ok()
    }

    /// Validate and assemble a configuration. Succeeds exactly on
    /// well-formed values; a sign violation is reported ahead of a range
    /// violation.
    pub fn new(
        sensitivity: i64,
        friction: i64,
        max_accel: i64,
        run_speed: i64,
        stop_speed: i64,
        gravity: i64,
        jump_force: i64,
    ) -> (r: Result<MovementConfig, ConfigError>)
        ensures
            ({
                let c = MovementConfig {
                    sensitivity,
                    friction,
                    max_accel,
                    run_speed,
                    stop_speed,
                    gravity,
                    jump_force,
                };
                &&& (r is Ok <==> c.wf())
                &&& (r is Ok ==> r->Ok_0 == c)
                &&& (!c.signs_ok() ==> r == Result::<MovementConfig, ConfigError>::Err(
                    ConfigError::NotPositive,
                ))
                &&& (c.signs_ok() && !c.range_ok() ==> r == Result::<
                    MovementConfig,
                    ConfigError,
                >::Err(ConfigError::OutOfRange))
            }),
    {
        let c = MovementConfig {
            sensitivity,
            friction,
            max_accel,
            run_speed,
            stop_speed,
            gravity,
            jump_force,
        };
        if sensitivity <= 0 || friction < 0 || max_accel < 0 || run_speed <= 0 || stop_speed <= 0
            || gravity < 0 || jump_force < 0 {
            Err(ConfigError::NotPositive)
        } else if sensitivity > CONFIG_MAX || friction > CONFIG_MAX || max_accel > CONFIG_MAX
            || run_speed > CONFIG_MAX || stop_speed > CONFIG_MAX || gravity > CONFIG_MAX
            || jump_force > CONFIG_MAX {
            Err(ConfigError::OutOfRange)
        } else {
            Ok(c)
        }
    }
}

} // verus!
