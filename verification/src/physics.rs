//! The grounded-velocity source: what the physics collaborator's
//! previous-step report says the current velocity and contact state are.

use vstd::prelude::*;
use crate::math::{SCALE, div_trunc, lemma_div_trunc_mag, mul_div};
use crate::vec3::{Vec3, bounded3, v3};

verus! {

/// Range bound on a reported effective translation (a million units, in
/// milliunits).
pub const TRANSLATION_MAX: i64 = 1_000_000_000;

/// Range bound on a derived velocity component: a translation at the bound,
/// divided by the smallest positive frame time (one millisecond).
pub const VELOCITY_MAX: i64 = 1_000_000_000_000;

/// The physics collaborator's report of the previous kinematic sweep: the
/// displacement the sweep actually allowed, and whether it ended in contact
/// with a walkable surface.
#[derive(Clone, Copy, PartialEq, Eq, Structural, Debug)]
pub struct PhysicsReport {
    pub effective_translation: Vec3,
    pub grounded: bool,
}

/// The velocity a report implies: effective translation divided by elapsed
/// time. Zero when no report exists or the frame time is degenerate
/// (zero or negative) — never a division in that case.
pub open spec fn derived_velocity_s(report: Option<PhysicsReport>, dt: int) -> (int, int, int) {
    match report {
        Option::None => (0int, 0int, 0int),
        Option::Some(rep) => {
            if dt <= 0 {
                (0int, 0int, 0int)
            } else {
                let t = v3(rep.effective_translation);
                (
                    div_trunc(t.0 * SCALE, dt),
                    div_trunc(t.1 * SCALE, dt),
                    div_trunc(t.2 * SCALE, dt),
                )
            }
        },
    }
}

/// The grounded flag a report implies: false when no report exists or the
/// frame time is degenerate.
pub open spec fn derived_grounded_s(report: Option<PhysicsReport>, dt: int) -> bool {
    match report {
        Option::None => false,
        Option::Some(rep) => dt > 0 && rep.grounded,
    }
}

/// Derive `(current_velocity, grounded)` from the previous step's report.
pub fn derive_velocity(report: Option<PhysicsReport>, delta_time: i64) -> (out: (Vec3, bool))
    requires
        report is Some ==> bounded3(
            v3(report->0.effective_translation),
            TRANSLATION_MAX as int,
        ),
    ensures
        v3(out.0) == derived_velocity_s(report, delta_time as int),
        out.1 == derived_grounded_s(report, delta_time as int),
        bounded3(v3(out.0), VELOCITY_MAX as int),
{
    match report {
        Option::None => (Vec3::zero(), false),
        Option::Some(rep) => {
            if delta_time <= 0 {
                (Vec3::zero(), false)
            } else {
                let t = rep.effective_translation;
                proof {
                    lemma_div_trunc_mag(t.x as int * SCALE, delta_time as int);
                    lemma_div_trunc_mag(t.y as int * SCALE, delta_time as int);
                    lemma_div_trunc_mag(t.z as int * SCALE, delta_time as int);
                }
                let vx = mul_div(t.x, SCALE, delta_time);
                let vy = mul_div(t.y, SCALE, delta_time);
                let vz = mul_div(t.z, SCALE, delta_time);
                (Vec3 { x: vx, y: vy, z: vz }, rep.grounded)
            }
        },
    }
}

} // verus!
