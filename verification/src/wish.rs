//! The wish-direction resolver: camera bearing and held keys become a
//! normalized horizontal direction of intended movement.

use vstd::prelude::*;
use crate::input::KeysHeld;
use crate::math::{
    SCALE,
    abs_s,
    div_trunc,
    isqrt,
    lemma_abs_sq,
    lemma_div_trunc_mag,
    lemma_sq_of_le,
    lemma_sq_of_product,
    lemma_sqrt_floor_exists,
    lemma_sqrt_floor_unique,
    mul_div,
    sqrt_floor,
};
use crate::physics::VELOCITY_MAX;
use crate::vec3::{Vec3, bounded3, h_norm2, v3};

verus! {

/// A well-formed direction: horizontal, with length at most one unit.
pub open spec fn unit_h(w: (int, int, int)) -> bool {
    w.1 == 0 && h_norm2(w) <= SCALE * SCALE
}

/// The divisor normalization uses: the square root of the squared length,
/// rounded up when inexact, so that scaling by `SCALE / norm_up` never
/// lengthens a vector.
pub open spec fn norm_up(n2: int) -> int {
    let r = sqrt_floor(n2);
    if r * r == n2 {
        r
    } else {
        r + 1
    }
}

/// Project onto the horizontal plane and normalize to length one unit;
/// the zero vector degenerates to the zero vector.
pub open spec fn normalize_h_s(v: (int, int, int)) -> (int, int, int) {
    let n2 = h_norm2(v);
    if n2 == 0 {
        (0int, 0int, 0int)
    } else {
        (div_trunc(v.0 * SCALE, norm_up(n2)), 0int, div_trunc(v.2 * SCALE, norm_up(n2)))
    }
}

/// The un-normalized sum of the held keys' contributions: the bearing for
/// forward, its negation for back, and the bearing rotated a quarter turn
/// about the vertical axis for each strafe key.
pub open spec fn key_sum_s(b: (int, int, int), keys: KeysHeld) -> (int, int, int) {
    let fx = if keys.forward {
        b.0
    } else {
        0int
    };
    let fz = if keys.forward {
        b.2
    } else {
        0int
    };
    let bx = if keys.back {
        -b.0
    } else {
        0int
    };
    let bz = if keys.back {
        -b.2
    } else {
        0int
    };
    let lx = if keys.strafe_left {
        b.2
    } else {
        0int
    };
    let lz = if keys.strafe_left {
        -b.0
    } else {
        0int
    };
    let rx = if keys.strafe_right {
        -b.2
    } else {
        0int
    };
    let rz = if keys.strafe_right {
        b.0
    } else {
        0int
    };
    (fx + bx + lx + rx, 0int, fz + bz + lz + rz)
}

/// The wish direction: the camera bearing (forward projected to the
/// horizontal plane and normalized) combined over the held keys, the sum
/// normalized again. Opposite keys cancel to the zero vector, and diagonal
/// combinations keep length one unit.
pub open spec fn wish_direction_s(forward: (int, int, int), keys: KeysHeld) -> (int, int, int) {
    normalize_h_s(key_sum_s(normalize_h_s(forward), keys))
}

/// A normalized vector is horizontal and no longer than one unit.
pub proof fn lemma_normalize_unit(v: (int, int, int))
    ensures
        unit_h(normalize_h_s(v)),
        bounded3(normalize_h_s(v), SCALE as int),
{
    let n2 = h_norm2(v);
    lemma_abs_sq(v.0);
    lemma_abs_sq(v.2);
    if n2 == 0 {
        let w = normalize_h_s(v);
        assert(w.0 == 0 && w.1 == 0 && w.2 == 0);
        assert(0int <= SCALE * SCALE) by (nonlinear_arith);
        assert(unit_h(w));
    } else {
        lemma_sqrt_floor_exists(n2);
        let r = sqrt_floor(n2);
        let nu = norm_up(n2);
        assert(n2 <= nu * nu) by (nonlinear_arith)
            requires
                0 <= r,
                nu == if r * r == n2 {
                    r
                } else {
                    r + 1
                },
                r * r <= n2 && n2 < (r + 1) * (r + 1),
        ;
        assert(1 <= nu) by (nonlinear_arith)
            requires
                0 < n2,
                n2 <= nu * nu,
                0 <= nu,
        ;
        let nx = div_trunc(v.0 * SCALE, nu);
        let nz = div_trunc(v.2 * SCALE, nu);
        lemma_component_sq_bound(v.0, nu, nx);
        lemma_component_sq_bound(v.2, nu, nz);
        // (nx^2 + nz^2) * nu^2 <= n2 * SCALE^2 <= nu^2 * SCALE^2
        assert(nx * nx + nz * nz <= SCALE * SCALE) by (nonlinear_arith)
            requires
                (nx * nx) * (nu * nu) <= ((v.0 * v.0) * ((SCALE * SCALE) as int)),
                (nz * nz) * (nu * nu) <= ((v.2 * v.2) * ((SCALE * SCALE) as int)),
                v.0 * v.0 + v.2 * v.2 <= nu * nu,
                0 < nu * nu,
                0 <= SCALE * SCALE,
        ;
        lemma_component_le(v.0, nu, nx);
        lemma_component_le(v.2, nu, nz);
    }
}

/// Each normalized component, squared and weighted by the divisor squared,
/// is bounded by the unnormalized component squared times the scale squared.
proof fn lemma_component_sq_bound(x: int, nu: int, nx: int)
    requires
        0 < nu,
        nx == div_trunc(x * SCALE, nu),
    ensures
        (nx * nx) * (nu * nu) <= (x * x) * ((SCALE * SCALE) as int),
{
    lemma_div_trunc_mag(x * SCALE, nu);
    let m = abs_s(x);
    let mn = abs_s(nx);
    lemma_abs_sq(x);
    lemma_abs_sq(nx);
    assert(abs_s(x * SCALE) == m * (SCALE as int));
    assert(0 <= mn * nu) by (nonlinear_arith)
        requires
            0 <= mn,
            0 < nu,
    ;
    lemma_sq_of_le(mn * nu, m * (SCALE as int));
    lemma_sq_of_product(mn, nu);
    lemma_sq_of_product(m, SCALE as int);
}

/// Each normalized component has magnitude at most `SCALE`.
proof fn lemma_component_le(x: int, nu: int, nx: int)
    requires
        0 < nu,
        x * x <= nu * nu,
        nx == div_trunc(x * SCALE, nu),
    ensures
        -SCALE <= nx <= SCALE,
{
    lemma_div_trunc_mag(x * SCALE, nu);
    let m = abs_s(x);
    let mn = abs_s(nx);
    lemma_abs_sq(x);
    assert(m <= nu) by (nonlinear_arith)
        requires
            m * m <= nu * nu,
            0 <= m,
            0 < nu,
    ;
    assert(abs_s(x * SCALE) == m * (SCALE as int));
    assert(mn <= SCALE) by (nonlinear_arith)
        requires
            0 < nu,
            0 <= mn,
            mn * nu <= m * (SCALE as int),
            m <= nu,
            0 < SCALE,
    ;
}

/// Project `v` onto the horizontal plane and normalize it to length one
/// unit; a zero horizontal part degenerates to the zero vector.
pub fn normalize_horizontal(v: Vec3) -> (r: Vec3)
    requires
        bounded3(v3(v), VELOCITY_MAX as int),
    ensures
        v3(r) == normalize_h_s(v3(v)),
        unit_h(v3(r)),
        bounded3(v3(r), SCALE as int),
{
    proof {
        lemma_normalize_unit(v3(v));
        lemma_abs_sq(v.x as int);
        lemma_abs_sq(v.z as int);
        lemma_sq_of_le(abs_s(v.x as int), VELOCITY_MAX as int);
        lemma_sq_of_le(abs_s(v.z as int), VELOCITY_MAX as int);
    }
    let wx: i128 = (v.x as i128) * (v.x as i128);
    let wz: i128 = (v.z as i128) * (v.z as i128);
    let n2: i128 = wx + wz;
    if n2 == 0 {
        Vec3::zero()
    } else {
        let root = isqrt(n2 as u128);
        proof {
            lemma_sqrt_floor_unique(n2 as int, root as int);
            assert(root as int <= 2_000_000_000_000int) by (nonlinear_arith)
                requires
                    0 <= root as int,
                    (root as int) * (root as int) <= n2 as int,
                    n2 as int <= 4_000_000_000_000_000_000_000_000int,
            ;
        }
        let exact = root * root == n2 as u128;
        let nu: i64 = if exact {
            root as i64
        } else {
            (root + 1) as i64
        };
        proof {
            if root == 0 {
                assert(root as int * root as int == 0) by (nonlinear_arith)
                    requires
                        root as int == 0,
                ;
                assert(!exact);
            }
            assert(1 <= nu as int);
            assert(nu as int == norm_up(h_norm2(v3(v))));
            lemma_div_trunc_mag(v.x as int * SCALE, nu as int);
            lemma_div_trunc_mag(v.z as int * SCALE, nu as int);
        }
        let nx = mul_div(v.x, SCALE, nu);
        let nz = mul_div(v.z, SCALE, nu);
        Vec3 { x: nx, y: 0, z: nz }
    }
}

/// Resolve the held keys against the camera's forward vector into the wish
/// direction.
pub fn wish_direction(forward: Vec3, keys: KeysHeld) -> (w: Vec3)
    requires
        bounded3(v3(forward), VELOCITY_MAX as int),
    ensures
        v3(w) == wish_direction_s(v3(forward), keys),
        unit_h(v3(w)),
        bounded3(v3(w), SCALE as int),
{
    let b = normalize_horizontal(forward);
    let mut sx: i64 = 0;
    let mut sz: i64 = 0;
    if keys.forward {
        sx = sx + b.x;
        sz = sz + b.z;
    }
    if keys.back {
        sx = sx - b.x;
        sz = sz - b.z;
    }
    if keys.strafe_left {
        sx = sx + b.z;
        sz = sz - b.x;
    }
    if keys.strafe_right {
        sx = sx - b.z;
        sz = sz + b.x;
    }
    let sum = Vec3 { x: sx, y: 0, z: sz };
    proof {
        assert(v3(sum) == key_sum_s(normalize_h_s(v3(forward)), keys));
    }
    normalize_horizontal(sum)
}

} // verus!
