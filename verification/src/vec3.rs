//! Three-component fixed-point vectors. `y` is the vertical axis; `x` and
//! `z` span the horizontal plane.

use vstd::prelude::*;

verus! {

/// A vector of fixed-point milliunits.
#[derive(Clone, Copy, PartialEq, Eq, Structural, Debug)]
pub struct Vec3 {
    pub x: i64,
    pub y: i64,
    pub z: i64,
}

/// The mathematical view of a vector: its components as unbounded integers.
pub open spec fn v3(v: Vec3) -> (int, int, int) {
    (v.x as int, v.y as int, v.z as int)
}

/// Every component of `v` lies within `[-m, m]`.
pub open spec fn bounded3(v: (int, int, int), m: int) -> bool {
    &&& -m <= v.0 <= m
    &&& -m <= v.1 <= m
    &&& -m <= v.2 <= m
}

/// Squared length of the horizontal (XZ) part.
pub open spec fn h_norm2(v: (int, int, int)) -> int {
    v.0 * v.0 + v.2 * v.2
}

impl Vec3 {
    /// The zero vector.
    pub fn zero() -> (r: Vec3)
        ensures
            v3(r) == (0int, 0int, 0int),
    {
        Vec3 { x: 0, y: 0, z: 0 }
    }

    /// The horizontal part: the vertical component zeroed.
    pub fn horizontal(self) -> (r: Vec3)
        ensures
            v3(r) == (self.x as int, 0int, self.z as int),
    {
        Vec3 { x: self.x, y: 0, z: self.z }
    }
}

} // verus!
