//! Small integer vectors used for voxel cells and texture coordinates.

use vstd::prelude::*;

verus! {

/// A signed 3-component integer vector (a voxel cell or offset).
#[derive(Clone, Copy, Debug, PartialEq, Eq, Hash, Structural)]
pub struct IVec3 {
    pub x: i32,
    pub y: i32,
    pub z: i32,
}

/// An unsigned 3-component integer vector (a texel coordinate or extent).
#[derive(Clone, Copy, Debug, PartialEq, Eq, Hash, Structural)]
pub struct UVec3 {
    pub x: u32,
    pub y: u32,
    pub z: u32,
}

impl IVec3 {
    pub fn new(x: i32, y: i32, z: i32) -> (v: IVec3)
        ensures
            v == (IVec3 { x, y, z }),
    {
        IVec3 { x, y, z }
    }

    /// Component `axis` (0, 1 or 2).
    pub open spec fn at(self, axis: int) -> int {
        if axis == 0 {
            self.x as int
        } else if axis == 1 {
            self.y as int
        } else {
            self.z as int
        }
    }

    /// Component `axis` (0, 1 or 2).
    pub fn get(self, axis: usize) -> (v: i32)
        requires
            axis < 3,
        ensures
            v == self.at(axis as int),
    {
        if axis == 0 {
            self.x
        } else if axis == 1 {
            self.y
        } else {
            self.z
        }
    }

    /// `self` with component `axis` replaced by `value`.
    pub open spec fn with_spec(self, axis: int, value: i32) -> IVec3 {
        if axis == 0 {
            IVec3 { x: value, ..self }
        } else if axis == 1 {
            IVec3 { y: value, ..self }
        } else {
            IVec3 { z: value, ..self }
        }
    }

    pub fn with(self, axis: usize, value: i32) -> (v: IVec3)
        requires
            axis < 3,
        ensures
            v == self.with_spec(axis as int, value),
    {
        if axis == 0 {
            IVec3 { x: value, ..self }
        } else if axis == 1 {
            IVec3 { y: value, ..self }
        } else {
            IVec3 { z: value, ..self }
        }
    }
}

impl UVec3 {
    pub fn new(x: u32, y: u32, z: u32) -> (v: UVec3)
        ensures
            v == (UVec3 { x, y, z }),
    {
        UVec3 { x, y, z }
    }

    pub fn splat(v: u32) -> (r: UVec3)
        ensures
            r == (UVec3 { x: v, y: v, z: v }),
    {
        UVec3 { x: v, y: v, z: v }
    }

    /// Component `axis` (0, 1 or 2).
    pub open spec fn at(self, axis: int) -> int {
        if axis == 0 {
            self.x as int
        } else if axis == 1 {
            self.y as int
        } else {
            self.z as int
        }
    }

    /// `self` with component `axis` replaced by `value`.
    pub open spec fn with_spec(self, axis: int, value: u32) -> UVec3 {
        if axis == 0 {
            UVec3 { x: value, ..self }
        } else if axis == 1 {
            UVec3 { y: value, ..self }
        } else {
            UVec3 { z: value, ..self }
        }
    }

    pub fn with(self, axis: usize, value: u32) -> (v: UVec3)
        requires
            axis < 3,
        ensures
            v == self.with_spec(axis as int, value),
    {
        if axis == 0 {
            UVec3 { x: value, ..self }
        } else if axis == 1 {
            UVec3 { y: value, ..self }
        } else {
            UVec3 { z: value, ..self }
        }
    }
}

/// `v` modulo `m`, with a result in `0..m` (Euclidean remainder).
pub fn rem_euclid_i32(v: i32, m: i32) -> (r: i32)
    requires
        m > 0,
    ensures
        r == v % m,
        0 <= r < m,
{
    match v.checked_rem_euclid(m) {
        Some(r) => r,
        None => 0,
    }
}

/// Floor division of `v` by a positive `m` (Euclidean quotient).
pub fn div_euclid_i32(v: i32, m: i32) -> (q: i32)
    requires
        m > 0,
    ensures
        q == v / m,
{
    match v.checked_div_euclid(m) {
        Some(q) => q,
        None => {
            assert(i32::MIN <= v / m <= i32::MAX) by (nonlinear_arith)
                requires
                    m > 0,
                    i32::MIN <= v <= i32::MAX,
            ;
            0
        },
    }
}

/// Magnitude of `v` as an unsigned value.
pub fn unsigned_abs_i32(v: i32) -> (r: u32)
    ensures
        r == (if v < 0 {
            -v
        } else {
            v as int
        }),
{
    if v < 0 {
        (-(v as i64)) as u32
    } else {
        v as u32
    }
}

} // verus!
