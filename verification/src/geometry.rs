//! Voxel coordinates and positions between them.

use vstd::prelude::*;
use crate::fixed::{is_sqrt_floor, isqrt, sqrt_floor};

verus! {

/// Address of one voxel in the world grid.
#[derive(Clone, Copy, PartialEq, Eq, Structural, Debug)]
pub struct WorldVoxelPos {
    pub x: i32,
    pub y: i32,
    pub z: i32,
}

/// Address of one chunk of voxels.
pub type WorldChunkPos = WorldVoxelPos;

/// A position, a speed or a direction, each axis in thousandths of a voxel.
#[derive(Clone, Copy, PartialEq, Eq, Structural, Debug)]
pub struct Vec3Milli {
    pub x: i64,
    pub y: i64,
    pub z: i64,
}

/// Magnitude of a signed number.
pub open spec fn magnitude(a: int) -> nat {
    if a >= 0 {
        a as nat
    } else {
        (-a) as nat
    }
}

/// `a` divided by a thousand, rounded towards zero.
pub open spec fn whole_voxels(a: int) -> int {
    if a >= 0 {
        a / 1000
    } else {
        -((-a) / 1000)
    }
}

/// Squared length of the segment from `a` to `b`.
pub open spec fn dist2(a: Vec3Milli, b: Vec3Milli) -> nat {
    ((a.x - b.x) * (a.x - b.x) + (a.y - b.y) * (a.y - b.y) + (a.z - b.z) * (a.z - b.z)) as nat
}

/// `dist2`, held at the largest 128-bit number where it would pass it.
pub open spec fn dist2_capped(a: Vec3Milli, b: Vec3Milli) -> nat {
    if dist2(a, b) > u128::MAX {
        u128::MAX as nat
    } else {
        dist2(a, b)
    }
}

/// Length of the segment from `a` to `b`, rounded down.
pub open spec fn dist(a: Vec3Milli, b: Vec3Milli) -> nat {
    sqrt_floor(dist2_capped(a, b))
}

/// The distance from `a` to `b` is strictly below `tolerance`.
pub open spec fn within(a: Vec3Milli, b: Vec3Milli, tolerance: i64) -> bool {
    tolerance > 0 && dist2(a, b) < tolerance * tolerance
}

/// Magnitude of a 64-bit number.
pub fn abs_i64(a: i64) -> (r: u64)
    ensures
        r as nat == magnitude(a as int),
{
    if a >= 0 {
        a as u64
    } else {
        ((-(a + 1)) as u64) + 1
    }
}

/// Square of the difference of two coordinates.
fn square_diff(a: i64, b: i64) -> (r: u128)
    ensures
        r as int == (a - b) * (a - b),
{
    let d: i128 = a as i128 - b as i128;
    let m: u128 = if d >= 0 {
        d as u128
    } else {
        (-d) as u128
    };
    assert(m * m <= 0xffff_ffff_ffff_ffff * 0xffff_ffff_ffff_ffff) by (nonlinear_arith)
        requires
            0 <= m <= 0xffff_ffff_ffff_ffff,
    ;
    assert(0xffff_ffff_ffff_ffffint * 0xffff_ffff_ffff_ffffint <= u128::MAX) by (nonlinear_arith);
    assert(m * m == (a - b) * (a - b)) by (nonlinear_arith)
        requires
            m == a - b || m == -(a - b),
    ;
    m * m
}

impl WorldVoxelPos {
    pub fn new(x: i32, y: i32, z: i32) -> (r: Self)
        ensures
            r == (WorldVoxelPos { x, y, z }),
    {
        WorldVoxelPos { x, y, z }
    }

    /// The voxel reached by the step `by`, where the grid has one.
    pub open spec fn offset_spec(self, by: WorldVoxelPos) -> Option<WorldVoxelPos> {
        if i32::MIN <= self.x + by.x <= i32::MAX && i32::MIN <= self.y + by.y <= i32::MAX
            && i32::MIN <= self.z + by.z <= i32::MAX {
            Some(
                WorldVoxelPos {
                    x: (self.x + by.x) as i32,
                    y: (self.y + by.y) as i32,
                    z: (self.z + by.z) as i32,
                },
            )
        } else {
            None
        }
    }

    /// The voxel reached by the step `by`; `None` past the rim of the grid.
    pub fn offset(self, by: WorldVoxelPos) -> (r: Option<WorldVoxelPos>)
        ensures
            r == self.offset_spec(by),
    {
        match (self.x.checked_add(by.x), self.y.checked_add(by.y), self.z.checked_add(by.z)) {
            (Some(x), Some(y), Some(z)) => Some(WorldVoxelPos { x, y, z }),
            _ => None,
        }
    }

    /// The corner of the voxel, as a position.
    pub open spec fn to_world_spec(self) -> Vec3Milli {
        Vec3Milli {
            x: (self.x * 1000) as i64,
            y: (self.y * 1000) as i64,
            z: (self.z * 1000) as i64,
        }
    }

    /// The corner of the voxel, as a position.
    pub fn to_world(self) -> (r: Vec3Milli)
        ensures
            r == self.to_world_spec(),
    {
        Vec3Milli {
            x: self.x as i64 * 1000,
            y: self.y as i64 * 1000,
            z: self.z as i64 * 1000,
        }
    }
}

/// Coordinate of the voxel that holds the length `a`: whole voxels towards
/// zero, held inside the grid.
pub open spec fn voxel_coord(a: i64) -> i32 {
    let w = whole_voxels(a as int);
    if w < i32::MIN {
        i32::MIN
    } else if w > i32::MAX {
        i32::MAX
    } else {
        w as i32
    }
}

/// The voxel that holds a position.
pub open spec fn voxel_pos_spec(pos: Vec3Milli) -> WorldVoxelPos {
    WorldVoxelPos { x: voxel_coord(pos.x), y: voxel_coord(pos.y), z: voxel_coord(pos.z) }
}

fn voxel_coord_of(a: i64) -> (r: i32)
    ensures
        r == voxel_coord(a),
{
    let m: u64 = abs_i64(a) / 1000;
    if a >= 0 {
        if m > 0x7fff_ffff {
            i32::MAX
        } else {
            m as i32
        }
    } else {
        if m > 0x8000_0000 {
            i32::MIN
        } else {
            (-(m as i64)) as i32
        }
    }
}

/// The voxel that holds a position.
pub fn get_voxel_pos(pos: Vec3Milli) -> (r: WorldVoxelPos)
    ensures
        r == voxel_pos_spec(pos),
{
    WorldVoxelPos { x: voxel_coord_of(pos.x), y: voxel_coord_of(pos.y), z: voxel_coord_of(pos.z) }
}

impl Vec3Milli {
    pub fn new(x: i64, y: i64, z: i64) -> (r: Self)
        ensures
            r == (Vec3Milli { x, y, z }),
    {
        Vec3Milli { x, y, z }
    }

    /// The vector without length.
    pub open spec fn zero_spec() -> Vec3Milli {
        Vec3Milli { x: 0, y: 0, z: 0 }
    }

    pub fn zero() -> (r: Self)
        ensures
            r == Self::zero_spec(),
    {
        Vec3Milli { x: 0, y: 0, z: 0 }
    }

    /// Squared distance to `other`, held at the largest 128-bit number.
    pub fn dist2(&self, other: &Vec3Milli) -> (r: u128)
        ensures
            r as nat == dist2_capped(*self, *other),
    {
        let dx: u128 = square_diff(self.x, other.x);
        let dy: u128 = square_diff(self.y, other.y);
        let dz: u128 = square_diff(self.z, other.z);
        assert((self.x - other.x) * (self.x - other.x) >= 0) by (nonlinear_arith);
        assert((self.y - other.y) * (self.y - other.y) >= 0) by (nonlinear_arith);
        assert((self.z - other.z) * (self.z - other.z) >= 0) by (nonlinear_arith);
        dx.saturating_add(dy).saturating_add(dz)
    }

    /// Distance to `other`, rounded down.
    pub fn dist(&self, other: &Vec3Milli) -> (r: u64)
        ensures
            r as nat == dist(*self, *other),
            is_sqrt_floor(dist2_capped(*self, *other), r as nat),
    {
        isqrt(self.dist2(other))
    }

    /// Whether `other` lies strictly closer than `tolerance`.
    pub fn is_within(&self, other: &Vec3Milli, tolerance: i64) -> (r: bool)
        ensures
            r == within(*self, *other, tolerance),
    {
        if tolerance <= 0 {
            false
        } else {
            let t: u128 = tolerance as u128;
            assert(t * t <= 0x7fff_ffff_ffff_ffff * 0x7fff_ffff_ffff_ffff) by (nonlinear_arith)
                requires
                    0 <= t <= 0x7fff_ffff_ffff_ffff,
            ;
            assert(0x7fff_ffff_ffff_ffffint * 0x7fff_ffff_ffff_ffffint < u128::MAX) by (nonlinear_arith);
            self.dist2(other) < t * t
        }
    }
}

/// `a` divided by the positive `b`, rounded towards zero.
pub open spec fn div_toward_zero(a: int, b: int) -> int {
    if a >= 0 {
        a / b
    } else {
        -((-a) / b)
    }
}

/// `a`, held inside the 64-bit range.
pub open spec fn clamped(a: int) -> i64 {
    if a > i64::MAX {
        i64::MAX
    } else if a < i64::MIN {
        i64::MIN
    } else {
        a as i64
    }
}

/// The product of two numbers of thousandths, in thousandths: rounded
/// towards zero and held inside the 64-bit range.
pub open spec fn scaled(a: i64, b: i64) -> i64 {
    clamped(div_toward_zero(a * b, 1000))
}

/// Squared length of the level part of the way from `from` to `to`, held at
/// the largest 128-bit number.
pub open spec fn flat_dist2_capped(from: Vec3Milli, to: Vec3Milli) -> nat {
    let d = (to.x - from.x) * (to.x - from.x) + (to.y - from.y) * (to.y - from.y);
    if d > u128::MAX {
        u128::MAX as nat
    } else {
        d as nat
    }
}

/// The level direction from `from` to `to`, as a vector a thousand long; no
/// direction at all where the two lie above one another.
pub open spec fn flat_direction(from: Vec3Milli, to: Vec3Milli) -> Vec3Milli {
    let length = sqrt_floor(flat_dist2_capped(from, to));
    if length == 0 {
        Vec3Milli { x: 0, y: 0, z: 0 }
    } else {
        Vec3Milli {
            x: clamped(div_toward_zero((to.x - from.x) * 1000, length as int)),
            y: clamped(div_toward_zero((to.y - from.y) * 1000, length as int)),
            z: 0,
        }
    }
}

/// `a` divided by the positive `b`, rounded towards zero and held inside the
/// 64-bit range.
fn clamped_div(a: i128, b: u64) -> (r: i64)
    requires
        b > 0,
        -0x7fff_ffff_ffff_ffff_ffff_ffff_ffff_ffff <= a,
    ensures
        r == clamped(div_toward_zero(a as int, b as int)),
{
    let magnitude: u128 = if a >= 0 {
        a as u128
    } else {
        (-a) as u128
    };
    let quotient: u128 = magnitude / (b as u128);
    if a >= 0 {
        if quotient > 0x7fff_ffff_ffff_ffff {
            i64::MAX
        } else {
            quotient as i64
        }
    } else {
        if quotient > 0x8000_0000_0000_0000 {
            i64::MIN
        } else {
            (-(quotient as i128)) as i64
        }
    }
}

/// The product of two numbers of thousandths, in thousandths.
pub fn scale(a: i64, b: i64) -> (r: i64)
    ensures
        r == scaled(a, b),
{
    assert(-0x8000_0000_0000_0000 * 0x8000_0000_0000_0000 <= a * b <= 0x8000_0000_0000_0000
        * 0x8000_0000_0000_0000) by (nonlinear_arith)
        requires
            -0x8000_0000_0000_0000 <= a <= 0x8000_0000_0000_0000,
            -0x8000_0000_0000_0000 <= b <= 0x8000_0000_0000_0000,
    ;
    let product: i128 = (a as i128) * (b as i128);
    clamped_div(product, 1000)
}

/// The level direction from `from` to `to`, as a vector a thousand long.
pub fn flat_direction_to(from: &Vec3Milli, to: &Vec3Milli) -> (r: Vec3Milli)
    ensures
        r == flat_direction(*from, *to),
{
    let dx2: u128 = square_diff(to.x, from.x);
    let dy2: u128 = square_diff(to.y, from.y);
    assert((to.x - from.x) * (to.x - from.x) >= 0) by (nonlinear_arith);
    assert((to.y - from.y) * (to.y - from.y) >= 0) by (nonlinear_arith);
    let length: u64 = isqrt(dx2.saturating_add(dy2));
    if length == 0 {
        Vec3Milli { x: 0, y: 0, z: 0 }
    } else {
        let dx: i128 = to.x as i128 - from.x as i128;
        let dy: i128 = to.y as i128 - from.y as i128;
        Vec3Milli { x: clamped_div(dx * 1000, length), y: clamped_div(dy * 1000, length), z: 0 }
    }
}

} // verus!
