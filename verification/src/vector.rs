//! 2D and 3D vector value types over fixed-point scalars.
//!
//! A `Vector3` doubles as an RGB color, with each channel in
//! `0 ..= SCALE` fixed-point units (the unit interval); the `r`, `g`, `b`
//! accessors are aliases for the components under that reading.

use vstd::prelude::*;
use crate::fixed::{SCALE, fx_mul, fx_mul_spec};

verus! {

/// A 3D position or displacement in object, world, or screen space, or an
/// RGB color; components are fixed-point scalars.
#[derive(Clone, Copy, Debug, PartialEq, Eq, Structural)]
pub struct Vector3 {
    pub x: i64,
    pub y: i64,
    pub z: i64,
}

/// A 2D position or displacement, most often in screen space; components are
/// fixed-point scalars.
#[derive(Clone, Copy, Debug, PartialEq, Eq, Structural)]
pub struct Vector2 {
    pub x: i64,
    pub y: i64,
}

/// All three components within `-m ..= m`.
pub open spec fn in_range3(v: Vector3, m: int) -> bool {
    &&& -m <= v.x <= m
    &&& -m <= v.y <= m
    &&& -m <= v.z <= m
}

impl Vector3 {
    /// The screen-space point: the vector with its depth component dropped.
    pub open spec fn xy(&self) -> Vector2 {
        Vector2 { x: self.x, y: self.y }
    }


    /// Creates a new 3D vector.
    pub fn new(x: i64, y: i64, z: i64) -> (r: Vector3)
        ensures
            r == (Vector3 { x, y, z }),
    {
        Vector3 { x, y, z }
    }

    /// Creates a zero vector.
    pub fn zeros() -> (r: Vector3)
        ensures
            r == (Vector3 { x: 0i64, y: 0i64, z: 0i64 }),
    {
        Vector3 { x: 0, y: 0, z: 0 }
    }

    /// Alias for the x-component. Useful for working with colors.
    pub fn r(&self) -> (c: i64)
        ensures
            c == self.x,
    {
        self.x
    }

    /// Alias for the y-component. Useful for working with colors.
    pub fn g(&self) -> (c: i64)
        ensures
            c == self.y,
    {
        self.y
    }

    /// Alias for the z-component. Useful for working with colors.
    pub fn b(&self) -> (c: i64)
        ensures
            c == self.z,
    {
        self.z
    }

    /// Componentwise sum.
    pub fn add(&self, other: &Vector3) -> (r: Vector3)
        requires
            i64::MIN <= self.x + other.x <= i64::MAX,
            i64::MIN <= self.y + other.y <= i64::MAX,
            i64::MIN <= self.z + other.z <= i64::MAX,
        ensures
            r.x == self.x + other.x,
            r.y == self.y + other.y,
            r.z == self.z + other.z,
    {
        Vector3 { x: self.x + other.x, y: self.y + other.y, z: self.z + other.z }
    }

    /// Fixed-point scalar multiple: each component is scaled by `s / SCALE`.
    pub fn scale(&self, s: i64) -> (r: Vector3)
        requires
            i64::MIN <= fx_mul_spec(self.x as int, s as int) <= i64::MAX,
            i64::MIN <= fx_mul_spec(self.y as int, s as int) <= i64::MAX,
            i64::MIN <= fx_mul_spec(self.z as int, s as int) <= i64::MAX,
        ensures
            r.x == fx_mul_spec(self.x as int, s as int),
            r.y == fx_mul_spec(self.y as int, s as int),
            r.z == fx_mul_spec(self.z as int, s as int),
    {
        Vector3 { x: fx_mul(self.x, s), y: fx_mul(self.y, s), z: fx_mul(self.z, s) }
    }
}

impl Vector2 {
    /// Creates a new 2D vector.
    pub fn new(x: i64, y: i64) -> (r: Vector2)
        ensures
            r == (Vector2 { x, y }),
    {
        Vector2 { x, y }
    }

    /// Creates a zero vector.
    pub fn zeros() -> (r: Vector2)
        ensures
            r == (Vector2 { x: 0i64, y: 0i64 }),
    {
        Vector2 { x: 0, y: 0 }
    }

    /// Componentwise sum.
    pub fn add(&self, other: &Vector2) -> (r: Vector2)
        requires
            i64::MIN <= self.x + other.x <= i64::MAX,
            i64::MIN <= self.y + other.y <= i64::MAX,
        ensures
            r.x == self.x + other.x,
            r.y == self.y + other.y,
    {
        Vector2 { x: self.x + other.x, y: self.y + other.y }
    }

    /// Componentwise difference.
    pub fn sub(&self, other: &Vector2) -> (r: Vector2)
        requires
            i64::MIN <= self.x - other.x <= i64::MAX,
            i64::MIN <= self.y - other.y <= i64::MAX,
        ensures
            r.x == self.x - other.x,
            r.y == self.y - other.y,
    {
        Vector2 { x: self.x - other.x, y: self.y - other.y }
    }

    /// Fixed-point scalar multiple: each component is scaled by `s / SCALE`.
    pub fn scale(&self, s: i64) -> (r: Vector2)
        requires
            i64::MIN <= fx_mul_spec(self.x as int, s as int) <= i64::MAX,
            i64::MIN <= fx_mul_spec(self.y as int, s as int) <= i64::MAX,
        ensures
            r.x == fx_mul_spec(self.x as int, s as int),
            r.y == fx_mul_spec(self.y as int, s as int),
    {
        Vector2 { x: fx_mul(self.x, s), y: fx_mul(self.y, s) }
    }

    /// Dot product, taken in wide arithmetic so that it is exact for every
    /// pair of vectors. The result carries the product of the two operands'
    /// fixed-point scales.
    pub fn dot(&self, other: &Vector2) -> (r: i128)
        requires
            i128::MIN <= self.x as int * other.x as int + self.y as int * other.y as int
                <= i128::MAX,
        ensures
            r == self.x as int * other.x as int + self.y as int * other.y as int,
    {
        proof {
            assert(
                -0x4000_0000_0000_0000_0000_0000_0000_0000
                    <= self.x as int * other.x as int
                    <= 0x4000_0000_0000_0000_0000_0000_0000_0000
            ) by (nonlinear_arith)
                requires
                    i64::MIN <= self.x <= i64::MAX,
                    i64::MIN <= other.x <= i64::MAX,
            ;
            assert(
                -0x4000_0000_0000_0000_0000_0000_0000_0000
                    <= self.y as int * other.y as int
                    <= 0x4000_0000_0000_0000_0000_0000_0000_0000
            ) by (nonlinear_arith)
                requires
                    i64::MIN <= self.y <= i64::MAX,
                    i64::MIN <= other.y <= i64::MAX,
            ;
        }
        (self.x as i128) * (other.x as i128) + (self.y as i128) * (other.y as i128)
    }

    /// The vector rotated by 90 degrees clockwise.
    pub fn perpendicular(&self) -> (r: Vector2)
        requires
            self.x > i64::MIN,
        ensures
            r.x == self.y,
            r.y == -self.x,
    {
        Vector2 { x: self.y, y: -self.x }
    }
}

} // verus!
