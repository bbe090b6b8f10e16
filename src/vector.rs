use vstd::prelude::*;

verus! {

/// A two-component vector.
#[derive(Clone, Copy, Debug, Default, PartialEq, Eq)]
pub struct Vector2<T> {
    pub x: T,
    pub y: T,
}

impl<T> Vector2<T> {
    pub fn new(x: T, y: T) -> (r: Vector2<T>)
        ensures
            r.x == x,
            r.y == y,
    {
        Vector2 { x, y }
    }
}

/// A three-component vector.
#[derive(Clone, Copy, Debug, Default, PartialEq, Eq)]
pub struct Vector3<T> {
    pub x: T,
    pub y: T,
    pub z: T,
}

impl<T> Vector3<T> {
    pub fn new(x: T, y: T, z: T) -> (r: Vector3<T>)
        ensures
            r.x == x,
            r.y == y,
            r.z == z,
    {
        Vector3 { x, y, z }
    }
}

/// Components of the cross product `a × b`, as mathematical integers.
pub open spec fn cross_x(a: Vector3<i32>, b: Vector3<i32>) -> int {
    a.y * b.z - a.z * b.y
}

pub open spec fn cross_y(a: Vector3<i32>, b: Vector3<i32>) -> int {
    a.z * b.x - a.x * b.z
}

pub open spec fn cross_z(a: Vector3<i32>, b: Vector3<i32>) -> int {
    a.x * b.y - a.y * b.x
}

/// The dot product `a · b`, as a mathematical integer.
pub open spec fn dot(a: Vector3<i32>, b: Vector3<i32>) -> int {
    a.x * b.x + a.y * b.y + a.z * b.z
}

pub open spec fn fits_i32(v: int) -> bool {
    i32::MIN <= v <= i32::MAX
}

/// The product of two `i32` values stays within `2^62` in magnitude.
pub(crate) proof fn lemma_product_bound(a: int, b: int)
    requires
        fits_i32(a),
        fits_i32(b),
    ensures
        -0x4000_0000_0000_0000 <= a * b <= 0x4000_0000_0000_0000,
{
    assert(-0x4000_0000_0000_0000 <= a * b <= 0x4000_0000_0000_0000) by (nonlinear_arith)
        requires
            -0x8000_0000 <= a <= 0x7fff_ffff,
            -0x8000_0000 <= b <= 0x7fff_ffff,
    ;
}

impl Vector3<i32> {
    /// The unit vector along the vertical axis.
    pub fn up() -> (r: Vector3<i32>)
        ensures
            r.x == 0,
            r.y == 1,
            r.z == 0,
    {
        Vector3::new(0, 1, 0)
    }

    /// The cross product `lhs × rhs`; each component must fit in an `i32`.
    pub fn cross(lhs: Vector3<i32>, rhs: Vector3<i32>) -> (r: Vector3<i32>)
        requires
            fits_i32(cross_x(lhs, rhs)),
            fits_i32(cross_y(lhs, rhs)),
            fits_i32(cross_z(lhs, rhs)),
        ensures
            r.x == cross_x(lhs, rhs),
            r.y == cross_y(lhs, rhs),
            r.z == cross_z(lhs, rhs),
    {
        let (ax, ay, az) = (lhs.x as i64, lhs.y as i64, lhs.z as i64);
        let (bx, by, bz) = (rhs.x as i64, rhs.y as i64, rhs.z as i64);
        proof {
            lemma_product_bound(ay as int, bz as int);
            lemma_product_bound(az as int, by as int);
            lemma_product_bound(az as int, bx as int);
            lemma_product_bound(ax as int, bz as int);
            lemma_product_bound(ax as int, by as int);
            lemma_product_bound(ay as int, bx as int);
        }
        let x = ay * bz - az * by;
        let y = az * bx - ax * bz;
        let z = ax * by - ay * bx;
        Vector3::new(x as i32, y as i32, z as i32)
    }

    /// The dot product `self · rhs`, which must fit in an `i32`.
    pub fn dot(&self, rhs: Vector3<i32>) -> (r: i32)
        requires
            fits_i32(dot(*self, rhs)),
        ensures
            r == dot(*self, rhs),
    {
        let (ax, ay, az) = (self.x as i128, self.y as i128, self.z as i128);
        let (bx, by, bz) = (rhs.x as i128, rhs.y as i128, rhs.z as i128);
        proof {
            lemma_product_bound(ax as int, bx as int);
            lemma_product_bound(ay as int, by as int);
            lemma_product_bound(az as int, bz as int);
        }
        let s = ax * bx + ay * by + az * bz;
        s as i32
    }
}

/// A four-component vector in homogeneous coordinates.
#[derive(Clone, Copy, Debug, Default, PartialEq, Eq)]
pub struct Vector4<T> {
    pub x: T,
    pub y: T,
    pub z: T,
    pub w: T,
}

impl Vector4<i32> {
    /// A point: `w` is one, so translations move it.
    pub fn position(x: i32, y: i32, z: i32) -> (r: Vector4<i32>)
        ensures
            r.x == x,
            r.y == y,
            r.z == z,
            r.w == 1,
    {
        Vector4 { x, y, z, w: 1 }
    }

    /// A direction: `w` is zero, so translations leave it unchanged.
    pub fn direction(x: i32, y: i32, z: i32) -> (r: Vector4<i32>)
        ensures
            r.x == x,
            r.y == y,
            r.z == z,
            r.w == 0,
    {
        Vector4 { x, y, z, w: 0 }
    }
}

} // verus!
