//! Fixed-point vectors and matrices.

use vstd::prelude::*;
use crate::fixed::{div_floor, fits, floor_div, lemma_product_bound, saturate, saturated};

verus! {

#[derive(Clone, Copy, Debug, PartialEq, Eq, Structural)]
pub struct Vec2 {
    pub x: i32,
    pub y: i32,
}

#[derive(Clone, Copy, Debug, PartialEq, Eq, Structural)]
pub struct Vec3 {
    pub x: i32,
    pub y: i32,
    pub z: i32,
}

#[derive(Clone, Copy, Debug, PartialEq, Eq, Structural)]
pub struct Vec4 {
    pub x: i32,
    pub y: i32,
    pub z: i32,
    pub w: i32,
}

/// A 4x4 matrix, held as its four rows.
#[derive(Clone, Copy, Debug, PartialEq, Eq, Structural)]
pub struct Mat4 {
    pub r0: Vec4,
    pub r1: Vec4,
    pub r2: Vec4,
    pub r3: Vec4,
}

/// A vector of unbounded integers, for stating intermediate results.
pub ghost struct Wide3 {
    pub x: int,
    pub y: int,
    pub z: int,
}

/// The product of two stored values.
pub fn product(a: i32, b: i32) -> (p: i128)
    ensures
        p == a * b,
        -0x4000_0000_0000_0000 <= p <= 0x4000_0000_0000_0000,
{
    proof {
        lemma_product_bound(a as int, b as int, 0x8000_0000, 0x8000_0000);
    }
    (a as i128) * (b as i128)
}

/// The product of a wide value and a stored one.
pub(crate) fn wide_product(a: i128, b: i32) -> (p: i128)
    requires
        -0x1_0000_0000_0000_0000 <= a <= 0x1_0000_0000_0000_0000,
    ensures
        p == a * b,
        -0x8000_0000_0000_0000_0000_0000 <= p <= 0x8000_0000_0000_0000_0000_0000,
{
    proof {
        lemma_product_bound(a as int, b as int, 0x1_0000_0000_0000_0000, 0x8000_0000);
    }
    a * (b as i128)
}

impl Vec2 {
    pub fn new(x: i32, y: i32) -> (v: Vec2)
        ensures
            v == (Vec2 { x, y }),
    {
        Vec2 { x, y }
    }
}

impl Vec3 {
    pub fn new(x: i32, y: i32, z: i32) -> (v: Vec3)
        ensures
            v == (Vec3 { x, y, z }),
    {
        Vec3 { x, y, z }
    }

    /// This vector as a vector of unbounded integers.
    pub open spec fn wide(self) -> Wide3 {
        Wide3 { x: self.x as int, y: self.y as int, z: self.z as int }
    }

    /// The point `self` in homogeneous coordinates: its fourth coordinate is
    /// one.
    pub open spec fn as_point(self) -> Vec4 {
        Vec4 { x: self.x, y: self.y, z: self.z, w: 65536 }
    }
}

impl Wide3 {
    pub open spec fn dot(self, other: Wide3) -> int {
        self.x * other.x + self.y * other.y + self.z * other.z
    }

    pub open spec fn cross(self, other: Wide3) -> Wide3 {
        Wide3 {
            x: self.y * other.z - self.z * other.y,
            y: self.z * other.x - self.x * other.z,
            z: self.x * other.y - self.y * other.x,
        }
    }
}

impl Vec4 {
    pub fn new(x: i32, y: i32, z: i32, w: i32) -> (v: Vec4)
        ensures
            v == (Vec4 { x, y, z, w }),
    {
        Vec4 { x, y, z, w }
    }

    /// The first three coordinates.
    pub open spec fn xyz(self) -> Vec3 {
        Vec3 { x: self.x, y: self.y, z: self.z }
    }

    /// The inner product, as an unbounded integer: it carries the scale
    /// twice.
    pub open spec fn dot(self, other: Vec4) -> int {
        self.x * other.x + self.y * other.y + self.z * other.z + self.w * other.w
    }

    fn inner(&self, other: &Vec4) -> (d: i128)
        ensures
            d == self.dot(*other),
            -0x1_0000_0000_0000_0000 <= d <= 0x1_0000_0000_0000_0000,
    {
        product(self.x, other.x) + product(self.y, other.y) + product(self.z, other.z) + product(
            self.w,
            other.w,
        )
    }
}

fn cross_wide(u: &Vec3, v: &Vec3) -> (c: (i128, i128, i128))
    ensures
        (Wide3 { x: c.0 as int, y: c.1 as int, z: c.2 as int }) == u.wide().cross(v.wide()),
        -0x8000_0000_0000_0000 <= c.0 <= 0x8000_0000_0000_0000,
        -0x8000_0000_0000_0000 <= c.1 <= 0x8000_0000_0000_0000,
        -0x8000_0000_0000_0000 <= c.2 <= 0x8000_0000_0000_0000,
{
    (
        product(u.y, v.z) - product(u.z, v.y),
        product(u.z, v.x) - product(u.x, v.z),
        product(u.x, v.y) - product(u.y, v.x),
    )
}

fn dot_wide(c: (i128, i128, i128), v: &Vec3) -> (d: i128)
    requires
        -0x8000_0000_0000_0000 <= c.0 <= 0x8000_0000_0000_0000,
        -0x8000_0000_0000_0000 <= c.1 <= 0x8000_0000_0000_0000,
        -0x8000_0000_0000_0000 <= c.2 <= 0x8000_0000_0000_0000,
    ensures
        d == (Wide3 { x: c.0 as int, y: c.1 as int, z: c.2 as int }).dot(v.wide()),
        -0x2_0000_0000_0000_0000_0000_0000 <= d <= 0x2_0000_0000_0000_0000_0000_0000,
{
    wide_product(c.0, v.x) + wide_product(c.1, v.y) + wide_product(c.2, v.z)
}

impl Mat4 {
    pub fn new(r0: Vec4, r1: Vec4, r2: Vec4, r3: Vec4) -> (m: Mat4)
        ensures
            m == (Mat4 { r0, r1, r2, r3 }),
    {
        Mat4 { r0, r1, r2, r3 }
    }

    pub open spec fn unit() -> Mat4 {
        Mat4 {
            r0: Vec4 { x: 65536, y: 0, z: 0, w: 0 },
            r1: Vec4 { x: 0, y: 65536, z: 0, w: 0 },
            r2: Vec4 { x: 0, y: 0, z: 65536, w: 0 },
            r3: Vec4 { x: 0, y: 0, z: 0, w: 65536 },
        }
    }

    /// The matrix that maps every vector to itself.
    pub fn identity() -> (m: Mat4)
        ensures
            m == Mat4::unit(),
    {
        Mat4 {
            r0: Vec4 { x: 65536, y: 0, z: 0, w: 0 },
            r1: Vec4 { x: 0, y: 65536, z: 0, w: 0 },
            r2: Vec4 { x: 0, y: 0, z: 65536, w: 0 },
            r3: Vec4 { x: 0, y: 0, z: 0, w: 65536 },
        }
    }

    /// The product of this matrix with the column `v`, each coordinate
    /// rounded down; `None` when a coordinate cannot be stored.
    pub open spec fn image(self, v: Vec4) -> Option<Vec4> {
        let x = floor_div(self.r0.dot(v), 65536);
        let y = floor_div(self.r1.dot(v), 65536);
        let z = floor_div(self.r2.dot(v), 65536);
        let w = floor_div(self.r3.dot(v), 65536);
        if fits(x) && fits(y) && fits(z) && fits(w) {
            Some(Vec4 { x: x as i32, y: y as i32, z: z as i32, w: w as i32 })
        } else {
            None
        }
    }

    /// Multiplies the column `v` by this matrix.
    pub fn transform(&self, v: &Vec4) -> (r: Option<Vec4>)
        ensures
            r == self.image(*v),
    {
        let x: i128 = div_floor(self.r0.inner(v), 65536);
        let y: i128 = div_floor(self.r1.inner(v), 65536);
        let z: i128 = div_floor(self.r2.inner(v), 65536);
        let w: i128 = div_floor(self.r3.inner(v), 65536);
        if in_range(x) && in_range(y) && in_range(z) && in_range(w) {
            Some(Vec4 { x: x as i32, y: y as i32, z: z as i32, w: w as i32 })
        } else {
            None
        }
    }

    /// The determinant of the upper-left 3x3 block, as an unbounded integer:
    /// it carries the scale three times.
    pub open spec fn det3(self) -> int {
        self.r0.xyz().wide().dot(self.r1.xyz().wide().cross(self.r2.xyz().wide()))
    }

    /// Row `i` of the cofactor matrix of the upper-left 3x3 block.
    pub open spec fn cofactor_row(self, i: int) -> Wide3 {
        let a = self.r0.xyz().wide();
        let b = self.r1.xyz().wide();
        let c = self.r2.xyz().wide();
        if i == 0 {
            b.cross(c)
        } else if i == 1 {
            c.cross(a)
        } else {
            a.cross(b)
        }
    }

    /// The normal `n` multiplied by the inverse transpose of the upper-left
    /// 3x3 block, which is the cofactor matrix over the determinant; each
    /// coordinate is rounded down and moved to the nearest value that can be
    /// stored. Where the block has no inverse the normal is left as it is.
    pub open spec fn normal_image(self, n: Vec3) -> Vec3 {
        if self.det3() == 0 {
            n
        } else {
            Vec3 {
                x: saturated(
                    floor_div(65536 * self.cofactor_row(0).dot(n.wide()), self.det3()),
                ) as i32,
                y: saturated(
                    floor_div(65536 * self.cofactor_row(1).dot(n.wide()), self.det3()),
                ) as i32,
                z: saturated(
                    floor_div(65536 * self.cofactor_row(2).dot(n.wide()), self.det3()),
                ) as i32,
            }
        }
    }

    /// Transforms a normal by the inverse transpose of the upper-left 3x3
    /// block. A block without an inverse leaves the normal unchanged.
    pub fn transform_normal(&self, n: &Vec3) -> (r: Vec3)
        ensures
            r == self.normal_image(*n),
    {
        let a: Vec3 = Vec3 { x: self.r0.x, y: self.r0.y, z: self.r0.z };
        let b: Vec3 = Vec3 { x: self.r1.x, y: self.r1.y, z: self.r1.z };
        let c: Vec3 = Vec3 { x: self.r2.x, y: self.r2.y, z: self.r2.z };
        let row0 = cross_wide(&b, &c);
        let row1 = cross_wide(&c, &a);
        let row2 = cross_wide(&a, &b);
        let det: i128 = dot_wide(row0, &a);
        proof {
            assert(det == self.det3()) by (nonlinear_arith)
                requires
                    det == row0.0 * a.x + row0.1 * a.y + row0.2 * a.z,
                    self.det3() == a.x * row0.0 + a.y * row0.1 + a.z * row0.2,
            ;
        }
        if det == 0 {
            *n
        } else {
            Vec3 {
                x: saturate(div_floor(65536 * dot_wide(row0, n), det)),
                y: saturate(div_floor(65536 * dot_wide(row1, n), det)),
                z: saturate(div_floor(65536 * dot_wide(row2, n), det)),
            }
        }
    }
}

/// Whether a wide value can be stored.
pub fn in_range(v: i128) -> (b: bool)
    ensures
        b == fits(v as int),
{
    -0x8000_0000 <= v && v <= 0x7fff_ffff
}

} // verus!
