//! The point light and the diffuse term it gives a surface.

use vstd::prelude::*;
use crate::fixed::{clamped, div_floor, floor_div, isqrt, is_root, root, saturate, saturated};
use crate::vector::{Vec3, Wide3};

verus! {

/// A point light: where it is and how strong.
#[derive(Clone, Copy, Debug, PartialEq, Eq, Structural)]
pub struct Light {
    pub position: Vec3,
    pub intensity: i32,
}

impl Light {
    pub fn new(position: Vec3, intensity: i32) -> (light: Light)
        ensures
            light == (Light { position, intensity }),
    {
        Light { position, intensity }
    }

    /// The vector from `position` to the light.
    pub open spec fn toward(self, position: Vec3) -> Wide3 {
        Wide3 {
            x: self.position.x - position.x,
            y: self.position.y - position.y,
            z: self.position.z - position.z,
        }
    }

    /// The cosine of the angle between `normal` and the direction to the
    /// light, held between zero and one: the inner product of the two
    /// vectors over the product of their lengths. Zero where either vector
    /// has no length or the surface faces away.
    pub open spec fn cosine(self, normal: Vec3, position: Vec3) -> int {
        let l = self.toward(position);
        let n = normal.wide();
        if n.dot(l) <= 0 || l.dot(l) == 0 || n.dot(n) == 0 {
            0
        } else {
            clamped(floor_div(n.dot(l) * 65536, root(n.dot(n)) * root(l.dot(l))), 0, 65536)
        }
    }

    /// The strength of the light at `position`: its intensity over the
    /// square of the distance. Zero at the light itself.
    pub open spec fn attenuation(self, position: Vec3) -> int {
        let l = self.toward(position);
        if l.dot(l) == 0 {
            0
        } else {
            floor_div(self.intensity * 0x1_0000_0000, l.dot(l))
        }
    }

    /// The diffuse term at a surface point: the cosine times the
    /// attenuation, moved to the nearest value that can be stored.
    pub open spec fn diffuse(self, normal: Vec3, position: Vec3) -> int {
        saturated(
            floor_div(self.cosine(normal, position) * self.attenuation(position), 65536),
        )
    }

    /// The diffuse term `max(0, cos) * intensity / distance^2` for a surface
    /// at `position` with the given normal.
    pub fn intensity_at(&self, normal: &Vec3, position: &Vec3) -> (value: i32)
        ensures
            value == self.diffuse(*normal, *position),
    {
        let lx: i64 = self.position.x as i64 - position.x as i64;
        let ly: i64 = self.position.y as i64 - position.y as i64;
        let lz: i64 = self.position.z as i64 - position.z as i64;
        let ghost l = self.toward(*position);
        let ghost n = normal.wide();
        let ll: i128 = square(lx) + square(ly) + square(lz);
        let nn: i128 = square(normal.x as i64) + square(normal.y as i64) + square(
            normal.z as i64,
        );
        let nl: i128 = mixed_product(normal.x, lx) + mixed_product(normal.y, ly) + mixed_product(
            normal.z,
            lz,
        );
        assert(ll == l.dot(l));
        assert(nn == n.dot(n));
        assert(nl == n.dot(l));
        if ll == 0 {
            return 0;
        }
        let attenuation: i128 = div_floor((self.intensity as i128) * 0x1_0000_0000, ll);
        assert(attenuation == self.attenuation(*position));
        proof {
            crate::fixed::lemma_floor_div_bound(
                self.intensity * 0x1_0000_0000,
                ll as int,
                0x8000_0000_0000_0000,
            );
        }
        if nl <= 0 || nn == 0 {
            return 0;
        }
        let length_n: u64 = isqrt(nn as u128);
        let length_l: u64 = isqrt(ll as u128);
        assert(length_n >= 1 && length_n <= 0x2_0000_0000) by (nonlinear_arith)
            requires
                is_root(length_n as int, nn as int),
                1 <= nn <= 0x3_0000_0000_0000_0000,
        ;
        assert(length_l >= 1 && length_l <= 0x2_0000_0000) by (nonlinear_arith)
            requires
                is_root(length_l as int, ll as int),
                1 <= ll <= 0x3_0000_0000_0000_0000,
        ;
        proof {
            crate::fixed::lemma_product_bound(
                length_n as int,
                length_l as int,
                0x2_0000_0000,
                0x2_0000_0000,
            );
            assert(length_n * length_l >= 1) by (nonlinear_arith)
                requires
                    length_n >= 1,
                    length_l >= 1,
            ;
        }
        let lengths: i128 = (length_n as i128) * (length_l as i128);
        let ratio: i128 = div_floor(nl * 65536, lengths);
        let cosine: i128 = if ratio < 0 {
            0
        } else if ratio > 65536 {
            65536
        } else {
            ratio
        };
        assert(cosine == self.cosine(*normal, *position));
        proof {
            crate::fixed::lemma_product_bound(
                cosine as int,
                attenuation as int,
                65536,
                0x8000_0000_0000_0001,
            );
        }
        saturate(div_floor(cosine * attenuation, 65536))
    }
}

fn square(v: i64) -> (s: i128)
    requires
        -0x1_0000_0000 <= v <= 0x1_0000_0000,
    ensures
        s == v * v,
        0 <= s <= 0x1_0000_0000_0000_0000,
{
    proof {
        crate::fixed::lemma_product_bound(v as int, v as int, 0x1_0000_0000, 0x1_0000_0000);
        assert(v * v >= 0) by (nonlinear_arith);
    }
    (v as i128) * (v as i128)
}

fn mixed_product(a: i32, b: i64) -> (p: i128)
    requires
        -0x1_0000_0000 <= b <= 0x1_0000_0000,
    ensures
        p == a * b,
        -0x8000_0000_0000_0000 <= p <= 0x8000_0000_0000_0000,
{
    proof {
        crate::fixed::lemma_product_bound(a as int, b as int, 0x8000_0000, 0x1_0000_0000);
    }
    (a as i128) * (b as i128)
}

} // verus!
