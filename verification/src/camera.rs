//! The camera: an eye that looks at a centre.

use vstd::prelude::*;
use crate::fixed::{
    clamped, fits, is_root, isqrt, lemma_floor_div_bound, lemma_product_bound, lemma_root_exists,
    root,
};
use crate::vector::{in_range, Vec3, Wide3};

verus! {

/// The distance from the centre beyond which the eye is kept: zooming never
/// brings it to this distance or nearer.
pub const MIN_DISTANCE: i32 = 65536;

/// Eye position, look-at centre and up vector, for building a view matrix
/// by the look-at convention.
#[derive(Clone, Copy, Debug, PartialEq, Eq, Structural)]
pub struct Camera {
    pub eye: Vec3,
    pub center: Vec3,
    pub up: Vec3,
}

/// The steepest pitch, up or down, that an orbit may reach: a tenth of a
/// radian short of the pole, where the up vector would lie along the view.
pub const PITCH_LIMIT: i32 = 96390;

/// The pitch after an orbit step: the present pitch and the step added, held
/// within the pitch limit.
pub open spec fn pitch_after(pitch: int, delta: int) -> int {
    clamped(pitch + delta, -PITCH_LIMIT, PITCH_LIMIT as int)
}

/// The pitch, in radians, that an orbit step of `delta` leads to from
/// `pitch`. It never passes the pitch limit.
pub fn orbit_pitch(pitch: i32, delta: i32) -> (next: i32)
    ensures
        next == pitch_after(pitch as int, delta as int),
        -PITCH_LIMIT <= next <= PITCH_LIMIT,
{
    let wanted: i64 = pitch as i64 + delta as i64;
    if wanted < -(PITCH_LIMIT as i64) {
        -PITCH_LIMIT
    } else if wanted > PITCH_LIMIT as i64 {
        PITCH_LIMIT
    } else {
        wanted as i32
    }
}

/// The quotient of `n` by a positive `d`, rounded away from zero.
pub open spec fn away(n: int, d: int) -> int {
    if n >= 0 {
        (n + d - 1) / d
    } else {
        -((-n + d - 1) / d)
    }
}

impl Camera {
    pub fn new(eye: Vec3, center: Vec3, up: Vec3) -> (camera: Camera)
        ensures
            camera == (Camera { eye, center, up }),
    {
        Camera { eye, center, up }
    }

    /// The vector from the centre to the eye.
    pub open spec fn offset(self) -> Wide3 {
        Wide3 {
            x: self.eye.x - self.center.x,
            y: self.eye.y - self.center.y,
            z: self.eye.z - self.center.z,
        }
    }

    /// The square of the distance from the centre to the eye.
    pub open spec fn distance_squared(self) -> int {
        self.offset().dot(self.offset())
    }

    /// The distance from the centre to the eye, rounded down.
    pub open spec fn distance(self) -> int {
        root(self.distance_squared())
    }

    /// Whether the eye is strictly farther from the centre than the minimum
    /// distance.
    pub open spec fn beyond_minimum(self) -> bool {
        self.distance_squared() > MIN_DISTANCE * MIN_DISTANCE
    }

    /// Eye and centre both moved by `delta`, if both can be stored there.
    pub open spec fn panned(self, delta: Vec3) -> Option<Camera> {
        let eye = Wide3 {
            x: self.eye.x + delta.x,
            y: self.eye.y + delta.y,
            z: self.eye.z + delta.z,
        };
        let center = Wide3 {
            x: self.center.x + delta.x,
            y: self.center.y + delta.y,
            z: self.center.z + delta.z,
        };
        if fits(eye.x) && fits(eye.y) && fits(eye.z) && fits(center.x) && fits(center.y) && fits(
            center.z,
        ) {
            Some(
                Camera {
                    eye: Vec3 { x: eye.x as i32, y: eye.y as i32, z: eye.z as i32 },
                    center: Vec3 { x: center.x as i32, y: center.y as i32, z: center.z as i32 },
                    up: self.up,
                },
            )
        } else {
            None
        }
    }

    /// The distance that a zoom by `delta` aims at: the present distance
    /// less `delta`, but strictly more than the minimum distance.
    pub open spec fn zoom_target(self, delta: int) -> int {
        if self.distance() - delta > MIN_DISTANCE {
            self.distance() - delta
        } else {
            MIN_DISTANCE + 1
        }
    }

    /// Where a zoom by `delta` puts the eye: on the line from the centre
    /// through the eye, at the target distance, each coordinate rounded away
    /// from the centre.
    pub open spec fn zoomed_eye(self, delta: int) -> Wide3 {
        Wide3 {
            x: self.center.x + away(self.offset().x * self.zoom_target(delta), self.distance()),
            y: self.center.y + away(self.offset().y * self.zoom_target(delta), self.distance()),
            z: self.center.z + away(self.offset().z * self.zoom_target(delta), self.distance()),
        }
    }

    /// The camera after a zoom by `delta`; `None` when the eye sits on the
    /// centre, so that there is no line to move along, or when the new eye
    /// cannot be stored.
    pub open spec fn zoomed(self, delta: int) -> Option<Camera> {
        let eye = self.zoomed_eye(delta);
        if self.distance_squared() != 0 && fits(eye.x) && fits(eye.y) && fits(eye.z) {
            Some(
                Camera {
                    eye: Vec3 { x: eye.x as i32, y: eye.y as i32, z: eye.z as i32 },
                    center: self.center,
                    up: self.up,
                },
            )
        } else {
            None
        }
    }

    /// Pans: moves eye and centre by the same offset, so that the view
    /// direction and distance stay. Where an end of the move cannot be
    /// stored the camera stays as it is. Returns whether it moved.
    pub fn move_center(&mut self, delta: Vec3) -> (moved: bool)
        ensures
            moved == old(self).panned(delta) is Some,
            *final(self) == match old(self).panned(delta) {
                Some(camera) => camera,
                None => *old(self),
            },
            moved ==> final(self).offset() == old(self).offset(),
    {
        let ex: i128 = self.eye.x as i128 + delta.x as i128;
        let ey: i128 = self.eye.y as i128 + delta.y as i128;
        let ez: i128 = self.eye.z as i128 + delta.z as i128;
        let cx: i128 = self.center.x as i128 + delta.x as i128;
        let cy: i128 = self.center.y as i128 + delta.y as i128;
        let cz: i128 = self.center.z as i128 + delta.z as i128;
        if in_range(ex) && in_range(ey) && in_range(ez) && in_range(cx) && in_range(cy)
            && in_range(cz) {
            self.eye = Vec3 { x: ex as i32, y: ey as i32, z: ez as i32 };
            self.center = Vec3 { x: cx as i32, y: cy as i32, z: cz as i32 };
            true
        } else {
            false
        }
    }

    /// Zooms: moves the eye along the line to the centre, toward it for a
    /// positive `delta`, and never to the minimum distance or nearer. Where
    /// the eye sits on the centre, or the new eye cannot be stored, the
    /// camera stays as it is. Returns whether it moved.
    pub fn zoom(&mut self, delta: i32) -> (moved: bool)
        ensures
            moved == old(self).zoomed(delta as int) is Some,
            *final(self) == match old(self).zoomed(delta as int) {
                Some(camera) => camera,
                None => *old(self),
            },
            moved ==> final(self).beyond_minimum(),
    {
        let vx: i128 = self.eye.x as i128 - self.center.x as i128;
        let vy: i128 = self.eye.y as i128 - self.center.y as i128;
        let vz: i128 = self.eye.z as i128 - self.center.z as i128;
        proof {
            lemma_product_bound(vx as int, vx as int, 0x1_0000_0000, 0x1_0000_0000);
            lemma_product_bound(vy as int, vy as int, 0x1_0000_0000, 0x1_0000_0000);
            lemma_product_bound(vz as int, vz as int, 0x1_0000_0000, 0x1_0000_0000);
            assert(vx * vx >= 0 && vy * vy >= 0 && vz * vz >= 0) by (nonlinear_arith);
        }
        let squared: i128 = vx * vx + vy * vy + vz * vz;
        if squared == 0 {
            return false;
        }
        let distance: i128 = isqrt(squared as u128) as i128;
        assert(1 <= distance <= 0x2_0000_0000) by (nonlinear_arith)
            requires
                is_root(distance as int, squared as int),
                1 <= squared <= 0x3_0000_0000_0000_0000,
        ;
        let wanted: i128 = distance - delta as i128;
        let target: i128 = if wanted > MIN_DISTANCE as i128 {
            wanted
        } else {
            MIN_DISTANCE as i128 + 1
        };
        assert(target == self.zoom_target(delta as int));
        let ex: i128 = self.center.x as i128 + scale_away(vx, target, distance);
        let ey: i128 = self.center.y as i128 + scale_away(vy, target, distance);
        let ez: i128 = self.center.z as i128 + scale_away(vz, target, distance);
        if in_range(ex) && in_range(ey) && in_range(ez) {
            proof {
                lemma_zoom_keeps_distance(*self, delta as int);
            }
            self.eye = Vec3 { x: ex as i32, y: ey as i32, z: ez as i32 };
            true
        } else {
            false
        }
    }
}

fn scale_away(v: i128, target: i128, distance: i128) -> (q: i128)
    requires
        -0x1_0000_0000 <= v <= 0x1_0000_0000,
        1 <= target <= 0x4_0000_0000,
        1 <= distance <= 0x2_0000_0000,
    ensures
        q == away(v * target, distance as int),
        -0x8_0000_0000_0000_0000 <= q <= 0x8_0000_0000_0000_0000,
{
    proof {
        lemma_product_bound(v as int, target as int, 0x1_0000_0000, 0x4_0000_0000);
    }
    let n: i128 = v * target;
    if n >= 0 {
        let q: i128 = (n + distance - 1) / distance;
        proof {
            lemma_floor_div_bound(
                n + distance - 1,
                distance as int,
                0x8_0000_0000_0000_0000,
            );
        }
        q
    } else {
        let q: i128 = (-n + distance - 1) / distance;
        proof {
            lemma_floor_div_bound(
                -n + distance - 1,
                distance as int,
                0x8_0000_0000_0000_0000,
            );
        }
        -q
    }
}

/// Rounding away from zero gives a quotient that, times the divisor, is at
/// least as far from zero as the numerator.
proof fn lemma_away_reaches(n: int, d: int)
    requires
        d > 0,
    ensures
        n >= 0 ==> away(n, d) * d >= n && away(n, d) >= 0,
        n < 0 ==> away(n, d) * d <= n && away(n, d) <= 0,
{
    let m = if n >= 0 { n } else { -n };
    let q = (m + d - 1) / d;
    vstd::arithmetic::div_mod::lemma_fundamental_div_mod(m + d - 1, d);
    vstd::arithmetic::div_mod::lemma_mod_bound(m + d - 1, d);
    assert(q * d >= m && q >= 0) by (nonlinear_arith)
        requires
            m + d - 1 == d * q + (m + d - 1) % d,
            0 <= (m + d - 1) % d < d,
            d > 0,
            m >= 0,
    ;
    if n < 0 {
        assert((-q) * d == -(q * d)) by (nonlinear_arith);
    }
}

/// The square of `q * d` is at least the square of `n` when `q * d` is at
/// least as far from zero as `n`, on the same side.
proof fn lemma_squares_ordered(q: int, d: int, v: int, t: int)
    requires
        (v * t >= 0 && q * d >= v * t) || (v * t < 0 && q * d <= v * t),
    ensures
        (q * q) * (d * d) >= (v * v) * (t * t),
{
    let a = q * d;
    let b = v * t;
    assert(a * a >= b * b) by (nonlinear_arith)
        requires
            (b >= 0 && a >= b) || (b < 0 && a <= b),
    ;
    assert(a * a == (q * q) * (d * d)) by (nonlinear_arith)
        requires
            a == q * d,
    ;
    assert(b * b == (v * v) * (t * t)) by (nonlinear_arith)
        requires
            b == v * t,
    ;
}

/// Zooming never produces a distance at or below the minimum: wherever a
/// zoom moves the eye, it leaves it strictly farther from the centre than
/// the minimum distance, whatever the camera was and however far the zoom
/// asks to go.
pub proof fn lemma_zoom_keeps_distance(camera: Camera, delta: int)
    requires
        camera.zoomed(delta) is Some,
    ensures
        camera.zoomed(delta).unwrap().beyond_minimum(),
{
    let v = camera.offset();
    let d = camera.distance();
    let t = camera.zoom_target(delta);
    let after = camera.zoomed(delta).unwrap();
    let q = after.offset();
    let squared = camera.distance_squared();
    assert(squared >= 0) by (nonlinear_arith)
        requires
            squared == v.x * v.x + v.y * v.y + v.z * v.z,
    ;
    assert(is_root(d, squared)) by {
        lemma_root_exists(squared);
    }
    assert(d >= 1) by (nonlinear_arith)
        requires
            is_root(d, squared),
            squared >= 1,
    ;
    assert(q.x == away(v.x * t, d) && q.y == away(v.y * t, d) && q.z == away(v.z * t, d));
    lemma_away_reaches(v.x * t, d);
    lemma_away_reaches(v.y * t, d);
    lemma_away_reaches(v.z * t, d);
    lemma_squares_ordered(q.x, d, v.x, t);
    lemma_squares_ordered(q.y, d, v.y, t);
    lemma_squares_ordered(q.z, d, v.z, t);
    let reached = after.distance_squared();
    assert(reached * (d * d) >= squared * (t * t)) by (nonlinear_arith)
        requires
            reached == q.x * q.x + q.y * q.y + q.z * q.z,
            squared == v.x * v.x + v.y * v.y + v.z * v.z,
            (q.x * q.x) * (d * d) >= (v.x * v.x) * (t * t),
            (q.y * q.y) * (d * d) >= (v.y * v.y) * (t * t),
            (q.z * q.z) * (d * d) >= (v.z * v.z) * (t * t),
    ;
    assert(reached >= t * t) by (nonlinear_arith)
        requires
            reached * (d * d) >= squared * (t * t),
            squared >= d * d,
            d >= 1,
            t >= 1,
    ;
    assert(t * t > MIN_DISTANCE * MIN_DISTANCE) by (nonlinear_arith)
        requires
            t >= MIN_DISTANCE + 1,
            MIN_DISTANCE == 65536,
    ;
}

/// Repeated zooming keeps the eye beyond the minimum distance: a camera
/// whose eye is beyond it stays so under every zoom, moved or not.
pub proof fn lemma_zoom_invariant(camera: Camera, delta: int)
    requires
        camera.beyond_minimum(),
    ensures
        match camera.zoomed(delta) {
            Some(after) => after.beyond_minimum(),
            None => true,
        },
{
    if camera.zoomed(delta) is Some {
        lemma_zoom_keeps_distance(camera, delta);
    }
}

} // verus!
