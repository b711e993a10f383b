//! The noise capability: a fixed scalar field that the shaders sample.

use vstd::prelude::*;

verus! {

/// A scalar field over the plane and over space. Coordinates and values are
/// fixed-point numbers; values are nominally between minus one and one.
///
/// A source is a capability without state: sampling it twice at one point
/// gives one value. The renderer relies on nothing else. A source of one's
/// own is made from two functions, with [`FnNoise`].
pub trait Noise {
    /// The value of the field at a point of the plane.
    spec fn value_2d(&self, x: int, y: int) -> int;

    /// The value of the field at a point of space.
    spec fn value_3d(&self, x: int, y: int, z: int) -> int;

    fn get_noise_2d(&self, x: i64, y: i64) -> (value: i32)
        ensures
            value == self.value_2d(x as int, y as int),
    ;

    fn get_noise_3d(&self, x: i64, y: i64, z: i64) -> (value: i32)
        ensures
            value == self.value_3d(x as int, y as int, z as int),
    ;
}

/// The field that has one value everywhere.
#[derive(Clone, Copy, Debug)]
pub struct FlatNoise {
    pub level: i32,
}

impl FlatNoise {
    pub fn new(level: i32) -> (noise: FlatNoise)
        ensures
            noise.level == level,
    {
        FlatNoise { level }
    }
}

impl Noise for FlatNoise {
    open spec fn value_2d(&self, x: int, y: int) -> int {
        self.level as int
    }

    open spec fn value_3d(&self, x: int, y: int, z: int) -> int {
        self.level as int
    }

    fn get_noise_2d(&self, x: i64, y: i64) -> (value: i32) {
        self.level
    }

    fn get_noise_3d(&self, x: i64, y: i64, z: i64) -> (value: i32) {
        self.level
    }
}

/// A field given by two functions, one for the plane and one for space.
///
/// The functions must accept every point and be functions in the
/// mathematical sense: at one point, one value.
pub struct FnNoise<F2: Fn(i64, i64) -> i32, F3: Fn(i64, i64, i64) -> i32> {
    plane: F2,
    space: F3,
}

impl<F2: Fn(i64, i64) -> i32, F3: Fn(i64, i64, i64) -> i32> FnNoise<F2, F3> {
    #[verifier::type_invariant]
    spec fn inv(&self) -> bool {
        samples_everywhere_2d(self.plane) && samples_everywhere_3d(self.space)
    }

    /// Wraps the two sampling functions: the field has at every point the
    /// value that the function gives there.
    pub fn new(plane: F2, space: F3) -> (noise: Self)
        requires
            samples_everywhere_2d(plane),
            samples_everywhere_3d(space),
        ensures
            forall|x: i64, y: i64, v: i32| #[trigger]
                gives_2d(plane, x, y, v) ==> noise.value_2d(x as int, y as int) == v,
            forall|x: i64, y: i64, z: i64, v: i32| #[trigger]
                gives_3d(space, x, y, z, v) ==> noise.value_3d(x as int, y as int, z as int) == v,
    {
        let noise = FnNoise { plane, space };
        assert forall|x: i64, y: i64, v: i32| #[trigger]
            gives_2d(plane, x, y, v) implies noise.value_2d(x as int, y as int) == v by {
            assert(gives_2d(noise.plane, x as int as i64, y as int as i64, v));
        }
        assert forall|x: i64, y: i64, z: i64, v: i32| #[trigger]
            gives_3d(space, x, y, z, v) implies noise.value_3d(x as int, y as int, z as int)
            == v by {
            assert(gives_3d(noise.space, x as int as i64, y as int as i64, z as int as i64, v));
        }
        noise
    }
}

/// Whether `v` is a value that `f` may give at `(x, y)`.
pub open spec fn gives_2d<F2: Fn(i64, i64) -> i32>(f: F2, x: i64, y: i64, v: i32) -> bool {
    call_ensures(f, (x, y), v)
}

/// Whether `v` is a value that `f` may give at `(x, y, z)`.
pub open spec fn gives_3d<F3: Fn(i64, i64, i64) -> i32>(
    f: F3,
    x: i64,
    y: i64,
    z: i64,
    v: i32,
) -> bool {
    call_ensures(f, (x, y, z), v)
}

/// Whether `f` accepts every point of the plane and gives one value at each.
pub open spec fn samples_everywhere_2d<F2: Fn(i64, i64) -> i32>(f: F2) -> bool {
    &&& forall|x: i64, y: i64| #[trigger] call_requires(f, (x, y))
    &&& forall|x: i64, y: i64, a: i32, b: i32|
        #[trigger] gives_2d(f, x, y, a) && #[trigger] gives_2d(f, x, y, b) ==> a == b
}

/// Whether `f` accepts every point of space and gives one value at each.
pub open spec fn samples_everywhere_3d<F3: Fn(i64, i64, i64) -> i32>(f: F3) -> bool {
    &&& forall|x: i64, y: i64, z: i64| #[trigger] call_requires(f, (x, y, z))
    &&& forall|x: i64, y: i64, z: i64, a: i32, b: i32|
        #[trigger] gives_3d(f, x, y, z, a) && #[trigger] gives_3d(f, x, y, z, b) ==> a == b
}

impl<F2: Fn(i64, i64) -> i32, F3: Fn(i64, i64, i64) -> i32> Noise for FnNoise<F2, F3> {
    closed spec fn value_2d(&self, x: int, y: int) -> int {
        (choose|v: i32| #[trigger] gives_2d(self.plane, x as i64, y as i64, v)) as int
    }

    closed spec fn value_3d(&self, x: int, y: int, z: int) -> int {
        (choose|v: i32| #[trigger] gives_3d(self.space, x as i64, y as i64, z as i64, v)) as int
    }

    fn get_noise_2d(&self, x: i64, y: i64) -> (value: i32) {
        proof {
            use_type_invariant(self);
        }
        let value: i32 = (self.plane)(x, y);
        assert(gives_2d(self.plane, x as int as i64, y as int as i64, value));
        value
    }

    fn get_noise_3d(&self, x: i64, y: i64, z: i64) -> (value: i32) {
        proof {
            use_type_invariant(self);
        }
        let value: i32 = (self.space)(x, y, z);
        assert(gives_3d(self.space, x as int as i64, y as int as i64, z as int as i64, value));
        value
    }
}

} // verus!
