//! The per-pixel record that the rasterizer hands to the shaders.

use vstd::prelude::*;
use crate::color::Color;
use crate::vector::Vec3;

verus! {

/// One candidate pixel of a triangle, with the attributes interpolated at it.
#[derive(Clone, Copy, Debug)]
pub struct Fragment {
    /// Pixel column; may lie outside any framebuffer.
    pub x: i32,
    /// Pixel row; may lie outside any framebuffer.
    pub y: i32,
    pub depth: i32,
    /// Object-space position, so that surface patterns stay put when the
    /// camera moves.
    pub vertex_position: Vec3,
    pub normal: Vec3,
    pub color: Color,
    pub intensity: i32,
}

impl Fragment {
    pub fn new(
        x: i32,
        y: i32,
        depth: i32,
        vertex_position: Vec3,
        normal: Vec3,
        color: Color,
        intensity: i32,
    ) -> (f: Fragment)
        ensures
            f == (Fragment { x, y, depth, vertex_position, normal, color, intensity }),
    {
        Fragment { x, y, depth, vertex_position, normal, color, intensity }
    }
}

} // verus!
