//! The per-vertex record.

use vstd::prelude::*;
use crate::color::Color;
use crate::vector::{Vec2, Vec3};

verus! {

/// A mesh vertex. The object-space attributes are given; the two derived
/// fields are filled by the vertex shader.
#[derive(Clone, Copy, Debug)]
pub struct Vertex {
    pub position: Vec3,
    pub normal: Vec3,
    pub tex_coords: Vec2,
    pub color: Color,
    /// Screen-space x, y and depth. `None` until the vertex shader has run,
    /// and for a vertex that it could not project.
    pub transformed_position: Option<Vec3>,
    pub transformed_normal: Vec3,
}

impl Vertex {
    /// A vertex that has not been shaded yet: black, with no screen
    /// position.
    pub fn new(position: Vec3, normal: Vec3, tex_coords: Vec2) -> (v: Vertex)
        ensures
            v == (Vertex {
                position,
                normal,
                tex_coords,
                color: Color { r: 0, g: 0, b: 0 },
                transformed_position: None,
                transformed_normal: normal,
            }),
    {
        Vertex {
            position,
            normal,
            tex_coords,
            color: Color { r: 0, g: 0, b: 0 },
            transformed_position: None,
            transformed_normal: normal,
        }
    }
}

} // verus!
