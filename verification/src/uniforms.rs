//! The per-frame data that every shader reads.

use vstd::prelude::*;
use crate::light::Light;
use crate::noise::Noise;
use crate::vector::Mat4;

verus! {

/// What stays fixed while one object is drawn.
pub struct Uniforms<N: Noise> {
    pub model_matrix: Mat4,
    pub view_matrix: Mat4,
    pub projection_matrix: Mat4,
    pub viewport_matrix: Mat4,
    /// The frame counter.
    pub time: u32,
    pub noise: N,
    pub light: Light,
}

} // verus!
