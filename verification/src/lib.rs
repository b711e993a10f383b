//! A software rendering pipeline on fixed-point numbers: vertex transformation,
//! triangle rasterization with depth testing, and procedural shading.

pub mod camera;
pub mod color;
pub mod fixed;
pub mod fragment;
pub mod framebuffer;
pub mod input;
pub mod light;
pub mod mesh;
pub mod noise;
pub mod render;
pub mod shaders;
pub mod triangle;
pub mod uniforms;
pub mod vector;
pub mod vertex;
