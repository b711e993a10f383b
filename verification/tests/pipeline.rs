use planet_render::color::Color;
use planet_render::fixed::ONE;
use planet_render::framebuffer::{Framebuffer, FAR};
use planet_render::light::Light;
use planet_render::noise::FlatNoise;
use planet_render::render::render;
use planet_render::shaders::{transform_vertex, vertex_shader};
use planet_render::uniforms::Uniforms;
use planet_render::vector::{Mat4, Vec2, Vec3, Vec4};
use planet_render::vertex::Vertex;

fn uniforms(level: i32) -> Uniforms<FlatNoise> {
    Uniforms {
        model_matrix: Mat4::identity(),
        view_matrix: Mat4::identity(),
        projection_matrix: Mat4::identity(),
        viewport_matrix: Mat4::identity(),
        time: 0,
        noise: FlatNoise::new(level),
        light: Light::new(Vec3::new(0, 0, 10 * ONE), ONE),
    }
}

fn vertex(x: i32, y: i32, z: i32) -> Vertex {
    Vertex::new(Vec3::new(x * ONE, y * ONE, z), Vec3::new(0, 0, ONE), Vec2::new(0, 0))
}

/// Maps x and y in -1..1 to a `width` by `height` screen, y downward.
fn viewport(width: i32, height: i32) -> Mat4 {
    Mat4::new(
        Vec4::new(width * ONE / 2, 0, 0, width * ONE / 2),
        Vec4::new(0, -height * ONE / 2, 0, height * ONE / 2),
        Vec4::new(0, 0, ONE, 0),
        Vec4::new(0, 0, 0, ONE),
    )
}

#[test]
fn new_vertex_is_not_shaded() {
    let v = Vertex::new(Vec3::new(1, 2, 3), Vec3::new(4, 5, 6), Vec2::new(7, 8));
    assert_eq!(v.position, Vec3::new(1, 2, 3));
    assert_eq!(v.normal, Vec3::new(4, 5, 6));
    assert_eq!(v.tex_coords, Vec2::new(7, 8));
    assert_eq!(v.color, Color::new(0, 0, 0));
    assert_eq!(v.transformed_position, None);
    assert_eq!(v.transformed_normal, Vec3::new(4, 5, 6));
}

#[test]
fn vertex_shader_under_identity_keeps_the_position() {
    let v = vertex(3, -2, 5);
    let shaded = vertex_shader(&v, &uniforms(0));
    assert_eq!(shaded.position, v.position);
    assert_eq!(shaded.normal, v.normal);
    assert_eq!(shaded.tex_coords, v.tex_coords);
    assert_eq!(shaded.color, v.color);
    assert_eq!(shaded.transformed_position, Some(Vec3::new(3 * ONE, -2 * ONE, 5)));
    assert_eq!(shaded.transformed_normal, Vec3::new(0, 0, ONE));
}

#[test]
fn vertex_shader_displaces_along_the_normal_by_half_the_sample() {
    let v = vertex(3, -2, 5);
    // relief 1.0 along +z: z moves by one half
    let shaded = vertex_shader(&v, &uniforms(ONE));
    assert_eq!(shaded.transformed_position, Some(Vec3::new(3 * ONE, -2 * ONE, 5 + ONE / 2)));
    let shaded = vertex_shader(&v, &uniforms(-ONE / 2));
    assert_eq!(shaded.transformed_position, Some(Vec3::new(3 * ONE, -2 * ONE, 5 - ONE / 4)));
    assert_eq!(shaded.position, v.position);
}

#[test]
fn vertex_shader_divides_by_w_and_maps_to_the_screen() {
    // the projection copies z into w
    let projection = Mat4::new(
        Vec4::new(ONE, 0, 0, 0),
        Vec4::new(0, ONE, 0, 0),
        Vec4::new(0, 0, ONE, 0),
        Vec4::new(0, 0, ONE, 0),
    );
    let v = Vertex::new(Vec3::new(ONE, -ONE, 2 * ONE), Vec3::new(0, 0, 0), Vec2::new(0, 0));
    let shaded =
        transform_vertex(&v, 0, &Mat4::identity(), &Mat4::identity(), &projection, &viewport(800, 600));
    // ndc (1/2, -1/2, 1) on an 800x600 screen
    assert_eq!(shaded.transformed_position, Some(Vec3::new(600 * ONE, 450 * ONE, ONE)));
}

#[test]
fn vertex_shader_applies_model_then_view_then_projection() {
    let translate = |x: i32, y: i32, z: i32| {
        Mat4::new(
            Vec4::new(ONE, 0, 0, x * ONE),
            Vec4::new(0, ONE, 0, y * ONE),
            Vec4::new(0, 0, ONE, z * ONE),
            Vec4::new(0, 0, 0, ONE),
        )
    };
    let double = Mat4::new(
        Vec4::new(2 * ONE, 0, 0, 0),
        Vec4::new(0, 2 * ONE, 0, 0),
        Vec4::new(0, 0, 2 * ONE, 0),
        Vec4::new(0, 0, 0, ONE),
    );
    let v = Vertex::new(Vec3::new(ONE, ONE, ONE), Vec3::new(0, 0, 0), Vec2::new(0, 0));
    // double first, then translate: (2, 2, 2) + (1, 0, 0)
    let shaded =
        transform_vertex(&v, 0, &double, &translate(1, 0, 0), &Mat4::identity(), &Mat4::identity());
    assert_eq!(shaded.transformed_position, Some(Vec3::new(3 * ONE, 2 * ONE, 2 * ONE)));
    // translate first, then double: (2, 1, 1) * 2
    let shaded =
        transform_vertex(&v, 0, &translate(1, 0, 0), &double, &Mat4::identity(), &Mat4::identity());
    assert_eq!(shaded.transformed_position, Some(Vec3::new(4 * ONE, 2 * ONE, 2 * ONE)));
}

#[test]
fn vertex_with_zero_w_has_no_screen_position() {
    let collapse = Mat4::new(
        Vec4::new(ONE, 0, 0, 0),
        Vec4::new(0, ONE, 0, 0),
        Vec4::new(0, 0, ONE, 0),
        Vec4::new(0, 0, 0, 0),
    );
    let v = vertex(1, 1, ONE);
    let shaded =
        transform_vertex(&v, 0, &Mat4::identity(), &Mat4::identity(), &collapse, &Mat4::identity());
    assert_eq!(shaded.transformed_position, None);
    assert_eq!(shaded.transformed_normal, Vec3::new(0, 0, ONE));
    assert_eq!(shaded.position, v.position);
}

#[test]
fn vertex_that_cannot_be_stored_has_no_screen_position() {
    let huge = Mat4::new(
        Vec4::new(i32::MAX, 0, 0, 0),
        Vec4::new(0, ONE, 0, 0),
        Vec4::new(0, 0, ONE, 0),
        Vec4::new(0, 0, 0, ONE),
    );
    let v = vertex(1000, 1, 0);
    let shaded =
        transform_vertex(&v, 0, &huge, &Mat4::identity(), &Mat4::identity(), &Mat4::identity());
    assert_eq!(shaded.transformed_position, None);
    // a tiny w makes the quotient too large
    let tiny_w = Mat4::new(
        Vec4::new(ONE, 0, 0, 0),
        Vec4::new(0, ONE, 0, 0),
        Vec4::new(0, 0, ONE, 0),
        Vec4::new(0, 0, 0, 1),
    );
    let shaded =
        transform_vertex(&v, 0, &Mat4::identity(), &Mat4::identity(), &tiny_w, &Mat4::identity());
    assert_eq!(shaded.transformed_position, None);
}

#[test]
fn singular_model_keeps_the_normal_and_still_projects() {
    let flat = Mat4::new(
        Vec4::new(ONE, 0, 0, 0),
        Vec4::new(0, ONE, 0, 0),
        Vec4::new(0, 0, 0, 0),
        Vec4::new(0, 0, 0, ONE),
    );
    let v = Vertex::new(Vec3::new(ONE, 2 * ONE, 3 * ONE), Vec3::new(7, 8, 9), Vec2::new(0, 0));
    let shaded =
        transform_vertex(&v, 0, &flat, &Mat4::identity(), &Mat4::identity(), &Mat4::identity());
    assert_eq!(shaded.transformed_normal, Vec3::new(7, 8, 9));
    assert_eq!(shaded.transformed_position, Some(Vec3::new(ONE, 2 * ONE, 0)));
}

#[test]
fn transformed_normal_is_not_renormalized() {
    let half = Mat4::new(
        Vec4::new(ONE / 2, 0, 0, 0),
        Vec4::new(0, ONE / 2, 0, 0),
        Vec4::new(0, 0, ONE / 2, 0),
        Vec4::new(0, 0, 0, ONE),
    );
    let v = Vertex::new(Vec3::new(0, 0, 0), Vec3::new(0, 0, ONE), Vec2::new(0, 0));
    let shaded =
        transform_vertex(&v, 0, &half, &Mat4::identity(), &Mat4::identity(), &Mat4::identity());
    assert_eq!(shaded.transformed_normal, Vec3::new(0, 0, 2 * ONE));
}

#[test]
fn render_draws_the_triangle_in_the_body_color() {
    let mut fb = Framebuffer::new(10, 10);
    let mesh = [vertex(0, 0, 0), vertex(4, 0, 0), vertex(0, 4, 0)];
    render(&mut fb, &uniforms(0), &mesh, 0);
    assert_eq!(fb.get_pixel(1, 1), Some(0xFFE57F));
    assert_eq!(fb.get_depth(1, 1), Some(0));
    assert_eq!(fb.get_pixel(9, 9), Some(0x000000));
    assert_eq!(fb.get_depth(9, 9), Some(FAR));
    let drawn = fb.buffer().iter().filter(|&&c| c == 0xFFE57F).count();
    assert_eq!(drawn, 15);
}

#[test]
fn render_of_unknown_body_draws_the_default_body() {
    let mesh = [vertex(0, 0, 0), vertex(4, 0, 0), vertex(0, 4, 0)];
    let mut known = Framebuffer::new(10, 10);
    render(&mut known, &uniforms(0), &mesh, 0);
    let mut unknown = Framebuffer::new(10, 10);
    render(&mut unknown, &uniforms(0), &mesh, 77);
    assert_eq!(known.buffer(), unknown.buffer());
}

#[test]
fn render_drops_a_trailing_partial_triangle() {
    let mut fb = Framebuffer::new(10, 10);
    let mesh = [
        vertex(0, 0, 0),
        vertex(4, 0, 0),
        vertex(0, 4, 0),
        vertex(5, 5, 0),
        vertex(9, 5, 0),
    ];
    render(&mut fb, &uniforms(0), &mesh, 5);
    assert_eq!(fb.buffer().iter().filter(|&&c| c != 0).count(), 15);
    assert_eq!(fb.get_pixel(6, 5), Some(0x000000));
    let mut empty = Framebuffer::new(10, 10);
    render(&mut empty, &uniforms(0), &mesh[..2], 5);
    assert!(empty.buffer().iter().all(|&c| c == 0));
    render(&mut empty, &uniforms(0), &[], 5);
    assert!(empty.buffer().iter().all(|&c| c == 0));
}

#[test]
fn nearer_object_hides_the_farther_whatever_the_order() {
    let near = [vertex(0, 0, 100), vertex(6, 0, 100), vertex(0, 6, 100)];
    let far = [vertex(0, 0, 200), vertex(8, 0, 200), vertex(0, 8, 200)];

    let mut near_first = Framebuffer::new(10, 10);
    render(&mut near_first, &uniforms(0), &near, 5);
    render(&mut near_first, &uniforms(0), &far, 0);

    let mut far_first = Framebuffer::new(10, 10);
    render(&mut far_first, &uniforms(0), &far, 0);
    render(&mut far_first, &uniforms(0), &near, 5);

    assert_eq!(near_first.buffer(), far_first.buffer());
    // Jupiter in front
    assert_eq!(near_first.get_pixel(1, 1), Some(0xFFC800));
    assert_eq!(near_first.get_depth(1, 1), Some(100));
    // the sun where only the farther triangle reaches
    assert_eq!(near_first.get_pixel(7, 0), Some(0xFFE57F));
    assert_eq!(near_first.get_depth(7, 0), Some(200));
}

#[test]
fn render_clips_to_the_framebuffer() {
    let mut fb = Framebuffer::new(3, 3);
    let mesh = [vertex(-2, -2, 0), vertex(6, -2, 0), vertex(-2, 6, 0)];
    render(&mut fb, &uniforms(0), &mesh, 5);
    assert!(fb.buffer().iter().all(|&c| c == 0xFFC800));
    let mut fb = Framebuffer::new(3, 3);
    let offscreen = [vertex(-9, 0, 0), vertex(-5, 0, 0), vertex(-9, 4, 0)];
    render(&mut fb, &uniforms(0), &offscreen, 5);
    assert!(fb.buffer().iter().all(|&c| c == 0x000000));
}

#[test]
fn render_skips_triangles_with_a_degenerate_vertex() {
    let collapse = Mat4::new(
        Vec4::new(ONE, 0, 0, 0),
        Vec4::new(0, ONE, 0, 0),
        Vec4::new(0, 0, ONE, 0),
        Vec4::new(0, 0, 0, 0),
    );
    let mut u = uniforms(0);
    u.projection_matrix = collapse;
    let mut fb = Framebuffer::new(10, 10);
    let mesh = [vertex(0, 0, 0), vertex(4, 0, 0), vertex(0, 4, 0)];
    render(&mut fb, &u, &mesh, 0);
    assert!(fb.buffer().iter().all(|&c| c == 0x000000));
}

#[test]
fn render_shades_mercury_by_the_light() {
    let mut fb = Framebuffer::new(4, 4);
    // the light is one unit above the first vertex, straight along its normal,
    // and half as strong as a unit light
    let mut u = uniforms(0);
    u.light = Light::new(Vec3::new(0, 0, ONE), ONE / 2);
    let mesh = [vertex(0, 0, 0), vertex(4, 0, 0), vertex(0, 4, 0)];
    render(&mut fb, &u, &mesh, 1);
    assert_eq!(fb.get_pixel(0, 0), Some(0x545454));
    // farther from the light the surface is darker
    let corner = fb.get_pixel(0, 0).unwrap() & 0xFF;
    let away = fb.get_pixel(3, 0).unwrap() & 0xFF;
    assert!(away < corner);
}
