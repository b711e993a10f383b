use planet_render::color::Color;
use planet_render::fixed::ONE;
use planet_render::fragment::Fragment;
use planet_render::framebuffer::Framebuffer;
use planet_render::light::Light;
use planet_render::triangle::triangle;
use planet_render::vector::{Vec2, Vec3};
use planet_render::vertex::Vertex;

fn at(x: i32, y: i32, depth: i32) -> Vertex {
    let mut v = Vertex::new(Vec3::new(0, 0, 0), Vec3::new(0, 0, ONE), Vec2::new(0, 0));
    v.transformed_position = Some(Vec3::new(x * ONE, y * ONE, depth));
    v
}

fn lamp() -> Light {
    Light::new(Vec3::new(0, 0, 2 * ONE), ONE)
}

fn pixels(fragments: &[Fragment]) -> Vec<(i32, i32)> {
    fragments.iter().map(|f| (f.x, f.y)).collect()
}

#[test]
fn end_to_end_triangle_into_framebuffer() {
    let mut fb = Framebuffer::new(10, 10);
    fb.set_background_color(0x000000);
    fb.clear();
    fb.set_current_color(0xFFFFFF);
    let fragments = triangle(&at(0, 0, 0), &at(4, 0, 0), &at(0, 4, 0), &lamp());
    for f in &fragments {
        if f.x >= 0 && f.y >= 0 {
            fb.point(f.x as usize, f.y as usize, f.depth);
        }
    }
    assert_eq!(fb.get_pixel(1, 1), Some(0xFFFFFF));
    assert_eq!(fb.get_pixel(9, 9), Some(0x000000));
    assert_eq!(fb.get_depth(1, 1), Some(0));
    // the hypotenuse is covered, the pixel beyond it is not
    assert_eq!(fb.get_pixel(2, 2), Some(0xFFFFFF));
    assert_eq!(fb.get_pixel(3, 2), Some(0x000000));
    assert_eq!(fb.get_pixel(4, 0), Some(0xFFFFFF));
    assert_eq!(fb.get_pixel(5, 0), Some(0x000000));
}

#[test]
fn fragments_come_row_by_row() {
    let fragments = triangle(&at(0, 0, 0), &at(2, 0, 0), &at(0, 2, 0), &lamp());
    assert_eq!(pixels(&fragments), vec![(0, 0), (1, 0), (2, 0), (0, 1), (1, 1), (0, 2)]);
}

#[test]
fn winding_does_not_matter() {
    let one = triangle(&at(0, 0, 0), &at(2, 0, 0), &at(0, 2, 0), &lamp());
    let other = triangle(&at(0, 0, 0), &at(0, 2, 0), &at(2, 0, 0), &lamp());
    assert_eq!(pixels(&one), pixels(&other));
}

#[test]
fn zero_area_gives_nothing() {
    assert!(triangle(&at(0, 0, 0), &at(2, 2, 0), &at(4, 4, 0), &lamp()).is_empty());
    assert!(triangle(&at(1, 1, 0), &at(1, 1, 0), &at(1, 1, 0), &lamp()).is_empty());
    assert!(triangle(&at(0, 0, 0), &at(3, 0, 5), &at(7, 0, 9), &lamp()).is_empty());
}

#[test]
fn vertex_without_screen_position_gives_nothing() {
    let unshaded = Vertex::new(Vec3::new(0, 0, 0), Vec3::new(0, 0, ONE), Vec2::new(0, 0));
    assert!(triangle(&unshaded, &at(4, 0, 0), &at(0, 4, 0), &lamp()).is_empty());
    assert!(triangle(&at(0, 0, 0), &unshaded, &at(0, 4, 0), &lamp()).is_empty());
    assert!(triangle(&at(0, 0, 0), &at(4, 0, 0), &unshaded, &lamp()).is_empty());
}

#[test]
fn triangle_beyond_the_viewport_changes_no_pixel() {
    let mut fb = Framebuffer::new(10, 10);
    fb.set_current_color(0xFFFFFF);
    let offscreen = [
        (at(-5, 0, 0), at(-1, 0, 0), at(-5, 4, 0)),
        (at(10, 0, 0), at(14, 0, 0), at(10, 4, 0)),
        (at(0, -6, 0), at(4, -6, 0), at(0, -2, 0)),
        (at(0, 10, 0), at(4, 10, 0), at(0, 14, 0)),
    ];
    for (a, b, c) in &offscreen {
        let fragments = triangle(a, b, c, &lamp());
        assert!(!fragments.is_empty());
        for f in &fragments {
            assert!(!(0 <= f.x && f.x < 10 && 0 <= f.y && f.y < 10));
            if f.x >= 0 && f.y >= 0 {
                assert!(!fb.point(f.x as usize, f.y as usize, f.depth));
            }
        }
    }
    assert!(fb.buffer().iter().all(|&c| c == 0x000000));
}

#[test]
fn triangle_around_the_viewport_covers_it() {
    // every vertex lies outside a 10x10 viewport, and yet the triangle covers it
    let fragments = triangle(&at(-10, -10, 0), &at(30, -10, 0), &at(-10, 30, 0), &lamp());
    let inside = fragments.iter().filter(|f| 0 <= f.x && f.x < 10 && 0 <= f.y && f.y < 10).count();
    assert_eq!(inside, 100);
}

#[test]
fn fragment_at_a_vertex_carries_its_attributes() {
    let mut a = at(1, 1, 1000);
    a.position = Vec3::new(11, 12, 13);
    a.transformed_normal = Vec3::new(0, 0, ONE);
    a.color = Color::new(255, 0, 0);
    let mut b = at(7, 2, -2000);
    b.position = Vec3::new(-21, 22, -23);
    b.transformed_normal = Vec3::new(0, ONE, 0);
    b.color = Color::new(0, 255, 0);
    let mut c = at(3, 8, 30000);
    c.position = Vec3::new(31, -32, 33);
    c.transformed_normal = Vec3::new(ONE, 0, 0);
    c.color = Color::new(0, 0, 255);

    let fragments = triangle(&a, &b, &c, &lamp());
    for (v, x, y) in [(&a, 1, 1), (&b, 7, 2), (&c, 3, 8)] {
        let f = fragments.iter().find(|f| f.x == x && f.y == y).unwrap();
        assert_eq!(f.depth, v.transformed_position.unwrap().z);
        assert_eq!(f.vertex_position, v.position);
        assert_eq!(f.normal, v.transformed_normal);
        assert_eq!(f.color, v.color);
    }
}

#[test]
fn attributes_are_interpolated_linearly() {
    let mut a = at(0, 0, 0);
    a.position = Vec3::new(0, 0, 0);
    a.color = Color::new(0, 0, 0);
    let mut b = at(4, 0, 400);
    b.position = Vec3::new(4 * ONE, 0, 0);
    b.color = Color::new(200, 0, 0);
    let mut c = at(0, 4, 800);
    c.position = Vec3::new(0, 4 * ONE, 0);
    c.color = Color::new(0, 100, 0);

    let fragments = triangle(&a, &b, &c, &lamp());
    let f = fragments.iter().find(|f| f.x == 1 && f.y == 2).unwrap();
    // weights 1/4, 1/4, 1/2
    assert_eq!(f.depth, 500);
    assert_eq!(f.vertex_position, Vec3::new(ONE, 2 * ONE, 0));
    assert_eq!(f.color, Color::new(50, 50, 0));
    assert_eq!(f.normal, Vec3::new(0, 0, ONE));
    let mid = fragments.iter().find(|f| f.x == 2 && f.y == 2).unwrap();
    assert_eq!(mid.depth, 600);
    assert_eq!(mid.color, Color::new(100, 50, 0));
}

#[test]
fn interpolation_rounds_down() {
    let a = at(0, 0, -1);
    let b = at(2, 0, 0);
    let c = at(0, 2, 0);
    let fragments = triangle(&a, &b, &c, &lamp());
    // at (1, 0) the depth is -1/2, which rounds down to -1
    let f = fragments.iter().find(|f| f.x == 1 && f.y == 0).unwrap();
    assert_eq!(f.depth, -1);
}

#[test]
fn fragments_carry_the_diffuse_term() {
    let mut a = at(0, 0, 0);
    let mut b = at(4, 0, 0);
    let mut c = at(0, 4, 0);
    for v in [&mut a, &mut b, &mut c] {
        v.position = Vec3::new(0, 0, ONE);
        v.transformed_normal = Vec3::new(0, 0, ONE);
    }
    // the light is one unit above the surface, straight along the normal
    let fragments = triangle(&a, &b, &c, &Light::new(Vec3::new(0, 0, 2 * ONE), ONE));
    assert!(fragments.iter().all(|f| f.intensity == ONE));
    // twice as far: a quarter of the light
    let fragments = triangle(&a, &b, &c, &Light::new(Vec3::new(0, 0, 3 * ONE), ONE));
    assert!(fragments.iter().all(|f| f.intensity == ONE / 4));
}

#[test]
fn subpixel_corners_round_the_box_outward() {
    let mut a = at(0, 0, 0);
    let mut b = at(0, 0, 0);
    let mut c = at(0, 0, 0);
    a.transformed_position = Some(Vec3::new(ONE / 2, ONE / 2, 0));
    b.transformed_position = Some(Vec3::new(5 * ONE / 2, ONE / 2, 0));
    c.transformed_position = Some(Vec3::new(ONE / 2, 5 * ONE / 2, 0));
    let fragments = triangle(&a, &b, &c, &lamp());
    assert_eq!(pixels(&fragments), vec![(1, 1), (2, 1), (1, 2)]);
}
