use planet_render::color::{blend_colors, Color};
use planet_render::fixed::ONE;

#[test]
fn hex_round_trip() {
    let c = Color::from_hex(0x12AB9F);
    assert_eq!(c, Color::new(0x12, 0xAB, 0x9F));
    assert_eq!(c.to_hex(), 0x12AB9F);
    assert_eq!(Color::new(255, 0, 1).to_hex(), 0xFF0001);
    assert_eq!(Color::from_hex(0).to_hex(), 0);
    assert_eq!(Color::from_hex(0xFFFFFF), Color::new(255, 255, 255));
}

#[test]
fn from_hex_ignores_high_byte() {
    assert_eq!(Color::from_hex(0xFF123456), Color::new(0x12, 0x34, 0x56));
}

#[test]
fn from_normalized_scales_and_clamps() {
    assert_eq!(Color::from_normalized(ONE, 58982, ONE / 2), Color::new(255, 229, 127));
    assert_eq!(Color::from_normalized(0, -5, 2 * ONE), Color::new(0, 0, 255));
    assert_eq!(Color::from_normalized(i32::MIN, i32::MAX, 514), Color::new(0, 255, 1));
}

#[test]
fn to_normalized_gives_levels() {
    assert_eq!(Color::new(0, 255, 51).to_normalized(), (0, ONE, 13107));
}

#[test]
fn lerp_ends_and_middle() {
    let a = Color::new(173, 216, 230);
    let b = Color::new(224, 255, 255);
    assert_eq!(a.lerp(&b, 0), a);
    assert_eq!(a.lerp(&b, ONE), b);
    assert_eq!(a.lerp(&b, ONE / 2), Color::new(199, 236, 243));
}

#[test]
fn lerp_clamps_its_parameter() {
    let a = Color::new(10, 20, 30);
    let b = Color::new(200, 100, 0);
    assert_eq!(a.lerp(&b, -1), a);
    assert_eq!(a.lerp(&b, i32::MIN), a);
    assert_eq!(a.lerp(&b, ONE + 1), b);
    assert_eq!(a.lerp(&b, i32::MAX), b);
}

#[test]
fn lerp_rounds_to_nearest() {
    // a quarter of the way from 0 to 2 is 0.5, which rounds up to 1
    assert_eq!(Color::new(0, 0, 0).lerp(&Color::new(2, 1, 3), ONE / 4), Color::new(1, 0, 1));
}

#[test]
fn scale_multiplies_and_clamps() {
    let c = Color::new(169, 105, 255);
    assert_eq!(c.scale(ONE), c);
    assert_eq!(c.scale(ONE / 2), Color::new(84, 52, 127));
    assert_eq!(c.scale(0), Color::new(0, 0, 0));
    assert_eq!(c.scale(-ONE), Color::new(0, 0, 0));
    assert_eq!(c.scale(2 * ONE), Color::new(255, 210, 255));
    assert_eq!(c.scale(i32::MAX), Color::new(255, 255, 255));
    assert_eq!(c.scale(i32::MIN), Color::new(0, 0, 0));
}

#[test]
fn saturating_add_holds_at_white() {
    let a = Color::new(200, 100, 0);
    let b = Color::new(100, 100, 255);
    assert_eq!(a.saturating_add(&b), Color::new(255, 200, 255));
    assert_eq!(a.saturating_add(&Color::new(0, 0, 0)), a);
}

#[test]
fn blend_colors_mixes_by_factor() {
    let a = Color::new(200, 0, 100);
    let b = Color::new(100, 50, 100);
    assert_eq!(blend_colors(a, b, ONE), a);
    assert_eq!(blend_colors(a, b, 0), b);
    assert_eq!(blend_colors(a, b, ONE / 2), Color::new(150, 25, 100));
    // outside zero to one the mix extrapolates and is then clamped
    assert_eq!(blend_colors(a, b, 2 * ONE), Color::new(255, 0, 100));
    assert_eq!(blend_colors(a, b, -ONE), Color::new(0, 100, 100));
}
