use planet_render::fixed::{div_floor, isqrt, saturate, ONE};
use planet_render::vector::{in_range, product, Mat4, Vec3, Vec4};

#[test]
fn one_is_two_to_the_sixteenth() {
    assert_eq!(ONE, 1 << 16);
}

#[test]
fn div_floor_rounds_toward_negative_infinity() {
    assert_eq!(div_floor(7, 2), 3);
    assert_eq!(div_floor(-7, 2), -4);
    assert_eq!(div_floor(7, -2), -4);
    assert_eq!(div_floor(-7, -2), 3);
    assert_eq!(div_floor(-8, 2), -4);
    assert_eq!(div_floor(0, 5), 0);
    assert_eq!(div_floor(-1, 65536), -1);
    assert_eq!(div_floor(1, -65536), -1);
    assert_eq!(div_floor(5, 0), 0);
    assert_eq!(div_floor(i128::MAX, 1), i128::MAX);
    assert_eq!(div_floor(-i128::MAX, -1), i128::MAX);
}

#[test]
fn saturate_holds_at_the_ends() {
    assert_eq!(saturate(0), 0);
    assert_eq!(saturate(i32::MAX as i128), i32::MAX);
    assert_eq!(saturate(i32::MAX as i128 + 1), i32::MAX);
    assert_eq!(saturate(i32::MIN as i128 - 1), i32::MIN);
    assert_eq!(saturate(i128::MAX), i32::MAX);
    assert_eq!(saturate(i128::MIN), i32::MIN);
    assert_eq!(saturate(-12345), -12345);
}

#[test]
fn isqrt_is_the_floor_of_the_root() {
    assert_eq!(isqrt(0), 0);
    assert_eq!(isqrt(1), 1);
    assert_eq!(isqrt(2), 1);
    assert_eq!(isqrt(3), 1);
    assert_eq!(isqrt(4), 2);
    assert_eq!(isqrt(24), 4);
    assert_eq!(isqrt(25), 5);
    assert_eq!(isqrt(2_500_000_000), 50_000);
    assert_eq!(isqrt((1u128 << 64) - 1), (1u64 << 32) - 1);
    assert_eq!(isqrt(1u128 << 64), 1u64 << 32);
    assert_eq!(isqrt(u128::MAX), u64::MAX);
}

#[test]
fn products_are_exact() {
    assert_eq!(product(i32::MIN, i32::MIN), 1i128 << 62);
    assert_eq!(product(-3, 7), -21);
    assert!(in_range(i32::MAX as i128));
    assert!(in_range(i32::MIN as i128));
    assert!(!in_range(i32::MAX as i128 + 1));
    assert!(!in_range(i32::MIN as i128 - 1));
}

#[test]
fn identity_maps_a_vector_to_itself() {
    let v = Vec4::new(3 * ONE, -ONE / 2, 7, ONE);
    assert_eq!(Mat4::identity().transform(&v), Some(v));
    let extreme = Vec4::new(i32::MAX, i32::MIN, 0, -1);
    assert_eq!(Mat4::identity().transform(&extreme), Some(extreme));
}

#[test]
fn transform_multiplies_rows_by_the_column() {
    // scale x by 2, swap y and z, translate by (1, 0, 0)
    let m = Mat4::new(
        Vec4::new(2 * ONE, 0, 0, ONE),
        Vec4::new(0, 0, ONE, 0),
        Vec4::new(0, ONE, 0, 0),
        Vec4::new(0, 0, 0, ONE),
    );
    let v = Vec4::new(3 * ONE, 5 * ONE, -7 * ONE, ONE);
    assert_eq!(m.transform(&v), Some(Vec4::new(7 * ONE, -7 * ONE, 5 * ONE, ONE)));
}

#[test]
fn transform_rounds_down() {
    let m = Mat4::new(
        Vec4::new(ONE / 2, 0, 0, 0),
        Vec4::new(0, ONE / 2, 0, 0),
        Vec4::new(0, 0, ONE, 0),
        Vec4::new(0, 0, 0, ONE),
    );
    assert_eq!(m.transform(&Vec4::new(3, -3, 1, 0)), Some(Vec4::new(1, -2, 1, 0)));
}

#[test]
fn transform_that_cannot_be_stored_gives_none() {
    let m = Mat4::new(
        Vec4::new(2 * ONE, 0, 0, 0),
        Vec4::new(0, ONE, 0, 0),
        Vec4::new(0, 0, ONE, 0),
        Vec4::new(0, 0, 0, ONE),
    );
    assert_eq!(m.transform(&Vec4::new(i32::MAX, 0, 0, 0)), None);
    assert_eq!(
        m.transform(&Vec4::new(i32::MAX / 2, 0, 0, 0)),
        Some(Vec4::new(i32::MAX - 1, 0, 0, 0))
    );
}

#[test]
fn normal_keeps_under_identity_and_rotation() {
    let n = Vec3::new(ONE, 2 * ONE, -3 * ONE);
    assert_eq!(Mat4::identity().transform_normal(&n), n);
    // a quarter turn about z: x -> y, y -> -x
    let turn = Mat4::new(
        Vec4::new(0, -ONE, 0, 0),
        Vec4::new(ONE, 0, 0, 0),
        Vec4::new(0, 0, ONE, 0),
        Vec4::new(0, 0, 0, ONE),
    );
    assert_eq!(turn.transform_normal(&n), Vec3::new(-2 * ONE, ONE, -3 * ONE));
}

#[test]
fn normal_under_scaling_is_divided() {
    // the inverse transpose of a scaling by (2, 4, 1/2) divides by the factors
    let m = Mat4::new(
        Vec4::new(2 * ONE, 0, 0, 0),
        Vec4::new(0, 4 * ONE, 0, 0),
        Vec4::new(0, 0, ONE / 2, 0),
        Vec4::new(0, 0, 0, ONE),
    );
    let n = Vec3::new(ONE, ONE, ONE);
    assert_eq!(m.transform_normal(&n), Vec3::new(ONE / 2, ONE / 4, 2 * ONE));
}

#[test]
fn singular_model_leaves_the_normal() {
    let flat = Mat4::new(
        Vec4::new(ONE, 0, 0, 0),
        Vec4::new(0, ONE, 0, 0),
        Vec4::new(0, 0, 0, 0),
        Vec4::new(0, 0, 0, ONE),
    );
    let n = Vec3::new(5, -6, 7 * ONE);
    assert_eq!(flat.transform_normal(&n), n);
}
