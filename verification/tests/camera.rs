use planet_render::camera::{orbit_pitch, Camera, MIN_DISTANCE, PITCH_LIMIT};
use planet_render::fixed::ONE;
use planet_render::input::{
    get_planet_key, handle_input, CameraCommand, InputState, MOVEMENT_SPEED, ROTATION_SPEED,
    ZOOM_SPEED,
};
use planet_render::vector::Vec3;

fn camera_at(x: i32, y: i32, z: i32) -> Camera {
    Camera::new(Vec3::new(x, y, z), Vec3::new(0, 0, 0), Vec3::new(0, ONE, 0))
}

fn distance_squared(c: &Camera) -> i128 {
    let dx = c.eye.x as i128 - c.center.x as i128;
    let dy = c.eye.y as i128 - c.center.y as i128;
    let dz = c.eye.z as i128 - c.center.z as i128;
    dx * dx + dy * dy + dz * dz
}

fn no_keys() -> InputState {
    InputState {
        left: false,
        right: false,
        up: false,
        down: false,
        w: false,
        s: false,
        a: false,
        d: false,
        q: false,
        e: false,
        z: false,
        x: false,
        c: false,
        v: false,
        b: false,
        n: false,
        m: false,
        k: false,
    }
}

#[test]
fn zoom_moves_the_eye_toward_the_center() {
    let mut c = camera_at(0, 0, 50 * ONE);
    assert!(c.zoom(ONE));
    assert_eq!(c.eye, Vec3::new(0, 0, 49 * ONE));
    assert_eq!(c.center, Vec3::new(0, 0, 0));
    assert_eq!(c.up, Vec3::new(0, ONE, 0));
    assert!(c.zoom(-3 * ONE));
    assert_eq!(c.eye, Vec3::new(0, 0, 52 * ONE));
}

#[test]
fn zoom_follows_the_line_to_the_center() {
    let mut c = Camera::new(
        Vec3::new(4 * ONE, 10 * ONE, 1 * ONE),
        Vec3::new(ONE, 6 * ONE, ONE),
        Vec3::new(0, ONE, 0),
    );
    // the offset is (3, 4, 0), five units long; zooming in by two and a half halves it
    assert!(c.zoom(5 * ONE / 2));
    assert_eq!(c.eye, Vec3::new(ONE + 3 * ONE / 2, 8 * ONE, ONE));
}

#[test]
fn zoom_is_clamped_beyond_the_minimum_distance() {
    let mut c = camera_at(0, 0, 3 * ONE);
    assert!(c.zoom(100 * ONE));
    assert_eq!(c.eye, Vec3::new(0, 0, MIN_DISTANCE + 1));
    assert!(c.zoom(i32::MAX));
    assert_eq!(c.eye, Vec3::new(0, 0, MIN_DISTANCE + 1));
}

#[test]
fn repeated_zoom_never_reaches_the_minimum_distance() {
    let min_squared = (MIN_DISTANCE as i128) * (MIN_DISTANCE as i128);
    let mut c = camera_at(7 * ONE, -3 * ONE, 5 * ONE);
    for _ in 0..40 {
        c.zoom(ONE / 3);
        assert!(distance_squared(&c) > min_squared);
    }
    let mut c = camera_at(12345, -54321, 99999);
    for _ in 0..5 {
        assert!(c.zoom(ONE));
        assert!(distance_squared(&c) > min_squared);
    }
}

#[test]
fn zoom_from_inside_the_minimum_moves_out() {
    let mut c = camera_at(10, 0, 0);
    assert!(c.zoom(0));
    assert_eq!(c.eye, Vec3::new(MIN_DISTANCE + 1, 0, 0));
}

#[test]
fn zoom_with_the_eye_on_the_center_does_nothing() {
    let mut c = camera_at(0, 0, 0);
    assert!(!c.zoom(ONE));
    assert_eq!(c, camera_at(0, 0, 0));
}

#[test]
fn zoom_that_cannot_be_stored_does_nothing() {
    let mut c = Camera::new(
        Vec3::new(i32::MAX, 0, 0),
        Vec3::new(i32::MAX - 10, 0, 0),
        Vec3::new(0, ONE, 0),
    );
    let before = c;
    assert!(!c.zoom(ONE));
    assert_eq!(c, before);
}

#[test]
fn move_center_pans_eye_and_center_alike() {
    let mut c = Camera::new(
        Vec3::new(0, 0, 50 * ONE),
        Vec3::new(ONE, 2 * ONE, 3 * ONE),
        Vec3::new(0, ONE, 0),
    );
    assert!(c.move_center(Vec3::new(ONE, -ONE, 7)));
    assert_eq!(c.eye, Vec3::new(ONE, -ONE, 50 * ONE + 7));
    assert_eq!(c.center, Vec3::new(2 * ONE, ONE, 3 * ONE + 7));
    assert_eq!(c.up, Vec3::new(0, ONE, 0));
}

#[test]
fn move_center_that_cannot_be_stored_does_nothing() {
    let mut c = camera_at(i32::MAX, 0, 0);
    let before = c;
    assert!(!c.move_center(Vec3::new(1, 0, 0)));
    assert_eq!(c, before);
    assert!(c.move_center(Vec3::new(-1, 0, 0)));
    assert_eq!(c.eye, Vec3::new(i32::MAX - 1, 0, 0));
    assert_eq!(c.center, Vec3::new(-1, 0, 0));
}

#[test]
fn no_keys_no_commands() {
    assert!(handle_input(&no_keys()).is_empty());
    assert_eq!(get_planet_key(&no_keys()), None);
}

#[test]
fn each_key_gives_its_command() {
    let orbit = |yaw, pitch| vec![CameraCommand::Orbit { yaw, pitch }];
    let pan = |x, y| vec![CameraCommand::MoveCenter(Vec3::new(x, y, 0))];
    assert_eq!(handle_input(&InputState { left: true, ..no_keys() }), orbit(ROTATION_SPEED, 0));
    assert_eq!(handle_input(&InputState { right: true, ..no_keys() }), orbit(-ROTATION_SPEED, 0));
    assert_eq!(handle_input(&InputState { w: true, ..no_keys() }), orbit(0, -ROTATION_SPEED));
    assert_eq!(handle_input(&InputState { s: true, ..no_keys() }), orbit(0, ROTATION_SPEED));
    assert_eq!(handle_input(&InputState { a: true, ..no_keys() }), pan(-MOVEMENT_SPEED, 0));
    assert_eq!(handle_input(&InputState { d: true, ..no_keys() }), pan(MOVEMENT_SPEED, 0));
    assert_eq!(handle_input(&InputState { q: true, ..no_keys() }), pan(0, MOVEMENT_SPEED));
    assert_eq!(handle_input(&InputState { e: true, ..no_keys() }), pan(0, -MOVEMENT_SPEED));
    assert_eq!(
        handle_input(&InputState { up: true, ..no_keys() }),
        vec![CameraCommand::Zoom(ZOOM_SPEED)]
    );
    assert_eq!(
        handle_input(&InputState { down: true, ..no_keys() }),
        vec![CameraCommand::Zoom(-ZOOM_SPEED)]
    );
}

#[test]
fn speeds_are_the_fixed_point_steps() {
    assert_eq!(ROTATION_SPEED, 4118);
    assert_eq!(MOVEMENT_SPEED, ONE);
    assert_eq!(ZOOM_SPEED, ONE);
}

#[test]
fn commands_come_in_their_order() {
    let all = InputState {
        left: true,
        right: true,
        up: true,
        down: true,
        w: true,
        s: true,
        a: false,
        d: true,
        q: true,
        e: false,
        ..no_keys()
    };
    assert_eq!(
        handle_input(&all),
        vec![
            CameraCommand::Orbit { yaw: ROTATION_SPEED, pitch: 0 },
            CameraCommand::Orbit { yaw: -ROTATION_SPEED, pitch: 0 },
            CameraCommand::Orbit { yaw: 0, pitch: -ROTATION_SPEED },
            CameraCommand::Orbit { yaw: 0, pitch: ROTATION_SPEED },
            CameraCommand::MoveCenter(Vec3::new(MOVEMENT_SPEED, MOVEMENT_SPEED, 0)),
            CameraCommand::Zoom(ZOOM_SPEED),
            CameraCommand::Zoom(-ZOOM_SPEED),
        ]
    );
}

#[test]
fn opposite_pan_keys_cancel() {
    let both = InputState { a: true, d: true, q: true, e: true, ..no_keys() };
    assert!(handle_input(&both).is_empty());
    let one_axis = InputState { a: true, d: true, q: true, ..no_keys() };
    assert_eq!(
        handle_input(&one_axis),
        vec![CameraCommand::MoveCenter(Vec3::new(0, MOVEMENT_SPEED, 0))]
    );
}

#[test]
fn planet_keys_select_bodies() {
    assert_eq!(get_planet_key(&InputState { z: true, ..no_keys() }), Some(0));
    assert_eq!(get_planet_key(&InputState { x: true, ..no_keys() }), Some(1));
    assert_eq!(get_planet_key(&InputState { c: true, ..no_keys() }), Some(3));
    assert_eq!(get_planet_key(&InputState { v: true, ..no_keys() }), Some(2));
    assert_eq!(get_planet_key(&InputState { b: true, ..no_keys() }), Some(4));
    assert_eq!(get_planet_key(&InputState { n: true, ..no_keys() }), Some(5));
    assert_eq!(get_planet_key(&InputState { m: true, ..no_keys() }), Some(6));
    assert_eq!(get_planet_key(&InputState { k: true, ..no_keys() }), Some(7));
}

#[test]
fn first_planet_key_counts() {
    assert_eq!(get_planet_key(&InputState { x: true, k: true, ..no_keys() }), Some(1));
    assert_eq!(get_planet_key(&InputState { c: true, v: true, ..no_keys() }), Some(3));
    assert_eq!(get_planet_key(&InputState { z: true, m: true, left: true, ..no_keys() }), Some(0));
}

#[test]
fn pitch_is_held_short_of_the_poles() {
    // a tenth of a radian short of a quarter turn
    assert_eq!(PITCH_LIMIT, 96390);
    assert_eq!(orbit_pitch(0, 4118), 4118);
    assert_eq!(orbit_pitch(1000, -4118), -3118);
    assert_eq!(orbit_pitch(PITCH_LIMIT - 10, 4118), PITCH_LIMIT);
    assert_eq!(orbit_pitch(-PITCH_LIMIT + 10, -4118), -PITCH_LIMIT);
    assert_eq!(orbit_pitch(PITCH_LIMIT, 0), PITCH_LIMIT);
    assert_eq!(orbit_pitch(i32::MAX, i32::MAX), PITCH_LIMIT);
    assert_eq!(orbit_pitch(i32::MIN, i32::MIN), -PITCH_LIMIT);
    // a pitch beyond the limit is brought back to it
    assert_eq!(orbit_pitch(PITCH_LIMIT + 500, -100), PITCH_LIMIT);
}
