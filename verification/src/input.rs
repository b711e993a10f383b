//! From the keys that are held to what the camera is asked to do and which
//! body is shown.

use vstd::prelude::*;
use crate::vector::Vec3;

verus! {

/// How far one key press turns the camera: a fiftieth of a half turn, in
/// radians.
pub const ROTATION_SPEED: i32 = 4118;

/// How far one key press pans the camera.
pub const MOVEMENT_SPEED: i32 = 65536;

/// How far one key press zooms.
pub const ZOOM_SPEED: i32 = 65536;

/// Which of the keys that the renderer listens to are held down.
#[derive(Clone, Copy, Debug, PartialEq, Eq, Structural)]
pub struct InputState {
    pub left: bool,
    pub right: bool,
    pub up: bool,
    pub down: bool,
    pub w: bool,
    pub s: bool,
    pub a: bool,
    pub d: bool,
    pub q: bool,
    pub e: bool,
    pub z: bool,
    pub x: bool,
    pub c: bool,
    pub v: bool,
    pub b: bool,
    pub n: bool,
    pub m: bool,
    pub k: bool,
}

/// One request to the camera.
#[derive(Clone, Copy, Debug, PartialEq, Eq, Structural)]
pub enum CameraCommand {
    /// Turn the eye around the centre by these angles, in radians.
    Orbit { yaw: i32, pitch: i32 },
    /// Move eye and centre by this offset.
    MoveCenter(Vec3),
    /// Move the eye toward the centre by this distance.
    Zoom(i32),
}

/// The command, if the key is held.
pub open spec fn when(held: bool, command: CameraCommand) -> Seq<CameraCommand> {
    if held {
        seq![command]
    } else {
        Seq::empty()
    }
}

/// The pan that the keys A, D, Q and E ask for together.
pub open spec fn movement(input: InputState) -> Vec3 {
    Vec3 {
        x: ((if input.d { MOVEMENT_SPEED as int } else { 0 }) - (if input.a {
            MOVEMENT_SPEED as int
        } else {
            0
        })) as i32,
        y: ((if input.q { MOVEMENT_SPEED as int } else { 0 }) - (if input.e {
            MOVEMENT_SPEED as int
        } else {
            0
        })) as i32,
        z: 0,
    }
}

/// The commands of one frame, in the order in which they are carried out:
/// the four orbit keys, then the pan if it moves at all, then the two zoom
/// keys.
pub open spec fn camera_commands(input: InputState) -> Seq<CameraCommand> {
    when(input.left, CameraCommand::Orbit { yaw: ROTATION_SPEED, pitch: 0 }) + when(
        input.right,
        CameraCommand::Orbit { yaw: (-ROTATION_SPEED) as i32, pitch: 0 },
    ) + when(input.w, CameraCommand::Orbit { yaw: 0, pitch: (-ROTATION_SPEED) as i32 }) + when(
        input.s,
        CameraCommand::Orbit { yaw: 0, pitch: ROTATION_SPEED },
    ) + when(
        movement(input) != (Vec3 { x: 0, y: 0, z: 0 }),
        CameraCommand::MoveCenter(movement(input)),
    ) + when(input.up, CameraCommand::Zoom(ZOOM_SPEED)) + when(
        input.down,
        CameraCommand::Zoom((-ZOOM_SPEED) as i32),
    )
}

/// The body that the keys select: Z the central body, X Mercury, C Earth, V
/// Venus, B Mars, N Jupiter, M Saturn, K Uranus. Of several keys the first
/// in this order counts.
pub open spec fn planet_key(input: InputState) -> Option<usize> {
    if input.z {
        Some(0usize)
    } else if input.x {
        Some(1usize)
    } else if input.c {
        Some(3usize)
    } else if input.v {
        Some(2usize)
    } else if input.b {
        Some(4usize)
    } else if input.n {
        Some(5usize)
    } else if input.m {
        Some(6usize)
    } else if input.k {
        Some(7usize)
    } else {
        None
    }
}

fn push_when(commands: &mut Vec<CameraCommand>, held: bool, command: CameraCommand)
    ensures
        final(commands)@ == old(commands)@ + when(held, command),
{
    if held {
        commands.push(command);
        assert(commands@ =~= old(commands)@ + when(held, command));
    } else {
        assert(commands@ =~= old(commands)@ + when(held, command));
    }
}

fn pan(input: &InputState) -> (v: Vec3)
    ensures
        v == movement(*input),
{
    let mut x: i32 = 0;
    let mut y: i32 = 0;
    if input.a {
        x = x - MOVEMENT_SPEED;
    }
    if input.d {
        x = x + MOVEMENT_SPEED;
    }
    if input.q {
        y = y + MOVEMENT_SPEED;
    }
    if input.e {
        y = y - MOVEMENT_SPEED;
    }
    Vec3 { x, y, z: 0 }
}

/// Turns the keys that are held into the camera commands of this frame.
pub fn handle_input(input: &InputState) -> (commands: Vec<CameraCommand>)
    ensures
        commands@ == camera_commands(*input),
{
    let mut commands: Vec<CameraCommand> = Vec::new();
    push_when(&mut commands, input.left, CameraCommand::Orbit { yaw: ROTATION_SPEED, pitch: 0 });
    assert(commands@ =~= when(
        input.left,
        CameraCommand::Orbit { yaw: ROTATION_SPEED, pitch: 0 },
    ));
    push_when(&mut commands, input.right, CameraCommand::Orbit { yaw: -ROTATION_SPEED, pitch: 0 });
    push_when(&mut commands, input.w, CameraCommand::Orbit { yaw: 0, pitch: -ROTATION_SPEED });
    push_when(&mut commands, input.s, CameraCommand::Orbit { yaw: 0, pitch: ROTATION_SPEED });
    let movement = pan(input);
    push_when(
        &mut commands,
        movement.x != 0 || movement.y != 0,
        CameraCommand::MoveCenter(movement),
    );
    push_when(&mut commands, input.up, CameraCommand::Zoom(ZOOM_SPEED));
    push_when(&mut commands, input.down, CameraCommand::Zoom(-ZOOM_SPEED));
    commands
}

/// The body that the held keys select, if any.
pub fn get_planet_key(input: &InputState) -> (selected: Option<usize>)
    ensures
        selected == planet_key(*input),
{
    if input.z {
        Some(0)
    } else if input.x {
        Some(1)
    } else if input.c {
        Some(3)
    } else if input.v {
        Some(2)
    } else if input.b {
        Some(4)
    } else if input.n {
        Some(5)
    } else if input.m {
        Some(6)
    } else if input.k {
        Some(7)
    } else {
        None
    }
}

} // verus!
