//! Decisions the game loop takes on input events.
use vstd::prelude::*;
use crate::game::ecs::components::Controller;

verus! {

/// The keys the game reacts to; every other key is `Other`.
#[derive(Debug, Clone, Copy, PartialEq, Eq, Structural)]
pub enum Key {
    P,
    Escape,
    W,
    S,
    A,
    D,
    Space,
    LShift,
    Other,
}

/// What the game loop must do after a key event, besides updating the
/// player's controller.
#[derive(Debug, Clone, Copy, PartialEq, Eq, Structural)]
pub enum KeyEffect {
    Nothing,
    /// Grab the mouse if it is free, free it if it is grabbed.
    ToggleMouseGrab,
    /// Stop running.
    Exit,
}

/// Applies a key event to the player's controller: the movement keys W, S,
/// A, D, Space and left Shift set forward, backward, left, right, up and down
/// to whether the key is pressed. Pressing P toggles the mouse grab, Escape
/// exits, and nothing else changes.
pub fn handle_key(controller: &mut Controller, key: Key, pressed: bool) -> (e: KeyEffect)
    ensures
        e == match key {
            Key::P => if pressed { KeyEffect::ToggleMouseGrab } else { KeyEffect::Nothing },
            Key::Escape => KeyEffect::Exit,
            _ => KeyEffect::Nothing,
        },
        *final(controller) == match key {
            Key::W => (Controller { forward: pressed, ..*old(controller) }),
            Key::S => (Controller { backward: pressed, ..*old(controller) }),
            Key::A => (Controller { left: pressed, ..*old(controller) }),
            Key::D => (Controller { right: pressed, ..*old(controller) }),
            Key::Space => (Controller { up: pressed, ..*old(controller) }),
            Key::LShift => (Controller { down: pressed, ..*old(controller) }),
            _ => *old(controller),
        },
{
    match key {
        Key::P => {
            if pressed {
                KeyEffect::ToggleMouseGrab
            } else {
                KeyEffect::Nothing
            }
        },
        Key::Escape => KeyEffect::Exit,
        Key::W => {
            controller.forward = pressed;
            KeyEffect::Nothing
        },
        Key::S => {
            controller.backward = pressed;
            KeyEffect::Nothing
        },
        Key::A => {
            controller.left = pressed;
            KeyEffect::Nothing
        },
        Key::D => {
            controller.right = pressed;
            KeyEffect::Nothing
        },
        Key::Space => {
            controller.up = pressed;
            KeyEffect::Nothing
        },
        Key::LShift => {
            controller.down = pressed;
            KeyEffect::Nothing
        },
        Key::Other => KeyEffect::Nothing,
    }
}

/// Mouse buttons, as the game tells them apart.
#[derive(Debug, Clone, Copy, PartialEq, Eq, Structural)]
pub enum MouseButton {
    Left,
    Right,
    Other,
}

/// Block id placed by a right click.
pub const PLACED_BLOCK: usize = 2;

/// Block id that a click other than a right click leaves in the hit block.
pub const REMOVED_BLOCK: usize = 0;

/// The edit a released mouse button makes once the view ray has hit the
/// block at `hit` through the face whose outward normal is `face`: a right
/// click places block `PLACED_BLOCK` in the cell in front of that face, any
/// other button replaces the hit block with `REMOVED_BLOCK`.
pub fn block_edit(button: MouseButton, hit: (isize, isize, isize), face: (isize, isize, isize)) -> (r: (
    (isize, isize, isize),
    usize,
))
    requires
        button == MouseButton::Right ==> {
            &&& isize::MIN <= hit.0 + face.0 <= isize::MAX
            &&& isize::MIN <= hit.1 + face.1 <= isize::MAX
            &&& isize::MIN <= hit.2 + face.2 <= isize::MAX
        },
    ensures
        button == MouseButton::Right ==> r == (
            ((hit.0 + face.0) as isize, (hit.1 + face.1) as isize, (hit.2 + face.2) as isize),
            PLACED_BLOCK,
        ),
        button != MouseButton::Right ==> r == (hit, REMOVED_BLOCK),
{
    match button {
        MouseButton::Right => ((hit.0 + face.0, hit.1 + face.1, hit.2 + face.2), PLACED_BLOCK),
        _ => (hit, REMOVED_BLOCK),
    }
}

} // verus!
