//! The game's own state, apart from its window and renderer, and what it
//! makes of the events the window system sends.
pub mod ecs;
pub mod game;
pub mod registry;
pub mod terrain;

use vstd::prelude::*;

verus! {

/// An event of a window, as far as the game tells them apart.
#[derive(Debug, Clone, Copy, PartialEq, Eq, Structural)]
pub enum WindowInput {
    CloseRequested,
    Resized,
    ScaleFactorChanged,
    /// A key event with a key code; `escape` tells whether the key is Escape.
    Key { escape: bool, pressed: bool },
    /// A key event without a key code.
    UnknownKey,
    Other,
}

/// An event of the window system, as far as the game tells them apart.
#[derive(Debug, Clone, Copy, PartialEq, Eq, Structural)]
pub enum GameEvent {
    /// The mouse moved.
    MouseMotion,
    /// Another device event.
    OtherDevice,
    /// An event of a window; `own` tells whether it is the game's window.
    Window { own: bool, input: WindowInput },
    /// Any other event.
    Other,
}

/// What the caller must do after the game has taken an event.
#[derive(Debug, Clone, Copy, PartialEq, Eq, Structural)]
pub enum GameAction {
    Nothing,
    /// Turn the camera by the mouse motion.
    TurnCamera,
    /// Resize the renderer to the window's new size and ask for a redraw.
    Resize,
    /// A key other than Escape went down.
    KeyPressed,
    /// A key other than Escape went up.
    KeyReleased,
}

/// Whether `event` makes the game stop: closing its window, or Escape.
pub open spec fn ends_game(event: GameEvent) -> bool {
    match event {
        GameEvent::Window { own: true, input: WindowInput::CloseRequested } => true,
        GameEvent::Window { own: true, input: WindowInput::Key { escape: true, .. } } => true,
        _ => false,
    }
}

/// What the caller must do after `event`, when the game is `focused` or not:
/// turn the camera on mouse motion while focused, resize on a resize or a
/// change of scale of the game's window, and report the keys other than
/// Escape that go down or up in it.
pub open spec fn response(focused: bool, event: GameEvent) -> GameAction {
    match event {
        GameEvent::MouseMotion => if focused {
            GameAction::TurnCamera
        } else {
            GameAction::Nothing
        },
        GameEvent::Window { own: true, input } => match input {
            WindowInput::Resized => GameAction::Resize,
            WindowInput::ScaleFactorChanged => GameAction::Resize,
            WindowInput::Key { escape: false, pressed } => if pressed {
                GameAction::KeyPressed
            } else {
                GameAction::KeyReleased
            },
            _ => GameAction::Nothing,
        },
        _ => GameAction::Nothing,
    }
}

/// Whether the game runs and whether its window holds the mouse.
pub struct Game {
    running: bool,
    focused: bool,
}

impl Game {
    pub closed spec fn running_spec(&self) -> bool {
        self.running
    }

    pub closed spec fn focused_spec(&self) -> bool {
        self.focused
    }

    /// A running game whose window holds the mouse.
    pub fn new() -> (g: Self)
        ensures
            g.running_spec(),
            g.focused_spec(),
    {
        Self { running: true, focused: true }
    }

    pub fn is_running(&self) -> (b: bool)
        ensures
            b == self.running_spec(),
    {
        self.running
    }

    /// Whether the window holds the mouse: the cursor is grabbed and hidden.
    pub fn is_focused(&self) -> (b: bool)
        ensures
            b == self.focused_spec(),
    {
        self.focused
    }

    /// Stops the game.
    pub fn exit(&mut self)
        ensures
            !final(self).running_spec(),
            final(self).focused_spec() == old(self).focused_spec(),
    {
        self.running = false;
    }

    /// Takes an event of the window system: closing the game's window or
    /// pressing Escape in it stops the game; what else must be done is
    /// returned. Once stopped, the game never runs again.
    pub fn process_event(&mut self, event: GameEvent) -> (a: GameAction)
        ensures
            final(self).running_spec() == (old(self).running_spec() && !ends_game(event)),
            final(self).focused_spec() == old(self).focused_spec(),
            a == response(old(self).focused_spec(), event),
    {
        match event {
            GameEvent::MouseMotion => {
                if self.focused {
                    GameAction::TurnCamera
                } else {
                    GameAction::Nothing
                }
            },
            GameEvent::OtherDevice => GameAction::Nothing,
            GameEvent::Window { own, input } => {
                if own {
                    match input {
                        WindowInput::CloseRequested => {
                            self.exit();
                            GameAction::Nothing
                        },
                        WindowInput::Resized => GameAction::Resize,
                        WindowInput::ScaleFactorChanged => GameAction::Resize,
                        WindowInput::Key { escape, pressed } => {
                            if escape {
                                self.exit();
                                GameAction::Nothing
                            } else if pressed {
                                GameAction::KeyPressed
                            } else {
                                GameAction::KeyReleased
                            }
                        },
                        WindowInput::UnknownKey => GameAction::Nothing,
                        WindowInput::Other => GameAction::Nothing,
                    }
                } else {
                    GameAction::Nothing
                }
            },
            GameEvent::Other => GameAction::Nothing,
        }
    }
}

} // verus!
