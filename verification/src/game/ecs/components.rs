//! Components of the player entity that hold no floating-point state.
use vstd::prelude::*;

verus! {

/// Which movement keys are held down.
#[derive(Debug, Clone, Copy, PartialEq, Eq, Structural)]
pub struct Controller {
    pub forward: bool,
    pub backward: bool,
    pub left: bool,
    pub right: bool,
    pub up: bool,
    pub down: bool,
}

/// `1` for a held key, `0` otherwise.
pub open spec fn held(b: bool) -> int {
    if b { 1 } else { 0 }
}

impl Controller {
    /// No key held.
    pub fn new() -> (c: Self)
        ensures
            !c.forward && !c.backward && !c.left && !c.right && !c.up && !c.down,
    {
        Self { forward: false, backward: false, left: false, right: false, up: false, down: false }
    }

    /// The movement direction the held keys ask for, along the camera's side
    /// axis (right minus left), its vertical axis (down minus up) and its
    /// viewing axis (forward minus backward); each is -1, 0 or 1.
    pub fn axes(&self) -> (a: (i8, i8, i8))
        ensures
            a.0 == held(self.right) - held(self.left),
            a.1 == held(self.down) - held(self.up),
            a.2 == held(self.forward) - held(self.backward),
    {
        let side = (if self.right { 1i8 } else { 0i8 }) - (if self.left { 1i8 } else { 0i8 });
        let vertical = (if self.down { 1i8 } else { 0i8 }) - (if self.up { 1i8 } else { 0i8 });
        let ahead = (if self.forward { 1i8 } else { 0i8 }) - (if self.backward { 1i8 } else { 0i8 });
        (side, vertical, ahead)
    }
}

} // verus!
