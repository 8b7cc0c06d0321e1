//! The input decisions of the orbiting camera: which keys move it and how,
//! and when a mouse drag turns it. The vector algebra that each move
//! performs is floating point and runs outside the library.

use vstd::prelude::*;

verus! {

/// A key, as far as the camera cares.
#[derive(Debug, Clone, Copy, PartialEq, Eq, Structural)]
pub enum CameraKey {
    A,
    D,
    S,
    W,
    Left,
    Right,
    Down,
    Up,
    /// Any other key.
    Other,
}

/// A move of the camera.
#[derive(Debug, Clone, Copy, PartialEq, Eq, Structural)]
pub enum CameraMove {
    /// Turn around the target to the left, keeping the distance.
    OrbitLeft,
    /// Turn around the target to the right, keeping the distance.
    OrbitRight,
    /// Step away from the target.
    Backward,
    /// Step toward the target.
    Forward,
}

/// The move that a key asks for, if any: A or Left and D or Right orbit,
/// S or Down and W or Up step.
pub open spec fn spec_key_move(key: CameraKey) -> Option<CameraMove> {
    match key {
        CameraKey::A | CameraKey::Left => Some(CameraMove::OrbitLeft),
        CameraKey::D | CameraKey::Right => Some(CameraMove::OrbitRight),
        CameraKey::S | CameraKey::Down => Some(CameraMove::Backward),
        CameraKey::W | CameraKey::Up => Some(CameraMove::Forward),
        CameraKey::Other => None,
    }
}

/// The move that `key` asks for, if any.
pub fn key_move(key: CameraKey) -> (r: Option<CameraMove>)
    ensures
        r == spec_key_move(key),
{
    match key {
        CameraKey::A | CameraKey::Left => Some(CameraMove::OrbitLeft),
        CameraKey::D | CameraKey::Right => Some(CameraMove::OrbitRight),
        CameraKey::S | CameraKey::Down => Some(CameraMove::Backward),
        CameraKey::W | CameraKey::Up => Some(CameraMove::Forward),
        CameraKey::Other => None,
    }
}

/// What a cursor move does to the camera.
#[derive(Debug, Clone, Copy, PartialEq, Eq, Structural)]
pub enum CursorStep {
    /// Nothing: no drag is under way.
    Ignore,
    /// The first move of a drag: the cursor's position becomes the drag's
    /// anchor before the camera turns by the offset from it.
    Anchor,
    /// A later move of a drag: the camera turns by the offset from the last
    /// position.
    Turn,
}

/// The state of a drag with the left mouse button.
#[derive(Debug, Clone, Copy, PartialEq, Eq, Structural)]
pub struct DragState {
    /// The left button is held.
    pub pressed: bool,
    /// The cursor has moved since the button went down, so the last cursor
    /// position is known.
    pub anchored: bool,
}

impl DragState {
    /// No button held, no drag.
    pub fn new() -> (r: Self)
        ensures
            !r.pressed,
            !r.anchored,
    {
        DragState { pressed: false, anchored: false }
    }

    /// The left button went down (`pressed`) or up. A new press starts a
    /// drag that has no anchor yet.
    pub fn press(&mut self, pressed: bool)
        ensures
            final(self).pressed == pressed,
            final(self).anchored == !pressed,
    {
        self.pressed = pressed;
        self.anchored = !pressed;
    }

    /// The cursor moved. Outside a drag this does nothing; the first move of
    /// a drag sets its anchor, later moves turn the camera.
    pub fn cursor_moved(&mut self) -> (r: CursorStep)
        ensures
            !old(self).pressed ==> r == CursorStep::Ignore && *final(self) == *old(self),
            old(self).pressed && !old(self).anchored ==> r == CursorStep::Anchor,
            old(self).pressed && old(self).anchored ==> r == CursorStep::Turn,
            old(self).pressed ==> final(self).pressed && final(self).anchored,
    {
        if !self.pressed {
            CursorStep::Ignore
        } else if !self.anchored {
            self.anchored = true;
            CursorStep::Anchor
        } else {
            CursorStep::Turn
        }
    }
}

} // verus!
