//! The player's input actions and the kind of control each one reads.
use vstd::prelude::*;

verus! {

/// An action the player can take.
#[derive(Clone, Copy, Debug, PartialEq, Eq, Hash, Structural)]
pub enum PlayerInput {
    Move,
    Camera,
    Jump,
    Crouch,
}

/// The kind of control an action reads.
#[derive(Clone, Copy, Debug, PartialEq, Eq, Hash, Structural)]
pub enum InputControlKind {
    /// A pair of axes (a stick, the mouse, a direction pad).
    DualAxis,
    /// A button, pressed or not.
    Button,
}

impl PlayerInput {
    /// Moving and the camera read two axes; jumping and crouching read a button.
    pub fn input_control_kind(&self) -> (r: InputControlKind)
        ensures
            r == (match *self {
                PlayerInput::Move | PlayerInput::Camera => InputControlKind::DualAxis,
                PlayerInput::Jump | PlayerInput::Crouch => InputControlKind::Button,
            }),
    {
        match self {
            PlayerInput::Move => InputControlKind::DualAxis,
            PlayerInput::Camera => InputControlKind::DualAxis,
            PlayerInput::Jump => InputControlKind::Button,
            PlayerInput::Crouch => InputControlKind::Button,
        }
    }
}

} // verus!
