use character_controller::input::{InputControlKind, PlayerInput};

#[test]
fn axes_and_buttons() {
    assert_eq!(PlayerInput::Move.input_control_kind(), InputControlKind::DualAxis);
    assert_eq!(PlayerInput::Camera.input_control_kind(), InputControlKind::DualAxis);
    assert_eq!(PlayerInput::Jump.input_control_kind(), InputControlKind::Button);
    assert_eq!(PlayerInput::Crouch.input_control_kind(), InputControlKind::Button);
}
