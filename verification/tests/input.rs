use ggl::input::{gizmo_mode_after, GizmoMode, InputEvent, InputSystem, MouseButton};

fn key(code: usize, pressed: bool) -> InputEvent {
    InputEvent::Key { code, pressed }
}

#[test]
fn fresh_state_holds_nothing() {
    let mut input = InputSystem::new(10);
    for k in 0..10 {
        assert!(!input.is_down(k));
        assert!(!input.just_pressed(k));
        assert!(!input.just_released(k));
    }
    assert!(!input.is_mouse_down(MouseButton::Left));
}

#[test]
fn press_is_seen_for_one_frame() {
    let mut input = InputSystem::new(10);
    input.handle_events(&key(3, true));
    assert!(input.is_down(3));
    assert!(input.just_pressed(3));
    assert!(!input.just_released(3));
    input.update();
    assert!(input.is_down(3));
    assert!(!input.just_pressed(3));
}

#[test]
fn release_is_seen_for_one_frame() {
    let mut input = InputSystem::new(10);
    input.handle_events(&key(4, true));
    input.update();
    input.handle_events(&key(4, false));
    assert!(!input.is_down(4));
    assert!(input.just_released(4));
    assert!(!input.just_pressed(4));
    input.update();
    assert!(!input.just_released(4));
}

#[test]
fn mouse_buttons() {
    let mut input = InputSystem::new(1);
    input.handle_events(&InputEvent::MouseButton { button: MouseButton::Right, pressed: true });
    assert!(input.is_mouse_down(MouseButton::Right));
    assert!(!input.is_mouse_down(MouseButton::Left));
    input.handle_events(&InputEvent::MouseButton { button: MouseButton::Other(9), pressed: true });
    assert!(!input.is_mouse_down(MouseButton::Other(9)));
    input.handle_events(&InputEvent::MouseButton { button: MouseButton::Right, pressed: false });
    assert!(!input.is_mouse_down(MouseButton::Right));
}

#[test]
fn gizmo_keys_scale_over_rotate_over_translate() {
    let (rotate, scale, translate) = (GizmoMode::Rotate, GizmoMode::Scale, GizmoMode::Translate);
    assert_eq!(gizmo_mode_after(rotate, false, false, false), rotate);
    assert_eq!(gizmo_mode_after(rotate, true, false, false), translate);
    assert_eq!(gizmo_mode_after(translate, true, true, false), rotate);
    assert_eq!(gizmo_mode_after(translate, true, true, true), scale);
    assert_eq!(gizmo_mode_after(scale, false, true, false), rotate);
}
