use learn_wgpu::camera::{key_move, CameraKey, CameraMove, CursorStep, DragState};

#[test]
fn keys_map_to_moves() {
    assert_eq!(key_move(CameraKey::A), Some(CameraMove::OrbitLeft));
    assert_eq!(key_move(CameraKey::Left), Some(CameraMove::OrbitLeft));
    assert_eq!(key_move(CameraKey::D), Some(CameraMove::OrbitRight));
    assert_eq!(key_move(CameraKey::Right), Some(CameraMove::OrbitRight));
    assert_eq!(key_move(CameraKey::S), Some(CameraMove::Backward));
    assert_eq!(key_move(CameraKey::Down), Some(CameraMove::Backward));
    assert_eq!(key_move(CameraKey::W), Some(CameraMove::Forward));
    assert_eq!(key_move(CameraKey::Up), Some(CameraMove::Forward));
    assert_eq!(key_move(CameraKey::Other), None);
}

#[test]
fn cursor_moves_without_a_drag_are_ignored() {
    let mut d = DragState::new();
    assert_eq!(d.cursor_moved(), CursorStep::Ignore);
    assert_eq!(d, DragState::new());
}

#[test]
fn a_drag_anchors_then_turns() {
    let mut d = DragState::new();
    d.press(true);
    assert!(d.pressed && !d.anchored);
    assert_eq!(d.cursor_moved(), CursorStep::Anchor);
    assert_eq!(d.cursor_moved(), CursorStep::Turn);
    assert_eq!(d.cursor_moved(), CursorStep::Turn);
    d.press(false);
    assert!(!d.pressed);
    assert_eq!(d.cursor_moved(), CursorStep::Ignore);
    // a new press needs a new anchor
    d.press(true);
    assert_eq!(d.cursor_moved(), CursorStep::Anchor);
}
