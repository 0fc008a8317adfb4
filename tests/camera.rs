use mesh_viewer::camera::{turn, CameraState, Cursor, InputEvent, MAX_OFFSET, MIN_OFFSET};

fn dragging_at(rotation_x: u32, rotation_y: u32, x: i32, y: i32) -> CameraState {
    let mut c = CameraState::new(rotation_x, rotation_y, 200_000);
    c.dragging = true;
    c.last_cursor = Some(Cursor { x, y });
    c
}

#[test]
fn rotation_wraps_past_a_full_turn() {
    let mut c = dragging_at(350, 10, 100, 100);
    // deltaY = 100 - 80 = 20, deltaX = 100 - 95 = 5
    assert!(c.apply(InputEvent::PointerMove { x: 95, y: 80 }));
    assert_eq!((c.rotation_x, c.rotation_y), (10, 15));
    assert_eq!(c.last_cursor, Some(Cursor { x: 95, y: 80 }));
}

#[test]
fn negative_rotation_wraps_to_the_top_of_the_range() {
    let mut c = dragging_at(5, 0, 0, 0);
    c.apply(InputEvent::PointerMove { x: 1, y: 10 });
    assert_eq!((c.rotation_x, c.rotation_y), (355, 359));
}

#[test]
fn extreme_pointer_coordinates_do_not_overflow() {
    let mut c = dragging_at(0, 0, i32::MIN, i32::MAX);
    c.apply(InputEvent::PointerMove { x: i32::MAX, y: i32::MIN });
    let dy: i64 = i32::MAX as i64 - i32::MIN as i64;
    let dx: i64 = i32::MIN as i64 - i32::MAX as i64;
    assert_eq!(c.rotation_x as i64, dy.rem_euclid(360));
    assert_eq!(c.rotation_y as i64, dx.rem_euclid(360));
}

#[test]
fn turn_uses_a_non_negative_modulo() {
    assert_eq!(turn(0, -1), 359);
    assert_eq!(turn(0, -360), 0);
    assert_eq!(turn(10, -730), 0);
    assert_eq!(turn(359, 1), 0);
    assert_eq!(turn(90, 45), 135);
}

#[test]
fn moving_without_dragging_only_records_the_cursor() {
    let mut c = CameraState::new(90, 90, 200_000);
    assert!(!c.apply(InputEvent::PointerMove { x: 3, y: 4 }));
    assert_eq!((c.rotation_x, c.rotation_y), (90, 90));
    assert_eq!(c.last_cursor, Some(Cursor { x: 3, y: 4 }));
}

#[test]
fn first_move_of_a_drag_without_a_cursor_does_not_turn() {
    let mut c = CameraState::new(90, 90, 200_000);
    assert!(!c.apply(InputEvent::PointerDown));
    assert!(c.apply(InputEvent::PointerMove { x: 50, y: 60 }));
    assert_eq!((c.rotation_x, c.rotation_y), (90, 90));
    assert!(c.apply(InputEvent::PointerMove { x: 40, y: 70 }));
    assert_eq!((c.rotation_x, c.rotation_y), (80, 100));
}

#[test]
fn pointer_up_ends_the_drag() {
    let mut c = dragging_at(0, 0, 0, 0);
    assert!(!c.apply(InputEvent::PointerUp));
    assert!(!c.dragging);
    assert!(!c.apply(InputEvent::PointerMove { x: 10, y: 10 }));
    assert_eq!((c.rotation_x, c.rotation_y), (0, 0));
}

#[test]
fn zoom_is_clamped_at_the_near_limit() {
    let mut c = CameraState::new(0, 0, 5_000);
    assert!(c.apply(InputEvent::Wheel { delta_y: -10_000 }));
    assert_eq!(c.offset, 1_000);
    assert_eq!(c.offset, MIN_OFFSET);
}

#[test]
fn zoom_is_clamped_at_the_far_limit() {
    let mut c = CameraState::new(0, 0, 995_000);
    assert!(c.apply(InputEvent::Wheel { delta_y: 10_000 }));
    assert_eq!(c.offset, 1_000_000);
    assert_eq!(c.offset, MAX_OFFSET);
}

#[test]
fn one_wheel_unit_moves_a_quarter() {
    let mut c = CameraState::new(0, 0, 200_000);
    c.apply(InputEvent::Wheel { delta_y: 4 });
    assert_eq!(c.offset, 201_000);
    c.apply(InputEvent::Wheel { delta_y: -1 });
    assert_eq!(c.offset, 200_750);
}

#[test]
fn extreme_wheel_deltas_do_not_overflow() {
    let mut c = CameraState::new(0, 0, 200_000);
    c.apply(InputEvent::Wheel { delta_y: i64::MAX });
    assert_eq!(c.offset, MAX_OFFSET);
    c.apply(InputEvent::Wheel { delta_y: i64::MIN });
    assert_eq!(c.offset, MIN_OFFSET);
}
