use kiss3d::camera::{first_person_event_steps, first_person_update_steps, operation_steps, CameraStep, HeldKeys};
use kiss3d::event::{Event, KEY_ESCAPE};

fn recomputes(steps: &[CameraStep]) -> usize {
    steps.iter().filter(|s| **s == CameraStep::Recompute).count()
}

#[test]
fn left_drag_looks_around_then_clamps_and_recomputes() {
    let steps = first_person_event_steps(&Event::CursorPos, true, false);
    assert_eq!(
        steps,
        vec![CameraStep::Look, CameraStep::ClampPitch, CameraStep::Recompute, CameraStep::RecordCursor]
    );
}

#[test]
fn both_buttons_drag_recomputes_once_per_handler() {
    let steps = first_person_event_steps(&Event::CursorPos, true, true);
    assert_eq!(
        steps,
        vec![
            CameraStep::Look,
            CameraStep::ClampPitch,
            CameraStep::Recompute,
            CameraStep::Pan,
            CameraStep::ClampPitch,
            CameraStep::Recompute,
            CameraStep::RecordCursor,
        ]
    );
    assert_eq!(recomputes(&steps), 2);
}

#[test]
fn cursor_move_without_buttons_only_records_the_position() {
    let steps = first_person_event_steps(&Event::CursorPos, false, false);
    assert_eq!(steps, vec![CameraStep::RecordCursor]);
    assert_eq!(recomputes(&steps), 0);
}

#[test]
fn scroll_and_resize_recompute_once() {
    let scroll = first_person_event_steps(&Event::Scroll, false, false);
    assert_eq!(scroll, vec![CameraStep::Zoom, CameraStep::ClampPitch, CameraStep::Recompute]);
    let resize = first_person_event_steps(&Event::FramebufferSize(640, 480), true, false);
    assert_eq!(resize, vec![CameraStep::Reproject, CameraStep::Recompute]);
}

#[test]
fn events_that_change_nothing_never_recompute() {
    for e in [
        Event::KeyPressed(KEY_ESCAPE),
        Event::KeyReleased(65),
        Event::ButtonPressed(0, 0),
        Event::ButtonReleased(1, 0),
    ] {
        assert!(first_person_event_steps(&e, true, true).is_empty());
    }
}

#[test]
fn update_moves_for_each_held_key_then_recomputes_once() {
    let keys = HeldKeys { up: true, down: false, right: true, left: true };
    let steps = first_person_update_steps(keys);
    assert_eq!(
        steps,
        vec![
            CameraStep::MoveForward,
            CameraStep::StrafeRight,
            CameraStep::StrafeLeft,
            CameraStep::ClampPitch,
            CameraStep::Recompute,
        ]
    );
    let idle = first_person_update_steps(HeldKeys { up: false, down: false, right: false, left: false });
    assert_eq!(idle, vec![CameraStep::ClampPitch, CameraStep::Recompute]);
    assert_eq!(recomputes(&steps), 1);
}

#[test]
fn one_operation_clamps_and_recomputes_once() {
    assert_eq!(
        operation_steps(CameraStep::Pan),
        vec![CameraStep::Pan, CameraStep::ClampPitch, CameraStep::Recompute]
    );
    assert_eq!(recomputes(&operation_steps(CameraStep::MoveForward)), 1);
}
