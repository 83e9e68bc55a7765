use car_game::controls::{Action, Control, Controls, KeyCode};

#[test]
fn new_control_is_released() {
    let c = Control::new(vec![KeyCode::KeyA, KeyCode::KeyD]);
    assert_eq!(c.binds, vec![KeyCode::KeyA, KeyCode::KeyD]);
    assert!(!c.state);
}

#[test]
fn standard_bindings() {
    let c = Controls::new();
    assert_eq!(c.control(Action::Forward).binds, vec![KeyCode::KeyW]);
    assert_eq!(c.control(Action::Backward).binds, vec![KeyCode::KeyS]);
    assert_eq!(c.control(Action::Left).binds, vec![KeyCode::KeyA]);
    assert_eq!(c.control(Action::Right).binds, vec![KeyCode::KeyD]);
    assert!(c.pending_moves().is_empty());
}

#[test]
fn keys_drive_their_controls() {
    let mut c = Controls::new();
    c.key_input(KeyCode::KeyW, true);
    assert!(c.forward.state);
    assert!(!c.backward.state && !c.left.state && !c.right.state);
    c.key_input(KeyCode::KeyD, true);
    assert_eq!(c.pending_moves(), vec![Action::Forward, Action::Right]);
    c.key_input(KeyCode::KeyS, true);
    c.key_input(KeyCode::KeyA, true);
    assert_eq!(
        c.pending_moves(),
        vec![Action::Forward, Action::Backward, Action::Left, Action::Right]
    );
}

#[test]
fn other_keys_change_nothing() {
    let mut c = Controls::new();
    c.key_input(KeyCode::KeyA, true);
    c.key_input(KeyCode::Other, true);
    c.key_input(KeyCode::Other, false);
    assert_eq!(c.pending_moves(), vec![Action::Left]);
    assert_eq!(c.control(Action::Left).binds, vec![KeyCode::KeyA]);
}

#[test]
fn last_key_event_wins() {
    let mut c = Controls::new();
    c.key_input(KeyCode::KeyS, true);
    c.key_input(KeyCode::KeyS, true);
    c.key_input(KeyCode::KeyS, false);
    assert!(!c.control(Action::Backward).state);
    assert!(c.pending_moves().is_empty());
}

#[test]
fn key_events_on_different_controls_commute() {
    let mut a = Controls::new();
    a.key_input(KeyCode::KeyW, true);
    a.key_input(KeyCode::KeyD, true);
    let mut b = Controls::new();
    b.key_input(KeyCode::KeyD, true);
    b.key_input(KeyCode::KeyW, true);
    assert_eq!(a.pending_moves(), b.pending_moves());
}
