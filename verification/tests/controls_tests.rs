use hex_terrain::controls::{ControlState, EventType, Key, Thrust};

fn pressed(state: &ControlState) -> Vec<Key> {
    let mut iter = state.pressed_iter();
    let mut out = Vec::new();
    while let Some(k) = iter.next() {
        out.push(k);
    }
    out
}

#[test]
fn key_codes() {
    assert_eq!(Key::W.code(), 1);
    assert_eq!(Key::A.code(), 2);
    assert_eq!(Key::S.code(), 3);
    assert_eq!(Key::D.code(), 4);
}

#[test]
fn key_from_code() {
    assert_eq!(Key::from_u8(1), Some(Key::W));
    assert_eq!(Key::from_u8(2), Some(Key::A));
    assert_eq!(Key::from_u8(3), Some(Key::S));
    assert_eq!(Key::from_u8(4), Some(Key::D));
    assert_eq!(Key::from_u8(0), None);
    assert_eq!(Key::from_u8(5), None);
    assert_eq!(Key::from_u8(255), None);
}

#[test]
fn new_state_holds_nothing() {
    let state = ControlState::new();
    assert!(!state.is_pressed(Key::W));
    assert!(!state.is_pressed(Key::A));
    assert!(!state.is_pressed(Key::S));
    assert!(!state.is_pressed(Key::D));
    assert!(pressed(&state).is_empty());
}

#[test]
fn press_and_release() {
    let mut state = ControlState::new();
    state.press(Key::S);
    assert!(state.is_pressed(Key::S));
    assert!(!state.is_pressed(Key::W));
    state.press(Key::W);
    state.press(Key::S);
    assert!(state.is_pressed(Key::S));
    assert!(state.is_pressed(Key::W));
    state.release(Key::S);
    assert!(!state.is_pressed(Key::S));
    assert!(state.is_pressed(Key::W));
    state.release(Key::D);
    assert!(state.is_pressed(Key::W));
}

#[test]
fn pressed_keys_come_in_code_order() {
    let mut state = ControlState::new();
    state.press(Key::D);
    state.press(Key::A);
    state.press(Key::W);
    assert_eq!(pressed(&state), vec![Key::W, Key::A, Key::D]);
    state.release(Key::A);
    assert_eq!(pressed(&state), vec![Key::W, Key::D]);
}

#[test]
fn pass_keeps_what_was_held_when_it_was_made() {
    let mut state = ControlState::new();
    state.press(Key::A);
    let mut iter = state.pressed_iter();
    state.release(Key::A);
    assert_eq!(iter.next(), Some(Key::A));
    assert_eq!(iter.next(), None);
    assert_eq!(iter.next(), None);
}

#[test]
fn event_from_code() {
    assert_eq!(EventType::from_u8(1), Some(EventType::KeyDown));
    assert_eq!(EventType::from_u8(2), Some(EventType::KeyUp));
    assert_eq!(EventType::from_u8(3), Some(EventType::MouseMove));
    assert_eq!(EventType::from_u8(0), None);
    assert_eq!(EventType::from_u8(4), None);
}

#[test]
fn key_events_press_and_release() {
    let mut state = ControlState::new();
    state.handle_key_event(1, 3);
    assert!(state.is_pressed(Key::S));
    state.handle_key_event(1, 1);
    assert_eq!(pressed(&state), vec![Key::W, Key::S]);
    state.handle_key_event(2, 3);
    assert_eq!(pressed(&state), vec![Key::W]);
    state.handle_key_event(2, 4);
    assert_eq!(pressed(&state), vec![Key::W]);
}

#[test]
fn other_events_and_keys_change_nothing() {
    let mut state = ControlState::new();
    state.press(Key::D);
    state.handle_key_event(3, 4);
    state.handle_key_event(0, 4);
    state.handle_key_event(9, 1);
    state.handle_key_event(1, 0);
    state.handle_key_event(1, 5);
    state.handle_key_event(2, 7);
    assert_eq!(pressed(&state), vec![Key::D]);
}

#[test]
fn thrust_prefers_forward() {
    let mut state = ControlState::new();
    assert_eq!(state.thrust(), Thrust::Idle);
    state.press(Key::A);
    state.press(Key::D);
    assert_eq!(state.thrust(), Thrust::Idle);
    state.press(Key::S);
    assert_eq!(state.thrust(), Thrust::Backward);
    state.press(Key::W);
    assert_eq!(state.thrust(), Thrust::Forward);
    state.release(Key::S);
    assert_eq!(state.thrust(), Thrust::Forward);
    state.release(Key::W);
    assert_eq!(state.thrust(), Thrust::Idle);
}

#[test]
fn keys_come_in_code_order_whatever_the_order_of_pressing() {
    let mut state = ControlState::new();
    state.press(Key::D);
    state.press(Key::W);
    let mut iter = state.pressed_iter();
    assert_eq!(iter.next(), Some(Key::W));
    assert_eq!(iter.next(), Some(Key::D));
    assert_eq!(iter.next(), None);
    assert_eq!(iter.next(), None);
}

#[test]
fn the_pass_yields_exactly_the_held_keys() {
    let keys = [Key::W, Key::A, Key::S, Key::D];
    for mask in 0..16u8 {
        let mut state = ControlState::new();
        for (i, k) in keys.iter().enumerate().rev() {
            if mask & (1 << i) != 0 {
                state.press(*k);
            }
        }
        let expected: Vec<Key> = keys.iter().copied().filter(|k| state.is_pressed(*k)).collect();
        assert_eq!(expected.len(), mask.count_ones() as usize);
        assert_eq!(pressed(&state), expected);
    }
}
