use trinity::mouse::{MouseInput, MouseState};

#[test]
fn press_move_release_is_a_selection() {
    let mut state = MouseState::new();
    state.down();
    state.moving();
    state.moving();
    state.release();
    assert!(state.is_select());
    assert!(!state.is_select());
}

#[test]
fn click_without_move_is_not_a_selection() {
    let mut state = MouseState::default();
    state.down();
    state.release();
    assert!(!state.is_select());
    state.moving();
    state.release();
    assert!(!state.is_select());
}

#[test]
fn apply_follows_the_same_gesture() {
    let mut state = MouseState::new();
    for input in [MouseInput::Moving, MouseInput::Down, MouseInput::Moving, MouseInput::Release] {
        state.apply(input);
    }
    assert!(state.is_select());
}
