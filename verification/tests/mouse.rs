use minal::mouse::MouseState;

#[test]
fn test_register_click_single() {
    let mut state = MouseState::new();
    let count = state.register_click(5, 5);
    assert_eq!(count, 1);
}

#[test]
fn test_register_click_double() {
    let mut state = MouseState::new();
    state.register_click(5, 5);
    let count = state.register_click(5, 5);
    assert_eq!(count, 2);
}

#[test]
fn test_register_click_triple() {
    let mut state = MouseState::new();
    state.register_click(5, 5);
    state.register_click(5, 5);
    let count = state.register_click(5, 5);
    assert_eq!(count, 3);
}

#[test]
fn test_register_click_wraps_after_triple() {
    let mut state = MouseState::new();
    state.register_click(5, 5);
    state.register_click(5, 5);
    state.register_click(5, 5);
    let count = state.register_click(5, 5);
    assert_eq!(count, 1);
}

#[test]
fn test_register_click_resets_on_distance() {
    let mut state = MouseState::new();
    state.register_click(5, 5);
    let count = state.register_click(50, 50);
    assert_eq!(count, 1);
}

#[test]
fn record_click_slow_click_starts_over() {
    let mut state = MouseState::new();
    let now = std::time::Instant::now();
    assert_eq!(state.record_click(1, 1, now, 10), 1);
    assert_eq!(state.record_click(2, 2, now, 499), 2);
    assert_eq!(state.record_click(2, 2, now, 500), 1);
    assert_eq!(state.last_click_pos, (2, 2));
}
