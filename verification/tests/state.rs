use textview::state::{
    ControlFlow, ElementState, Event, MouseScrollDelta, Position, State, TouchPhase, VirtualKeyCode,
    WindowEvent,
};

fn key(code: Option<VirtualKeyCode>) -> Event {
    Event::WindowEvent(WindowEvent::KeyboardInput { virtual_keycode: code, state: ElementState::Pressed })
}

fn scroll(upward: bool, lines: usize, phase: TouchPhase) -> Event {
    Event::WindowEvent(WindowEvent::MouseWheel {
        delta: MouseScrollDelta::LineDelta { upward, lines },
        phase,
    })
}

#[test]
fn new_state_is_at_top_left() {
    let state = State::new();
    assert_eq!(state.get_position(), Position { row: 0, column: 0 });
}

#[test]
fn escape_exits() {
    let mut state = State::new();
    assert_eq!(state.handle_event(&key(Some(VirtualKeyCode::Escape))), Some(ControlFlow::Exit));
    let released = Event::WindowEvent(WindowEvent::KeyboardInput {
        virtual_keycode: Some(VirtualKeyCode::Escape),
        state: ElementState::Released,
    });
    assert_eq!(state.handle_event(&released), Some(ControlFlow::Exit));
}

#[test]
fn close_request_exits() {
    let mut state = State::new();
    assert_eq!(state.handle_event(&Event::WindowEvent(WindowEvent::CloseRequested)), Some(ControlFlow::Exit));
}

#[test]
fn other_keys_leave_the_loop_alone() {
    let mut state = State::new();
    assert_eq!(state.handle_event(&key(Some(VirtualKeyCode::Other))), None);
}

#[test]
fn key_without_code_waits() {
    let mut state = State::new();
    assert_eq!(state.handle_event(&key(None)), Some(ControlFlow::Wait));
}

#[test]
fn other_window_events_wait() {
    let mut state = State::new();
    assert_eq!(state.handle_event(&Event::WindowEvent(WindowEvent::Other)), Some(ControlFlow::Wait));
    let pixels = Event::WindowEvent(WindowEvent::MouseWheel {
        delta: MouseScrollDelta::PixelDelta,
        phase: TouchPhase::Moved,
    });
    assert_eq!(state.handle_event(&pixels), Some(ControlFlow::Wait));
    assert_eq!(state.handle_event(&scroll(false, 2, TouchPhase::Started)), Some(ControlFlow::Wait));
    assert_eq!(state.get_position().row, 0);
}

#[test]
fn non_window_events_change_nothing() {
    let mut state = State::new();
    assert_eq!(state.handle_event(&Event::Other), None);
    assert_eq!(state.get_position(), Position { row: 0, column: 0 });
}

#[test]
fn scrolling_down_moves_three_rows_per_line() {
    let mut state = State::new();
    assert_eq!(state.handle_event(&scroll(false, 2, TouchPhase::Moved)), None);
    assert_eq!(state.get_position(), Position { row: 6, column: 0 });
    state.handle_event(&scroll(false, 1, TouchPhase::Moved));
    assert_eq!(state.get_position().row, 9);
}

#[test]
fn scrolling_up_stops_at_the_top() {
    let mut state = State::new();
    state.handle_event(&scroll(false, 1, TouchPhase::Moved));
    state.handle_event(&scroll(true, 5, TouchPhase::Moved));
    assert_eq!(state.get_position().row, 0);
}

#[test]
fn scroll_down_then_up_returns() {
    let mut state = State::new();
    state.handle_event(&scroll(false, 4, TouchPhase::Moved));
    state.handle_event(&scroll(false, 3, TouchPhase::Moved));
    state.handle_event(&scroll(true, 3, TouchPhase::Moved));
    assert_eq!(state.get_position().row, 12);
    state.handle_event(&scroll(true, 4, TouchPhase::Moved));
    assert_eq!(state.get_position().row, 0);
}

#[test]
fn scrolling_past_the_largest_row_wraps_to_the_top() {
    let mut state = State::new();
    state.handle_event(&scroll(false, usize::MAX / 3, TouchPhase::Moved));
    assert_eq!(state.get_position().row, usize::MAX / 3 * 3);
    state.handle_event(&scroll(false, 1, TouchPhase::Moved));
    assert_eq!(state.get_position().row, 0);
}

#[test]
fn zero_line_scroll_keeps_row() {
    let mut state = State::new();
    state.handle_event(&scroll(false, 2, TouchPhase::Moved));
    state.handle_event(&scroll(true, 0, TouchPhase::Moved));
    state.handle_event(&scroll(false, 0, TouchPhase::Moved));
    assert_eq!(state.get_position().row, 6);
}
