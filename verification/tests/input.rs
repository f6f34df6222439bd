use prism::config::WindowConfig;
use prism::input::{
    handle_input_event, ElementState, InputAction, KeyCode, MouseButton, PointerState, TouchPhase,
    WindowEvent,
};

type Event = WindowEvent<(i32, i32), i32>;

fn fresh() -> PointerState {
    PointerState { pointer_locked: false, focus_return_click: false, alt_temp_release: false }
}

fn send(st: &mut PointerState, event: Event) -> Vec<InputAction<(i32, i32), i32>> {
    handle_input_event(st, event)
}

fn left_down() -> Event {
    WindowEvent::MouseInput { state: ElementState::Pressed, button: MouseButton::Left }
}

fn key(key: KeyCode, state: ElementState) -> Event {
    WindowEvent::Keyboard { key, state }
}

#[test]
fn close_exits() {
    let mut st = fresh();
    assert_eq!(send(&mut st, WindowEvent::CloseRequested), vec![InputAction::Exit]);
}

#[test]
fn click_grabs_the_pointer() {
    let mut st = fresh();
    let actions = send(&mut st, left_down());
    assert!(st.pointer_locked);
    assert_eq!(actions[0], InputAction::GrabPointer);
    assert_eq!(actions[1], InputAction::SetLocked(true));
}

#[test]
fn first_click_after_focus_only_returns() {
    let mut st = fresh();
    send(&mut st, WindowEvent::Focused(true));
    assert!(st.focus_return_click);
    send(&mut st, left_down());
    assert!(!st.pointer_locked);
    send(&mut st, left_down());
    assert!(st.pointer_locked);
}

#[test]
fn losing_focus_unlocks() {
    let mut st = fresh();
    send(&mut st, left_down());
    let actions = send(&mut st, WindowEvent::Focused(false));
    assert!(!st.pointer_locked);
    assert_eq!(actions, vec![InputAction::ReleasePointer, InputAction::SetLocked(false)]);
}

#[test]
fn escape_unlocks_the_pointer() {
    let mut st = fresh();
    send(&mut st, left_down());
    let actions = send(&mut st, key(KeyCode::Escape, ElementState::Pressed));
    assert!(!st.pointer_locked);
    assert!(actions.contains(&InputAction::ReleasePointer));
}

#[test]
fn alt_lets_go_for_a_while() {
    let mut st = fresh();
    send(&mut st, left_down());
    let down = send(&mut st, key(KeyCode::AltLeft, ElementState::Pressed));
    assert!(!st.pointer_locked);
    assert!(st.alt_temp_release);
    assert!(down.contains(&InputAction::ReleasePointer));
    let up = send(&mut st, key(KeyCode::AltLeft, ElementState::Released));
    assert!(st.pointer_locked);
    assert!(!st.alt_temp_release);
    assert!(up.contains(&InputAction::GrabPointer));
}

#[test]
fn wheel_and_cursor_are_passed_on() {
    let mut st = fresh();
    assert_eq!(send(&mut st, WindowEvent::MouseWheel(3)), vec![InputAction::Scroll(3)]);
    let moved = send(&mut st, WindowEvent::CursorMoved((4, 5)));
    assert!(moved.contains(&InputAction::MouseMove((4, 5))));
    let touch = send(
        &mut st,
        WindowEvent::Touch { phase: TouchPhase::Started, position: (1, 2) },
    );
    assert!(!touch.is_empty());
    assert!(send(&mut st, WindowEvent::Unhandled).is_empty());
}

#[test]
fn limits_need_both_sides() {
    let mut config = WindowConfig::default();
    assert_eq!(config.limits().min_size, None);
    config.min_width = Some(100);
    assert_eq!(config.limits().min_size, None);
    config.min_height = Some(50);
    assert_eq!(config.limits().min_size, Some((100, 50)));
    config.position_x = Some(-4);
    config.position_y = Some(9);
    assert_eq!(config.limits().position, Some((-4, 9)));
    assert_eq!(config.limits().max_size, None);
}
