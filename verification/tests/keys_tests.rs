use fluffy::app::{AppState, SCROLL_BOTTOM};
use fluffy::keys::{handle_key, handle_mouse, KeyCode, KeyPress, MouseEvent};

fn key(code: KeyCode) -> KeyPress {
    KeyPress { code, ctrl: false, shift: false }
}

fn type_text(st: &mut AppState, s: &str) {
    for c in s.chars() {
        assert_eq!(handle_key(st, key(KeyCode::Char(c))), None);
    }
}

#[test]
fn typing_and_submitting() {
    let mut st = AppState::new();
    type_text(&mut st, "lx");
    handle_key(&mut st, key(KeyCode::Left));
    type_text(&mut st, "s");
    handle_key(&mut st, key(KeyCode::Delete));
    assert_eq!(st.input_buffer, "ls");
    assert_eq!(st.cursor_pos, 2);
    type_text(&mut st, " /");
    assert_eq!(handle_key(&mut st, key(KeyCode::Enter)), Some("ls /".to_string()));
    assert_eq!(st.input_buffer, "");
    assert_eq!(st.cursor_pos, 0);
}

#[test]
fn backspace_home_end_escape() {
    let mut st = AppState::new();
    type_text(&mut st, "abc");
    handle_key(&mut st, key(KeyCode::Backspace));
    assert_eq!(st.input_buffer, "ab");
    handle_key(&mut st, key(KeyCode::Home));
    assert_eq!(st.cursor_pos, 0);
    handle_key(&mut st, key(KeyCode::End));
    assert_eq!(st.cursor_pos, 2);
    handle_key(&mut st, key(KeyCode::Esc));
    assert_eq!(st.input_buffer, "");
}

#[test]
fn ctrl_c_quits() {
    let mut st = AppState::new();
    handle_key(&mut st, KeyPress { code: KeyCode::Char('c'), ctrl: true, shift: false });
    assert!(st.should_quit);
}

#[test]
fn mouse_wheel_scrolls() {
    let mut st = AppState::new();
    for i in 0..5 {
        st.add_output("system", &format!("line {}", i), fluffy::app::LineColor::Text);
    }
    handle_mouse(&mut st, MouseEvent::ScrollUp);
    assert_eq!(st.scroll_offset, 4);
    handle_mouse(&mut st, MouseEvent::ScrollDown);
    assert_eq!(st.scroll_offset, SCROLL_BOTTOM);
}

#[test]
fn history_up_then_down_restores_typed_line() {
    let mut st = AppState::new();
    st.command_history.push("first".to_string());
    st.command_history.push("second".to_string());
    type_text(&mut st, "draft");
    assert_eq!(handle_key(&mut st, key(KeyCode::Up)), None);
    assert_eq!(st.input_buffer, "second");
    assert_eq!(st.cursor_pos, 6);
    handle_key(&mut st, key(KeyCode::Up));
    assert_eq!(st.input_buffer, "first");
    handle_key(&mut st, key(KeyCode::Up));
    assert_eq!(st.input_buffer, "first");
    handle_key(&mut st, key(KeyCode::Down));
    assert_eq!(st.input_buffer, "second");
    assert_eq!(handle_key(&mut st, key(KeyCode::Down)), None);
    assert_eq!(st.input_buffer, "draft");
    assert_eq!(st.cursor_pos, 5);
    assert_eq!(st.history_index, None);
}

#[test]
fn scrolling_up_and_down_returns_to_the_same_line() {
    let mut st = AppState::new();
    for i in 0..6 {
        st.add_output("system", &format!("line {}", i), fluffy::app::LineColor::Text);
    }
    handle_mouse(&mut st, MouseEvent::ScrollUp);
    handle_mouse(&mut st, MouseEvent::ScrollUp);
    let here = st.scroll_offset;
    assert_eq!(here, 4);
    handle_mouse(&mut st, MouseEvent::ScrollUp);
    handle_mouse(&mut st, MouseEvent::ScrollDown);
    assert_eq!(st.scroll_offset, here);
}
