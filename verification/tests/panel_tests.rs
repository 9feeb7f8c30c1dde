use fluffy::app::{AppState, LineColor, SCROLL_BOTTOM};
use fluffy::panel::{cursor_cell, cursor_position, panel_scroll, panel_widths, tag_color, Area};

fn area(w: u16, h: u16) -> Area {
    Area { x: 10, y: 5, width: w, height: h }
}

#[test]
fn widths_of_ascii_text() {
    let mut st = AppState::new();
    st.add_output("local", "ls\tx", LineColor::Text);
    st.input_buffer = "ab\tc".to_string();
    st.cursor_pos = 3;
    let w = panel_widths(&st);
    assert_eq!(w.lines, vec![(8, 8, 7)]);
    assert_eq!(w.prompt, 8);
    assert_eq!(w.input, 7);
    assert_eq!(w.before_cursor, 6);
}

#[test]
fn cursor_follows_the_prompt() {
    let mut st = AppState::new();
    // each line: "HH:MM:SS" + 1 + "[system] " + text
    st.add_output("system", "hello", LineColor::Text);
    st.input_buffer = "pwd".to_string();
    st.cursor_pos = 3;
    // width 42 → 40 columns inside the border; one row per line
    assert_eq!(cursor_position(&st, area(42, 10)), Some((10 + 1 + 11, 5 + 1 + 1)));
    // no room inside the border
    assert_eq!(cursor_position(&st, area(2, 10)), Some((11, 6)));
    // scrolled up so that the prompt row is out of view
    st.scroll_offset = 0;
    assert_eq!(cursor_position(&st, area(42, 3)), Some((0, 0)));
    st.scroll_offset = SCROLL_BOTTOM;
    assert_eq!(cursor_position(&st, area(42, 3)), Some((22, 6)));
}

#[test]
fn wrapping_and_scroll() {
    let mut st = AppState::new();
    st.add_output("f1", &"x".repeat(30), LineColor::Text);
    let w = panel_widths(&st);
    // 8 + 1 + 5 + 30 = 44 columns in 20 → 3 rows, prompt 1 row; 4 rows in a view of 2
    assert_eq!(panel_scroll(&w, area(22, 4), SCROLL_BOTTOM), 2);
    assert_eq!(panel_scroll(&w, area(22, 4), 1), 1);
    assert_eq!(panel_scroll(&w, area(22, 4), 9), 2);
    assert_eq!(cursor_cell(&w, area(22, 4), SCROLL_BOTTOM), (10 + 1 + 8, 5 + 1 + 1));
}

#[test]
fn tag_colors() {
    assert_eq!(tag_color("local"), LineColor::LocalTag);
    assert_eq!(tag_color("system"), LineColor::Brand);
    assert_eq!(tag_color("f1"), LineColor::ClientTag);
}

#[test]
fn hidden_cursor_at_the_screen_edge() {
    let mut st = AppState::new();
    st.add_output("system", "hello", LineColor::Text);
    st.input_buffer = "pwd".to_string();
    st.cursor_pos = 3;
    // No rows inside the border: the cursor is hidden, nothing is added.
    let top = Area { x: 10, y: u16::MAX, width: 42, height: 0 };
    assert_eq!(cursor_position(&st, top), Some((0, 0)));
    let right = Area { x: u16::MAX, y: 5, width: 42, height: 1 };
    assert_eq!(cursor_position(&st, right), Some((0, 0)));
    // No room inside: the next column would not fit.
    let narrow = Area { x: u16::MAX, y: 5, width: 2, height: 10 };
    assert_eq!(cursor_position(&st, narrow), None);
}
