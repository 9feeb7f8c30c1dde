use fluffy::app::AppState;
use fluffy::ui::{get_help_text, help_lines, status_bar_text, FluffyStatusBar, TextStyle};

#[test]
fn help_overlay_lines() {
    let lines = help_lines();
    assert_eq!(lines.len(), get_help_text().lines().count());
    assert_eq!(lines[0], vec![(String::new(), TextStyle::Text)]);
    // the double rules start with spaces, so they are plain text
    assert_eq!(lines[1][0].1, TextStyle::Text);
    assert_eq!(lines[3][0].1, TextStyle::Brand);
    assert_eq!(lines[2], vec![("  ADMIN COMMANDS (run locally)".to_string(), TextStyle::Brand)]);
    assert_eq!(
        lines[5],
        vec![
            ("  rolecall            ".to_string(), TextStyle::Highlight),
            ("→".to_string(), TextStyle::Dim),
            (" List all connected clients".to_string(), TextStyle::Text),
        ]
    );
    assert_eq!(lines.last().unwrap()[2].0, " Scroll output (fast)");
}

#[test]
fn fluffy_status_bar() {
    let bar = FluffyStatusBar::new(vec![("Mode", "admin".to_string()), ("Port", "9000".to_string())]);
    let text = bar.bar_text(60);
    assert!(text.starts_with(" FLUFFY   │  Mode: admin  │  Port: 9000"));
    assert_eq!(text.len(), 60);
    let narrow = bar.bar_text(10);
    assert_eq!(narrow, " FLUFFY   │  Mode: admin  │  Port: 9000");
}

#[test]
fn status_bar_shows_target() {
    let mut st = AppState::new();
    let text = status_bar_text(&st, "12:00:00", 0);
    assert_eq!(text, " FLUFFY   │  Target: local  │  0 online  │  12:00:00");
    st.alter_target = Some("f3".to_string());
    let text = status_bar_text(&st, "12:00:00", 70);
    assert!(text.starts_with(" FLUFFY   │  Target: f3 [?]  │  0 online  │  12:00:00"));
    assert_eq!(text.len(), 70);
}
