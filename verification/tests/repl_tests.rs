use fluffy::app::{AppState, LineColor};
use fluffy::commands::Command;
use fluffy::protocol::ClientHandshake;
use fluffy::repl::{history_text, process_input, ReplEffect};

fn with_f1() -> AppState {
    let mut st = AppState::new();
    let h = ClientHandshake {
        hostname: "pc1".to_string(),
        os: "linux".to_string(),
        os_version: "6".to_string(),
        ip: "10.0.0.2".to_string(),
        arch: "x86_64".to_string(),
    };
    st.connect_client("10.0.0.2:5000".to_string(), &h);
    st
}

fn last_text(st: &AppState) -> String {
    st.output_lines.last().unwrap().text.clone()
}

#[test]
fn empty_and_quit() {
    let mut st = AppState::new();
    assert!(matches!(process_input(&mut st, "   "), ReplEffect::Done));
    assert!(st.command_history.is_empty());
    assert!(matches!(process_input(&mut st, " exit "), ReplEffect::Done));
    assert!(st.should_quit);
    assert_eq!(st.command_history, vec!["exit".to_string()]);
}

#[test]
fn rerun_and_history() {
    let mut st = AppState::new();
    assert!(matches!(process_input(&mut st, "!!"), ReplEffect::Done));
    assert_eq!(last_text(&st), "No commands in history.");
    process_input(&mut st, "pwd");
    match process_input(&mut st, "!!") {
        ReplEffect::Rerun(c) => assert_eq!(c, "pwd"),
        _ => panic!("expected a rerun"),
    }
    assert_eq!(last_text(&st), "Re-running: pwd");
    process_input(&mut st, "history");
    let n = st.output_lines.len();
    assert_eq!(st.output_lines[n - 4].text, "  1. !!");
    assert_eq!(st.output_lines[n - 3].text, "  2. pwd");
    assert_eq!(st.output_lines[n - 1].text, "  4. history");
    assert_eq!(history_text(&vec!["a".to_string(), "b".to_string()]), "  1. a\n  2. b");
}

#[test]
fn clean_help_rolecall() {
    let mut st = AppState::new();
    st.add_output("system", "x", LineColor::Text);
    process_input(&mut st, "clean");
    assert!(st.output_lines.is_empty());
    assert_eq!(st.scroll_offset, 0);
    process_input(&mut st, "fluffy --help");
    assert!(st.show_help);
    assert!(matches!(process_input(&mut st, "rolecall"), ReplEffect::Rolecall));
}

#[test]
fn alter_mode_routes_commands() {
    let mut st = with_f1();
    process_input(&mut st, "f alter f9");
    assert_eq!(last_text(&st), "Client [f9] not found. Use 'rolecall' to see connected clients.");
    process_input(&mut st, "f alter f1");
    assert_eq!(st.alter_target.as_deref(), Some("f1"));
    assert_eq!(last_text(&st), "Alter mode set to [f1]. All commands will target this client.");
    match process_input(&mut st, "sysinfo") {
        ReplEffect::Send { tag, command } => {
            assert_eq!(tag, "f1");
            assert!(matches!(command, Command::Sysinfo));
        }
        _ => panic!("expected a send"),
    }
    assert_eq!(last_text(&st), "[f1] sysinfo");
    process_input(&mut st, "f alter off");
    assert_eq!(st.alter_target, None);
    match process_input(&mut st, "sysinfo") {
        ReplEffect::Local(s) => assert_eq!(s, "sysinfo"),
        _ => panic!("expected local execution"),
    }
}

#[test]
fn tagged_commands() {
    let mut st = with_f1();
    match process_input(&mut st, "f1 kill 42") {
        ReplEffect::Send { tag, command } => {
            assert_eq!(tag, "f1");
            assert!(matches!(command, Command::Kill { pid: 42 }));
        }
        _ => panic!("expected a send"),
    }
    assert!(matches!(process_input(&mut st, "f2 ls"), ReplEffect::Done));
    assert_eq!(last_text(&st), "Client [f2] not found.");
    assert!(matches!(process_input(&mut st, "f1 frobnicate"), ReplEffect::Done));
}

#[test]
fn broadcast_messages() {
    let mut st = AppState::new();
    match process_input(&mut st, "broadcast \"lunch time\"") {
        ReplEffect::Broadcast(m) => assert_eq!(m, "lunch time"),
        _ => panic!("expected a broadcast"),
    }
    assert!(matches!(process_input(&mut st, "broadcast \"\""), ReplEffect::Done));
    assert_eq!(last_text(&st), "Usage: broadcast \"message\"");
}
