use fluffy::app::{AppState, TerminalMode};
use fluffy::launch::{agent_target, apply_launch, parse_launch_args};

fn args(v: &[&str]) -> Vec<String> {
    v.iter().map(|s| s.to_string()).collect()
}

#[test]
fn default_is_admin() {
    let o = parse_launch_args(&args(&["fluffy"]));
    assert!(o.admin && !o.client);
    assert_eq!(o.port, 9000);
    assert_eq!(agent_target(&o), None);
}

#[test]
fn connect_implies_client() {
    let o = parse_launch_args(&args(&["fluffy", "--connect", "192.168.1.5", "--port", "7000"]));
    assert!(!o.admin && o.client);
    assert_eq!(o.connect.as_deref(), Some("192.168.1.5"));
    assert_eq!(o.port, 7000);
    assert_eq!(agent_target(&o).as_deref(), Some("192.168.1.5:7000"));
    let mut st = AppState::new();
    apply_launch(&mut st, &o);
    assert_eq!(st.mode, TerminalMode::Client);
    assert_eq!(st.admin_port, 7000);
    assert!(!st.server_active);
}

#[test]
fn odd_arguments() {
    let o = parse_launch_args(&args(&["fluffy", "--port", "notaport", "--admin", "--client", "--connect", "h:1", "--port"]));
    assert!(o.admin && o.client);
    assert_eq!(o.port, 9000);
    assert_eq!(agent_target(&o).as_deref(), Some("h:1"));
    let mut st = AppState::new();
    apply_launch(&mut st, &o);
    assert_eq!(st.mode, TerminalMode::Admin);
    assert!(st.server_active);
    let o = parse_launch_args(&args(&["fluffy", "--port", "70000"]));
    assert_eq!(o.port, 9000);
}
