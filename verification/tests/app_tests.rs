use fluffy::app::{AppState, LineColor, TerminalMode, SCROLL_BOTTOM};
use fluffy::protocol::{ClientHandshake, DEFAULT_PORT};

fn handshake(host: &str) -> ClientHandshake {
    ClientHandshake {
        hostname: host.to_string(),
        os: "linux".to_string(),
        os_version: "22.04".to_string(),
        ip: "10.0.0.5".to_string(),
        arch: "x86_64".to_string(),
    }
}

#[test]
fn new_state_defaults() {
    let st = AppState::new();
    assert!(st.clients.is_empty());
    assert_eq!(st.scroll_offset, SCROLL_BOTTOM);
    assert_eq!(st.mode, TerminalMode::Admin);
    assert_eq!(st.admin_port, DEFAULT_PORT);
    assert_eq!(DEFAULT_PORT, 9000);
    assert_eq!(st.prompt(), "fluffy> ");
}

#[test]
fn tags_and_ids_count_up() {
    let mut st = AppState::new();
    assert_eq!(st.next_client_tag(), "f1");
    assert_eq!(st.next_client_tag(), "f2");
    assert_eq!(st.next_command_id(), 1);
    assert_eq!(st.next_command_id(), 2);
}

#[test]
fn add_output_splits_lines() {
    let mut st = AppState::new();
    st.scroll_offset = 3;
    st.add_output("system", "one\ntwo\r\nthree\n", LineColor::Text);
    let texts: Vec<&str> = st.output_lines.iter().map(|l| l.text.as_str()).collect();
    assert_eq!(texts, vec!["one", "two", "three"]);
    assert!(st.output_lines.iter().all(|l| l.tag == "system" && l.timestamp.len() == 8));
    assert_eq!(st.scroll_offset, SCROLL_BOTTOM);
    st.add_client_output("client", "x", LineColor::Dim);
    assert_eq!(st.client_output.len(), 1);
}

#[test]
fn connect_find_and_remove_clients() {
    let mut st = AppState::new();
    let t1 = st.connect_client("10.0.0.5:5000".to_string(), &handshake("pc1"));
    let t2 = st.connect_client("10.0.0.6:5000".to_string(), &handshake("pc2"));
    assert_eq!((t1.as_str(), t2.as_str()), ("f1", "f2"));
    assert_eq!(st.output_lines.last().unwrap().text, "Client [f2] connected: pc2 (linux 22.04) at 10.0.0.5");
    let (addr, c) = st.find_client_by_tag("f2").unwrap();
    assert_eq!(addr, "10.0.0.6:5000");
    assert_eq!(c.hostname, "pc2");
    assert!(st.find_client_by_tag("f9").is_none());
    st.alter_target = Some("f1".to_string());
    assert_eq!(st.prompt(), "fluffy [f1]> ");
    assert_eq!(st.remove_client("10.0.0.5:5000"), Some("f1".to_string()));
    assert_eq!(st.alter_target, None);
    assert_eq!(st.remove_client("10.0.0.5:5000"), None);
    assert_eq!(st.clients.len(), 1);
}

#[test]
fn reconnect_from_same_address_replaces() {
    let mut st = AppState::new();
    st.connect_client("a:1".to_string(), &handshake("old"));
    let t = st.connect_client("a:1".to_string(), &handshake("new"));
    assert_eq!(t, "f2");
    assert_eq!(st.clients.len(), 1);
    assert_eq!(st.clients[0].1.hostname, "new");
}
