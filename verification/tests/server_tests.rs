use fluffy::app::{AppState, ClientServiceStatus, LineColor, SCROLL_BOTTOM};
use fluffy::protocol::ClientHandshake;
use fluffy::server::{
    admin_address, agent_should_stop, listen_address, on_agent_event, on_link_closed, on_link_event, on_server_event,
    on_writer_ended, received_line, serialization_error_response, AgentEvent, LinkEvent, ServerEvent,
};

fn with_client(addr: &str) -> AppState {
    let mut st = AppState::new();
    let h = ClientHandshake {
        hostname: "pc".to_string(),
        os: "linux".to_string(),
        os_version: "6".to_string(),
        ip: "10.0.0.9".to_string(),
        arch: "x86_64".to_string(),
    };
    st.connect_client(addr.to_string(), &h);
    st
}

#[test]
fn received_lines_are_trimmed() {
    assert_eq!(received_line("  {\"id\":1}\r\n").as_deref(), Some("{\"id\":1}"));
    assert_eq!(received_line(" \n"), None);
}

#[test]
fn link_events_are_shown() {
    let mut st = AppState::new();
    on_link_event(&mut st, "1.2.3.4:5", "f1", LinkEvent::HandshakeInvalid("eof".to_string()));
    assert_eq!(st.output_lines.last().unwrap().text, "Invalid handshake from 1.2.3.4:5: eof");
    assert_eq!(st.output_lines.last().unwrap().tag, "system");
    on_link_event(&mut st, "1.2.3.4:5", "f1", LinkEvent::Response { output: "a\nb".to_string(), success: false });
    let n = st.output_lines.len();
    assert_eq!(st.output_lines[n - 2].text, "a");
    assert_eq!(st.output_lines[n - 1].text, "b");
    assert_eq!(st.output_lines[n - 1].color, LineColor::Error);
    on_link_event(&mut st, "x", "f1", LinkEvent::ResponseInvalid("bad".to_string()));
    assert_eq!(st.output_lines.last().unwrap().text, "Parse error from [f1]: bad");
    on_link_event(&mut st, "x", "f1", LinkEvent::ReadFailed("reset".to_string()));
    assert_eq!(st.output_lines.last().unwrap().text, "Read error from [f1]: reset");
    on_link_event(&mut st, "9.9.9.9:1", "f1", LinkEvent::HandshakeReadFailed("x".to_string()));
    assert_eq!(st.output_lines.last().unwrap().text, "Handshake read error from 9.9.9.9:1: x");
}

#[test]
fn closing_a_link_forgets_the_client() {
    let mut st = with_client("10.0.0.9:4000");
    st.alter_target = Some("f1".to_string());
    assert_eq!(on_link_closed(&mut st, "10.0.0.9:4000"), Some("f1".to_string()));
    assert!(st.clients.is_empty());
    assert_eq!(st.alter_target, None);
    assert_eq!(st.output_lines.last().unwrap().text, "Client [f1] disconnected.");
    let before = st.output_lines.len();
    assert_eq!(on_link_closed(&mut st, "10.0.0.9:4000"), None);
    assert_eq!(st.output_lines.len(), before);
}

#[test]
fn writer_end_forgets_the_client() {
    let mut st = with_client("a:1");
    on_writer_ended(&mut st, "a:1", "f1");
    assert!(st.clients.is_empty());
    assert_eq!(st.output_lines.last().unwrap().text, "Client [f1] writer disconnected.");
    assert_eq!(st.output_lines.last().unwrap().color, LineColor::Warning);
}

#[test]
fn server_events() {
    let mut st = AppState::new();
    assert_eq!(listen_address(9000), "0.0.0.0:9000");
    on_server_event(&mut st, ServerEvent::Listening);
    assert_eq!(st.output_lines.last().unwrap().text, "Fluffy admin server listening on port 9000");
    on_server_event(&mut st, ServerEvent::BindFailed("in use".to_string()));
    assert_eq!(st.output_lines.last().unwrap().text, "Failed to bind port 9000: in use");
    on_server_event(&mut st, ServerEvent::AcceptFailed("x".to_string()));
    assert_eq!(st.output_lines.last().unwrap().text, "Accept error: x");
    assert_eq!(st.scroll_offset, SCROLL_BOTTOM);
}

#[test]
fn agent_events() {
    assert_eq!(admin_address("192.168.1.100"), "192.168.1.100:9000");
    assert_eq!(admin_address("192.168.1.100:7000"), "192.168.1.100:7000");
    let mut st = AppState::new();
    let addr = admin_address("10.0.0.1");
    assert!(on_agent_event(&mut st, "10.0.0.1", &addr, AgentEvent::Connecting));
    assert_eq!(st.client_service_status, ClientServiceStatus::Connecting("10.0.0.1".to_string()));
    assert_eq!(st.client_output.last().unwrap().text, "Connecting to admin at 10.0.0.1:9000...");
    assert_eq!(st.client_output.last().unwrap().tag, "client");
    assert!(on_agent_event(&mut st, "10.0.0.1", &addr, AgentEvent::Connected));
    assert_eq!(st.client_service_status, ClientServiceStatus::Running("10.0.0.1".to_string()));
    assert!(on_agent_event(&mut st, "10.0.0.1", &addr, AgentEvent::BadCommand { error: "e".to_string(), line: "l".to_string() }));
    assert_eq!(st.client_output.last().unwrap().text, "Failed to parse command: e. Raw: l");
    assert!(!agent_should_stop(&st));
    assert!(!on_agent_event(&mut st, "10.0.0.1", &addr, AgentEvent::Disconnected));
    assert!(agent_should_stop(&st));
    assert!(!on_agent_event(&mut st, "10.0.0.1", &addr, AgentEvent::ConnectFailed("refused".to_string())));
    assert_eq!(st.client_output.last().unwrap().text, "Failed to connect to 10.0.0.1:9000: refused");
    assert_eq!(st.client_service_status, ClientServiceStatus::Error("refused".to_string()));
    assert!(st.output_lines.is_empty());
    let r = serialization_error_response(7, "boom");
    assert_eq!(r.id, 7);
    assert_eq!(r.output, "Internal serialization error: boom");
    assert!(!r.success);
}

#[test]
fn closing_forgets_the_address_and_the_target() {
    let mut st = with_client("10.0.0.9:4000");
    let h = ClientHandshake {
        hostname: "pc2".to_string(),
        os: "linux".to_string(),
        os_version: "6".to_string(),
        ip: "10.0.0.9".to_string(),
        arch: "x86_64".to_string(),
    };
    // The same address connecting again replaces its client.
    assert_eq!(st.connect_client("10.0.0.9:4000".to_string(), &h), "f2");
    assert_eq!(st.clients.len(), 1);
    st.alter_target = Some("f2".to_string());
    st.command_history.push("ls".to_string());
    assert_eq!(on_link_closed(&mut st, "10.0.0.9:4000"), Some("f2".to_string()));
    assert!(st.clients.iter().all(|(a, _)| a != "10.0.0.9:4000"));
    assert_eq!(st.alter_target, None);
    assert_eq!(st.client_counter, 2);
    assert_eq!(st.command_history, vec!["ls".to_string()]);
    assert_eq!(on_link_closed(&mut st, "10.0.0.9:4000"), None);
}
