use fluffy::app::{AppState, LineColor};
use fluffy::manager::{
    broadcast_plan, client_list_entries, finish_broadcast, order_by_tag, report_broadcast_failure, report_delivery,
    rolecall, serialize_failure,
};
use fluffy::protocol::ClientHandshake;

fn state_with(n: usize) -> AppState {
    let mut st = AppState::new();
    for i in 0..n {
        let h = ClientHandshake {
            hostname: format!("host-{}", i + 1),
            os: "linux".to_string(),
            os_version: "6.1".to_string(),
            ip: format!("10.0.0.{}", i + 1),
            arch: "x86_64".to_string(),
        };
        st.connect_client(format!("10.0.0.{}:4000", i + 1), &h);
    }
    st
}

#[test]
fn rolecall_empty() {
    assert_eq!(rolecall(&AppState::new()), "No clients connected.");
}

#[test]
fn rolecall_sorted_by_tag_as_text() {
    let st = state_with(10);
    let order = order_by_tag(&st.clients);
    let tags: Vec<&str> = order.iter().map(|&i| st.clients[i].1.tag.as_str()).collect();
    assert_eq!(tags, vec!["f1", "f10", "f2", "f3", "f4", "f5", "f6", "f7", "f8", "f9"]);
    let out = rolecall(&st);
    let lines: Vec<&str> = out.lines().collect();
    assert_eq!(lines[0], format!("  {:<6} {:<20} {:<16} {:<12} {:<10} {}", "TAG", "HOSTNAME", "IP", "OS", "ARCH", "CONNECTED"));
    assert_eq!(lines[1], format!("  {}", "─".repeat(75)));
    let c = &st.clients[0].1;
    assert_eq!(
        lines[2],
        format!("  {:<6} {:<20} {:<16} {:<12} {:<10} {}", "f1", "host-1", "10.0.0.1", "linux 6.1", "x86_64", c.connected_at)
    );
    assert!(lines[3].starts_with("  f10    host-10"));
    assert_eq!(*lines.last().unwrap(), "  Total: 10 client(s) connected");
}

#[test]
fn rolecall_truncates_long_names() {
    let mut st = AppState::new();
    let h = ClientHandshake {
        hostname: "a-very-long-hostname-indeed".to_string(),
        os: "windows".to_string(),
        os_version: "10.0.19045".to_string(),
        ip: "1.1.1.1".to_string(),
        arch: "x86_64".to_string(),
    };
    st.connect_client("x:1".to_string(), &h);
    let out = rolecall(&st);
    assert!(out.contains("a-very-long-hostn…"));
    assert!(out.contains("windows 1…"));
}

#[test]
fn deliveries() {
    let mut st = state_with(1);
    assert_eq!(report_delivery(&mut st, "f1", Some(true)), Ok(()));
    assert_eq!(
        report_delivery(&mut st, "f1", Some(false)),
        Err("Client [f1] disconnected before command could be sent.".to_string())
    );
    assert_eq!(st.output_lines.last().unwrap().tag, "f1");
    assert_eq!(
        report_delivery(&mut st, "f7", None),
        Err("Client [f7] not found. Use 'rolecall' to see connected clients.".to_string())
    );
    assert_eq!(st.output_lines.last().unwrap().tag, "system");
    assert_eq!(st.output_lines.last().unwrap().color, LineColor::Error);
    assert_eq!(serialize_failure("x"), "Failed to serialize command: x");
}

#[test]
fn broadcasts() {
    let mut st = state_with(3);
    st.command_id_counter = 5;
    let plan = broadcast_plan(&st);
    let ids: Vec<u64> = plan.iter().map(|p| p.1).collect();
    assert_eq!(ids, vec![6, 7, 8]);
    assert_eq!(plan[0].0, "f1");
    report_broadcast_failure(&mut st, "f2");
    assert_eq!(st.output_lines.last().unwrap().text, "Failed to send broadcast to [f2]");
    finish_broadcast(&mut st, 5, 3, 2, "hi");
    assert_eq!(st.command_id_counter, 9);
    assert_eq!(st.output_lines.last().unwrap().text, "Broadcast sent to 2 clients: \"hi\"");
}

#[test]
fn client_list() {
    let mut st = state_with(2);
    st.alter_target = Some("f2".to_string());
    let entries = client_list_entries(&st);
    assert_eq!(entries, vec![("f1".to_string(), "host-1".to_string(), false), ("f2".to_string(), "host-2".to_string(), true)]);
}
