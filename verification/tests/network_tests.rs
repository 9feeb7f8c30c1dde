use fluffy::handlers::ProcessOutcome;
use fluffy::network::{dns_from_resolv, gateway_from_route, handle_netinfo, public_ip, NetInterface};

#[test]
fn gateway_is_third_word() {
    assert_eq!(gateway_from_route(Some("default via 192.168.1.1 dev eth0 proto dhcp\n")), "192.168.1.1");
    assert_eq!(gateway_from_route(Some("  default\tvia  10.0.0.1")), "10.0.0.1");
    assert_eq!(gateway_from_route(Some("")), "Unknown");
    assert_eq!(gateway_from_route(Some("default via")), "Unknown");
    assert_eq!(gateway_from_route(None), "Unknown");
}

#[test]
fn dns_servers_joined() {
    let conf = "# comment\nnameserver 8.8.8.8\nsearch lan\nnameserver 1.1.1.1 extra\nnameserver\n";
    assert_eq!(dns_from_resolv(Some(conf)), "8.8.8.8, 1.1.1.1");
    assert_eq!(dns_from_resolv(Some("")), "");
    assert_eq!(dns_from_resolv(None), "Unknown");
}

#[test]
fn public_address() {
    let ok = ProcessOutcome::Finished { success: true, code: Some(0), stdout: " 1.2.3.4\n".to_string(), stderr: String::new() };
    assert_eq!(public_ip(ok), "1.2.3.4");
    let bad = ProcessOutcome::Finished { success: false, code: Some(6), stdout: String::new(), stderr: String::new() };
    assert_eq!(public_ip(bad), "Unable to determine (no internet or service unavailable)");
    assert_eq!(public_ip(ProcessOutcome::SpawnFailed("no curl".to_string())), "Unable to determine (no internet or service unavailable)");
}

#[test]
fn test_handle_netinfo() {
    let ifs = vec![NetInterface { name: "eth0".to_string(), mac: "aa:bb:cc:dd:ee:ff".to_string(), received: 10, sent: 20 }];
    let out = handle_netinfo("192.168.1.2", "1.2.3.4", &ifs, "192.168.1.1", "8.8.8.8").unwrap();
    assert_eq!(
        out,
        "  ── Network Information ──────────────────\n\n  Local IP      : 192.168.1.2\n  Public IP     : 1.2.3.4\n\n  ── Interfaces ──────────────────────────\n  eth0             MAC: aa:bb:cc:dd:ee:ff\n    Received  : 10 bytes\n    Sent      : 20 bytes\n\n  Gateway       : 192.168.1.1\n  DNS Servers   : 8.8.8.8\n"
    );
}
