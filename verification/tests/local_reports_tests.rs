use fluffy::executor::ProcessRow;
use fluffy::local_reports::{local_disk_info, local_netinfo, local_processes, local_sysinfo, local_whoami, LocalDisk};
use fluffy::network::NetInterface;

#[test]
fn local_summary() {
    let s = local_sysinfo("admin-pc", "Ryzen", 8, 16, 2 * 1073741824, 16 * 1073741824, 7384, "x86_64");
    assert_eq!(
        s,
        "Device   : admin-pc\nCPU      : Ryzen (8 cores, 16 threads)\nRAM      : 2.0 GB / 16.0 GB used\nUptime   : 2h 3m\nArch     : x86_64"
    );
    assert_eq!(local_whoami("admin-pc", "root"), "Device   : admin-pc\nUsername : root");
}

#[test]
fn local_process_table_shows_fifty() {
    let ps: Vec<ProcessRow> = (0..60u32)
        .map(|i| ProcessRow {
            pid: i,
            name: format!("p{}", i),
            memory: 1024 * i as u64,
            status: String::new(),
            cpu_text: format!("{:.1}", i as f32),
            cpu_order: (i as f32).to_bits() as u64,
        })
        .collect();
    let out = local_processes(ps);
    let lines: Vec<&str> = out.lines().collect();
    assert_eq!(lines[0], format!("  {:<8} {:<30} {:>6} {:>10}", "PID", "NAME", "CPU%", "MEM(KB)"));
    assert_eq!(lines[2], format!("  {:<8} {:<30} {:>5.1}% {:>10}", 59, "p59", 59.0f32, 59));
    assert_eq!(lines.len(), 2 + 50 + 2);
    assert_eq!(*lines.last().unwrap(), "  Showing top 50 of 60 processes");
}

#[test]
fn local_disks_and_network() {
    let out = local_disk_info(1024, 4096, 3072, &vec![LocalDisk { mount: "/".to_string(), total: 2048, available: 1024, file_system: "ext4".to_string() }]);
    let mut want = String::from("  RAM: 1.0 KB used / 4.0 KB total (3.0 KB available)\n\n");
    want.push_str(&format!("  {:<15} {:>10} {:>10} {:>10} {}\n", "MOUNT", "TOTAL", "USED", "FREE", "FS"));
    want.push_str(&format!("  {}\n", "─".repeat(55)));
    want.push_str(&format!("  {:<15} {:>10} {:>10} {:>10} {}\n", "/", "2.0 KB", "1.0 KB", "1.0 KB", "ext4"));
    assert_eq!(out, want);
    let n = local_netinfo(&vec![NetInterface { name: "lo".to_string(), mac: "00:00:00:00:00:00".to_string(), received: 1, sent: 2 }]);
    assert_eq!(n, "  ── Network Interfaces ──\n  lo: MAC=00:00:00:00:00:00 RX=1 TX=2\n");
}
