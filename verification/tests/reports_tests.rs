use fluffy::platform::OsDetails;
use fluffy::sysreport::{
    current_uid, get_current_role, handle_disk_info, handle_locate, handle_sysinfo, handle_whoami, DiskInfo,
    GeoLocation, LocateOutcome, MemoryInfo, SystemSnapshot,
};

#[test]
fn disk_report() {
    let ram = MemoryInfo { total: 8 * 1073741824, used: 3 * 1073741824, available: 5 * 1073741824, usage: "37.5".to_string() };
    let disks = vec![
        DiskInfo {
            mount: "/".to_string(),
            name: "nvme0n1p2".to_string(),
            file_system: "ext4".to_string(),
            removable: false,
            total: 100 * 1073741824,
            available: 40 * 1073741824,
            usage: "60.0".to_string(),
        },
        DiskInfo {
            mount: "/media/usb-stick-long".to_string(),
            name: String::new(),
            file_system: "vfat".to_string(),
            removable: true,
            total: 10,
            available: 20,
            usage: "0.0".to_string(),
        },
    ];
    let out = handle_disk_info(&ram, &disks).unwrap();
    let mut expected = String::from("  ── RAM ─────────────────────────────────\n  Total     : 8.0 GB\n  Used      : 3.0 GB\n  Available : 5.0 GB\n  Usage     : 37.5%\n\n  ── Disks ───────────────────────────────\n");
    expected.push_str(&format!("  {:<15} {:>10} {:>10} {:>10} {:>6} {:<10}\n", "MOUNT", "TOTAL", "USED", "FREE", "USE%", "FILESYSTEM"));
    expected.push_str(&format!("  {}\n", "─".repeat(65)));
    expected.push_str(&format!("  {:<15} {:>10} {:>10} {:>10} {:>5}% {:<10}\n", "/", "100.0 GB", "60.0 GB", "40.0 GB", "60.0", "ext4"));
    expected.push_str("    Label: nvme0n1p2\n");
    expected.push_str(&format!("  {:<15} {:>10} {:>10} {:>10} {:>5}% {:<10}\n", "/media/usb-s…", "10 B", "0 B", "20 B", "0.0", "vfat"));
    expected.push_str("    Label: /media/usb-stick-long\n");
    assert_eq!(out, expected);
}

#[test]
fn sysinfo_report() {
    let s = SystemSnapshot {
        hostname: "box".to_string(),
        arch: "x86_64".to_string(),
        os: OsDetails { name: "Ubuntu".to_string(), version: "22.04".to_string(), build: String::new(), edition: String::new() },
        install_date: "Unknown".to_string(),
        gpu_info: "GPU info not available".to_string(),
        cpu_brand: "CPU".to_string(),
        physical_cores: 4,
        logical_cores: 8,
        cpu_mhz: 3000,
        cpu_usage: "12.5".to_string(),
        total_ram: 1024,
        used_ram: 512,
        available_ram: 512,
        ram_usage: "50.0".to_string(),
        uptime_secs: 90061,
    };
    let out = handle_sysinfo(&s).unwrap();
    assert!(out.contains("  Device Name  : box\n  System Type  : x86_64\n\n"));
    assert!(out.contains("  OS           : Ubuntu\n  Version      : 22.04\n  Install Date : Unknown\n\n"));
    assert!(!out.contains("Edition"));
    assert!(!out.contains("Build"));
    assert!(out.contains("  Cores        : 4 physical, 8 logical\n  Clock        : 3000 MHz\n  Usage        : 12.5%\n\n"));
    assert!(out.contains("  Total        : 1.0 KB\n  Used         : 512 B\n"));
    assert!(out.ends_with("  ── Uptime ──────────────────────────────\n  1d 1h 1m\n"));
}

#[test]
fn whoami_and_role() {
    assert_eq!(handle_whoami("box", "amy", "standard"), Ok("Device   : box\nUsername : amy\nRole     : standard".to_string()));
    assert_eq!(current_uid(Some("0\n")), 0);
    assert_eq!(current_uid(Some(" 1001 ")), 1001);
    assert_eq!(current_uid(Some("abc")), 1000);
    assert_eq!(current_uid(None), 1000);
    assert_eq!(get_current_role(0), "admin (root)");
    assert_eq!(get_current_role(1000), "standard");
}

#[test]
fn locate_replies() {
    assert_eq!(
        handle_locate(LocateOutcome::Unreachable("timeout".to_string())),
        Err("Location unavailable: Could not reach geolocation service. timeout".to_string())
    );
    assert_eq!(
        handle_locate(LocateOutcome::ErrorStatus),
        Err("Location unavailable: Geolocation service returned an error.".to_string())
    );
    assert_eq!(
        handle_locate(LocateOutcome::BadAnswer("eof".to_string())),
        Err("Location unavailable: Failed to parse response. eof".to_string())
    );
    let g = GeoLocation {
        ip: Some("1.2.3.4".to_string()),
        city: Some("Oslo".to_string()),
        region: None,
        country_name: Some("Norway".to_string()),
        latitude: Some("59.9".to_string()),
        longitude: None,
        org: None,
        timezone: Some("Europe/Oslo".to_string()),
    };
    let out = handle_locate(LocateOutcome::Located(g)).unwrap();
    assert_eq!(
        out,
        "  ── Network Geolocation ─────────────────\n  (Based on IP address, not GPS)\n\n  IP        : 1.2.3.4\n  City      : Oslo\n  Region    : Unknown\n  Country   : Norway\n  Latitude  : 59.9\n  Longitude : Unknown\n  ISP       : Unknown\n  Timezone  : Europe/Oslo\n"
    );
}

#[test]
fn disk_mounts_cut_at_a_character_boundary() {
    let ram = MemoryInfo { total: 1073741824, used: 0, available: 1073741824, usage: "0.0".to_string() };
    // 'ü' takes two bytes; after the leading slash, byte 12 falls inside one.
    let mount = format!("/{}", "ü".repeat(10));
    let disks = vec![DiskInfo {
        mount,
        name: "d".to_string(),
        file_system: "ext4".to_string(),
        removable: false,
        total: 1073741824,
        available: 1073741824,
        usage: "0.0".to_string(),
    }];
    let out = handle_disk_info(&ram, &disks).unwrap();
    assert!(out.contains(&format!("/{}…", "ü".repeat(5))), "{}", out);
}
