use fluffy::handlers::ProcessOutcome;
use fluffy::other_platforms::{
    handle_alert_macos, handle_alert_windows, handle_clipboard_read, handle_lock_macos, handle_lock_windows,
    handle_notify_macos, handle_notify_windows, handle_screenshot_to,
    get_battery_macos, get_battery_windows, get_gpu_info_macos, get_gpu_info_windows, get_install_date_macos,
    get_install_date_windows, get_os_details_macos, get_os_details_windows, get_users_macos, get_users_windows,
};

fn windows_reference(out: &str) -> (Option<u8>, String, Option<String>) {
    let text = out.trim().to_string();
    if text.contains("NoBattery") || text.is_empty() {
        return (None, "No battery detected.".to_string(), None);
    }
    let mut percentage = None;
    let mut status = String::from("Unknown");
    let mut time_remaining = None;
    for line in text.lines() {
        let line = line.trim();
        if let Some(val) = line.strip_prefix("EstimatedChargeRemaining") {
            let val = val.trim_start_matches(|c: char| c == ':' || c.is_whitespace());
            percentage = val.parse().ok();
        } else if let Some(val) = line.strip_prefix("BatteryStatus") {
            let val = val.trim_start_matches(|c: char| c == ':' || c.is_whitespace());
            status = match val.trim() {
                "1" => "Discharging".to_string(),
                "2" => "Charging".to_string(),
                "3" => "Full".to_string(),
                other => format!("Status code: {}", other),
            };
        } else if let Some(val) = line.strip_prefix("EstimatedRunTime") {
            let val = val.trim_start_matches(|c: char| c == ':' || c.is_whitespace());
            if val.trim() != "71582788" {
                time_remaining = Some(format!("{} minutes", val.trim()));
            }
        }
    }
    (percentage, status, time_remaining)
}

fn macos_reference(text: &str) -> (Option<u8>, String, Option<String>) {
    let mut percentage = None;
    let mut status = "Unknown".to_string();
    let mut time_remaining = None;
    for line in text.lines() {
        if line.contains('%') {
            if let Some(pct_str) = line.split('\t').nth(1) {
                let parts: Vec<&str> = pct_str.split(';').collect();
                if let Some(pct) = parts.first() {
                    percentage = pct.trim().trim_end_matches('%').parse().ok();
                }
                if let Some(st) = parts.get(1) {
                    status = st.trim().to_string();
                }
                if let Some(time) = parts.get(2) {
                    let t = time.trim().to_string();
                    if !t.contains("not charging") {
                        time_remaining = Some(t);
                    }
                }
            }
        }
    }
    (percentage, status, time_remaining)
}

#[test]
fn windows_battery_listing() {
    let outs = [
        "\r\n\r\nEstimatedChargeRemaining : 87\r\nBatteryStatus            : 2\r\nEstimatedRunTime         : 71582788\r\n\r\n",
        "EstimatedChargeRemaining : 40\nBatteryStatus : 1\nEstimatedRunTime : 95\n",
        "BatteryStatus : 7\nEstimatedChargeRemaining : 300\n",
        "EstimatedChargeRemaining:: 5\nBatteryStatus :3",
        "NoBattery",
        "   ",
        "Something else",
    ];
    for o in outs {
        let b = get_battery_windows(Some(o));
        assert_eq!((b.percentage, b.status, b.time_remaining), windows_reference(o), "{:?}", o);
    }
    let b = get_battery_windows(None);
    assert_eq!((b.percentage, b.status.as_str(), b.time_remaining), (None, "No battery detected.", None));
    let b = get_battery_windows(Some("EstimatedChargeRemaining : 87\nBatteryStatus : 2\nEstimatedRunTime : 120"));
    assert_eq!(b.percentage, Some(87));
    assert_eq!(b.status, "Charging");
    assert_eq!(b.time_remaining.as_deref(), Some("120 minutes"));
}

#[test]
fn macos_battery_listing() {
    let outs = [
        "Now drawing from 'Battery Power'\n -InternalBattery-0 (id=1234)\t76%; discharging; 4:12 remaining present: true\n",
        "Now drawing from 'AC Power'\n -InternalBattery-0 (id=1)\t100%; charged; 0:00 remaining present: true\n",
        " -InternalBattery-0\t55%; AC attached; not charging present: true\n",
        " -InternalBattery-0\t12%\n",
        "no tabs here 50%\n",
        "\t%%; x\n",
        "",
    ];
    for o in outs {
        let b = get_battery_macos(Some(o));
        assert_eq!((b.percentage, b.status, b.time_remaining), macos_reference(o), "{:?}", o);
    }
    let b = get_battery_macos(Some(outs[0]));
    assert_eq!(b.percentage, Some(76));
    assert_eq!(b.status, "discharging");
    assert_eq!(b.time_remaining.as_deref(), Some("4:12 remaining present: true"));
    let b = get_battery_macos(None);
    assert_eq!(b.status, "No battery detected.");
}

#[test]
fn windows_queries() {
    assert_eq!(get_gpu_info_windows(Some("\r\nName       : Intel UHD\r\nAdapterRAM : 1073741824\r\n\r\n")), "Name       : Intel UHD\r\nAdapterRAM : 1073741824");
    assert_eq!(get_gpu_info_windows(Some("  \n")), "GPU info not available");
    assert_eq!(get_gpu_info_windows(None), "GPU info not available");
    assert_eq!(get_install_date_windows(Some("2023-04-01 10:20:30\r\n")), "2023-04-01 10:20:30");
    assert_eq!(get_install_date_windows(Some(" ")), "");
    assert_eq!(get_install_date_windows(None), "Unknown");
}

fn windows_os_reference(text: &str) -> (String, String, String, String) {
    let mut name = String::from("Windows");
    let mut version = String::new();
    let mut build = String::new();
    let mut edition = String::new();
    for line in text.lines() {
        let line = line.trim();
        let v = |val: &str| val.trim_start_matches(|c: char| c == ':' || c.is_whitespace()).to_string();
        if let Some(val) = line.strip_prefix("Caption") {
            name = v(val);
        } else if let Some(val) = line.strip_prefix("Version") {
            version = v(val);
        } else if let Some(val) = line.strip_prefix("BuildNumber") {
            build = v(val);
        } else if let Some(val) = line.strip_prefix("OSArchitecture") {
            edition = v(val);
        }
    }
    (name, version, build, edition)
}

fn macos_os_reference(text: &str) -> (String, String, String, String) {
    let mut name = String::from("macOS");
    let mut version = String::new();
    let mut build = String::new();
    for line in text.lines() {
        if let Some(val) = line.strip_prefix("ProductName:") {
            name = val.trim().to_string();
        } else if let Some(val) = line.strip_prefix("ProductVersion:") {
            version = val.trim().to_string();
        } else if let Some(val) = line.strip_prefix("BuildVersion:") {
            build = val.trim().to_string();
        }
    }
    (name, version, build, String::new())
}

#[test]
fn os_details_on_windows_and_macos() {
    let w = "\r\nCaption        : Microsoft Windows 11 Pro\r\nVersion        : 10.0.22631\r\nBuildNumber    : 22631\r\nOSArchitecture : 64-bit\r\n";
    for t in [w, "", "Caption:\nVersion :: 1", "  Caption  :  X  "] {
        let d = get_os_details_windows(Some(t));
        assert_eq!((d.name, d.version, d.build, d.edition), windows_os_reference(t), "{:?}", t);
    }
    let d = get_os_details_windows(Some(w));
    assert_eq!(d.name, "Microsoft Windows 11 Pro");
    assert_eq!(d.edition, "64-bit");
    let d = get_os_details_windows(None);
    assert_eq!(d.name, "Windows");
    let m = "ProductName:\t\tmacOS\nProductVersion:\t\t14.4.1\nBuildVersion:\t\t23E224\n";
    for t in [m, "", " ProductName: x", "ProductName:"] {
        let d = get_os_details_macos(Some(t));
        assert_eq!((d.name, d.version, d.build, d.edition), macos_os_reference(t), "{:?}", t);
    }
    let d = get_os_details_macos(Some(m));
    assert_eq!((d.name.as_str(), d.version.as_str(), d.build.as_str()), ("macOS", "14.4.1", "23E224"));
    assert_eq!(get_os_details_macos(None).name, "macOS");
}

#[test]
fn macos_gpu_and_install_date() {
    let g = "Graphics/Displays:\n\n    Apple M1:\n\n      Chipset Model: Apple M1\n      Type: GPU\n      Metal Support: Metal 3\n";
    assert_eq!(get_gpu_info_macos(Some(g)), "Chipset Model: Apple M1\nMetal Support: Metal 3");
    assert_eq!(get_gpu_info_macos(Some("nothing\n")), "GPU info not available");
    assert_eq!(get_gpu_info_macos(None), "GPU info not available");
    let s = "Software:\n    System Software Overview:\n      System Version: macOS 14\n      Time since boot: 3 days\n      System Integrity Protection: Enabled (Time)\n      Install Time: 2023-01-01\n";
    assert_eq!(get_install_date_macos(Some(s)), "Install Time: 2023-01-01");
    assert_eq!(get_install_date_macos(Some("nothing")), "Unknown");
    assert_eq!(get_install_date_macos(None), "Unknown");
}

fn windows_users_reference(text: &str, admins: &[&str]) -> Vec<(String, String, String)> {
    let mut users = Vec::new();
    let lines: Vec<&str> = text.lines().collect();
    for line in lines.iter().skip(3) {
        let line = line.trim();
        if line.is_empty() {
            continue;
        }
        let parts: Vec<&str> = line.split_whitespace().collect();
        if parts.len() >= 2 {
            let username = parts[0].to_string();
            let enabled = parts[1].to_string();
            let last_login = if parts.len() > 2 { parts[2..].join(" ") } else { "Never".to_string() };
            let role = if admins.contains(&username.as_str()) { "admin" } else { "standard" }.to_string();
            if enabled.to_lowercase() == "true" {
                users.push((username, role, last_login));
            }
        }
    }
    users
}

#[test]
fn windows_user_table() {
    let table = "\r\nName               Enabled LastLogon             PrincipalSource\r\n----               ------- ---------             ---------------\r\nAdministrator      False                         Local\r\nalice              True    3/1/2024 9:15:02 AM   Local\r\nbob                TRUE\r\nGuest              False\r\n\r\n";
    let admins = ["alice"];
    let got = get_users_windows(
        Some(table),
        |n: &str| Some(if admins.contains(&n) { format!("MACHINE\\{}\r\n", n) } else { " \r\n".to_string() }),
        || Some("me\n".to_string()),
    );
    let got: Vec<(String, String, String)> = got.into_iter().map(|u| (u.username, u.role, u.last_login)).collect();
    assert_eq!(got, windows_users_reference(table, &admins));
    assert_eq!(got[0], ("alice".to_string(), "admin".to_string(), "3/1/2024 9:15:02 AM Local".to_string()));
    assert_eq!(got[1], ("bob".to_string(), "standard".to_string(), "Never".to_string()));
    let fallback = get_users_windows(Some("a\nb\n"), |_n: &str| None, || Some("  host\\me \n".to_string()));
    assert_eq!(fallback.len(), 1);
    assert_eq!((fallback[0].username.as_str(), fallback[0].role.as_str(), fallback[0].last_login.as_str()), ("host\\me", "standard", "Current session"));
    assert!(get_users_windows(None, |_n: &str| None, || None).is_empty());
}

#[test]
fn macos_user_list() {
    let list = "_amavisd\n_www\nalice\n  bob  \n\ndaemon\n";
    let members = "GroupMembership: root alice\n";
    let got = get_users_macos(
        Some(list),
        || Some(members.to_string()),
        |n: &str| if n == "alice" { Some(format!("{}  ttys000  Mon Apr  1 10:00   still logged in\nwtmp begins\n", n)) } else { Some(String::new()) },
        || Some("x".to_string()),
    );
    let got: Vec<(String, String, String)> = got.into_iter().map(|u| (u.username, u.role, u.last_login)).collect();
    assert_eq!(got, vec![
        ("alice".to_string(), "admin".to_string(), "alice  ttys000  Mon Apr  1 10:00   still logged in".to_string()),
        ("bob".to_string(), "standard".to_string(), "Unknown".to_string()),
        ("daemon".to_string(), "standard".to_string(), "Unknown".to_string()),
    ]);
    let fallback = get_users_macos(Some("_a\n"), || None, |_n: &str| None, || Some("me".to_string()));
    assert_eq!(fallback.len(), 1);
    assert_eq!(fallback[0].username, "me");
    assert!(get_users_macos(None, || None, |_n: &str| None, || None).is_empty());
}

fn ran(success: bool, stdout: &str, stderr: &str) -> ProcessOutcome {
    ProcessOutcome::Finished { success, code: Some(if success { 0 } else { 1 }), stdout: stdout.to_string(), stderr: stderr.to_string() }
}

fn spawn_failed() -> ProcessOutcome {
    ProcessOutcome::SpawnFailed("not found".to_string())
}

#[test]
fn windows_and_macos_replies() {
    assert_eq!(handle_lock_windows(ran(true, "", "")), Ok("Screen locked successfully.".to_string()));
    assert_eq!(handle_lock_windows(ran(false, "", "x")), Err("Failed to lock screen.".to_string()));
    assert_eq!(handle_lock_windows(spawn_failed()), Err("Failed to lock screen: not found".to_string()));
    let mut fell_back = false;
    assert_eq!(handle_lock_macos(ran(false, "", ""), || fell_back = true), Ok("Screen lock initiated.".to_string()));
    assert!(fell_back);
    assert_eq!(handle_notify_windows("hi", ran(true, "", ""), || {}), Ok("Notification sent: hi".to_string()));
    assert_eq!(handle_notify_windows("hi", ran(false, "", ""), || {}), Ok("Notification sent (fallback): hi".to_string()));
    assert_eq!(handle_notify_macos("hi", ran(false, "", " denied \n")), Err("Notification failed: denied".to_string()));
    assert_eq!(handle_notify_macos("hi", spawn_failed()), Err("Failed to show notification: not found".to_string()));
    assert_eq!(handle_alert_windows(ran(false, "", "")), Ok("Alert: terminal bell sent.".to_string()));
    assert_eq!(handle_alert_windows(spawn_failed()), Err("Failed to play alert: not found".to_string()));
    assert_eq!(handle_alert_macos(ran(false, "", ""), || {}), Ok("Alert sound played.".to_string()));
    assert_eq!(handle_screenshot_to("C:\\t\\s.png", ran(true, "", "")), Ok("Screenshot saved to C:\\t\\s.png".to_string()));
    assert_eq!(handle_screenshot_to("/tmp/x.png", ran(false, "", " no display\n")), Err("Screenshot failed: no display".to_string()));
    assert_eq!(handle_clipboard_read(ran(true, " text \r\n", ""), true), Ok("text".to_string()));
    assert_eq!(handle_clipboard_read(ran(true, " text \n", ""), false), Ok(" text \n".to_string()));
    assert_eq!(handle_clipboard_read(ran(false, "", ""), false), Err("Failed to read clipboard.".to_string()));
    assert_eq!(handle_clipboard_read(spawn_failed(), true), Err("Failed to read clipboard: not found".to_string()));
}
