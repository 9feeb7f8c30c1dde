use fluffy::handlers::{
    command_failed, handle_alert, handle_battery, handle_cd, handle_clipboard, handle_kill, handle_lock, handle_notify,
    handle_pwd, handle_restart, handle_screenshot, handle_shutdown, handle_users, unsupported_on_os, ProcessOutcome,
};
use fluffy::platform::{BatteryInfo, UserInfo};

fn done(success: bool, out: &str, err: &str) -> ProcessOutcome {
    ProcessOutcome::Finished { success, code: Some(if success { 0 } else { 1 }), stdout: out.to_string(), stderr: err.to_string() }
}

#[test]
fn error_texts() {
    assert_eq!(command_failed("ls", "denied"), "'ls' failed: denied");
    assert_eq!(unsupported_on_os("lock", "freebsd"), "Command 'lock' is not supported on freebsd.");
}

#[test]
fn power_and_notify() {
    assert_eq!(handle_lock(done(true, "", "")), Ok("Screen locked successfully.".to_string()));
    assert_eq!(handle_lock(done(false, "", " no session \n")), Err("Failed to lock screen: no session".to_string()));
    assert_eq!(
        handle_lock(ProcessOutcome::SpawnFailed("not found".to_string())),
        Err("Failed to lock screen: not found. Try: loginctl lock-session".to_string())
    );
    assert_eq!(handle_shutdown(done(true, "", "")), Ok("Shutdown initiated.".to_string()));
    assert_eq!(handle_shutdown(done(false, "", "denied")), Err("Shutdown failed: denied".to_string()));
    assert_eq!(handle_restart(ProcessOutcome::SpawnFailed("x".to_string())), Err("Failed to restart: x".to_string()));
    assert_eq!(handle_notify("hi", done(true, "", "")), Ok("Notification sent: hi".to_string()));
    assert_eq!(
        handle_notify("hi", ProcessOutcome::SpawnFailed("nf".to_string())),
        Err("Failed to show notification: nf. Install with: sudo apt install libnotify-bin".to_string())
    );
}

#[test]
fn alert_tries_players_in_turn() {
    assert_eq!(handle_alert(|| true, || panic!("not needed"), || panic!("not needed")), Ok("Alert sound played.".to_string()));
    assert_eq!(handle_alert(|| false, || true, || panic!("not needed")), Ok("Alert sound played.".to_string()));
    let mut rang = false;
    let r = handle_alert(|| false, || false, || rang = true);
    assert_eq!(r, Ok("Alert: terminal bell sent (no audio player found).".to_string()));
    assert!(rang);
}

#[test]
fn screenshot_tools() {
    assert_eq!(handle_screenshot(|i| i == 2), Ok("Screenshot saved to /tmp/fluffy_screenshot.png".to_string()));
    assert_eq!(
        handle_screenshot(|_| false),
        Err("Screenshot failed: No screenshot tool found. Install one of: scrot, gnome-screenshot, imagemagick".to_string())
    );
}

#[test]
fn clipboard_fallback() {
    assert_eq!(handle_clipboard(done(true, "copied", ""), || panic!("unused")), Ok("copied".to_string()));
    assert_eq!(handle_clipboard(done(false, "", ""), || done(true, "from xsel", "")), Ok("from xsel".to_string()));
    assert_eq!(
        handle_clipboard(done(false, "", ""), || done(false, "", "")),
        Err("Clipboard read failed. Install xclip or xsel.".to_string())
    );
    assert_eq!(
        handle_clipboard(ProcessOutcome::SpawnFailed("nf".to_string()), || panic!("unused")),
        Err("Failed to read clipboard: nf. Install with: sudo apt install xclip".to_string())
    );
}

#[test]
fn kill_replies() {
    assert_eq!(handle_kill(42, Some("vim"), true), Ok("Process 42 (vim) killed successfully.".to_string()));
    assert_eq!(
        handle_kill(42, Some("init"), false),
        Err("Failed to kill process 42 (init). Permission denied or process is protected.".to_string())
    );
    assert_eq!(handle_kill(7, None, false), Err("Process with PID 7 not found. It may have already exited.".to_string()));
}

#[test]
fn battery_reply() {
    let b = BatteryInfo { percentage: Some(80), status: "Charging".to_string(), time_remaining: Some("1h".to_string()) };
    assert_eq!(
        handle_battery(b),
        Ok("  ── Battery ─────────────────────────────\n  Percentage : 80%\n  Status     : Charging\n  Remaining  : 1h\n".to_string())
    );
    let none = BatteryInfo { percentage: None, status: "No battery detected.".to_string(), time_remaining: None };
    assert_eq!(handle_battery(none), Ok("No battery detected.".to_string()));
}

#[test]
fn users_table() {
    assert_eq!(handle_users(&vec![]), Ok("No user accounts found.".to_string()));
    let long = "x".repeat(35);
    let users = vec![UserInfo { username: "alice".to_string(), role: "standard".to_string(), last_login: long.clone() }];
    let out = handle_users(&users).unwrap();
    let mut want = format!("  {:<20} {:<10} {}\n", "USERNAME", "ROLE", "LAST LOGIN");
    want.push_str(&format!("  {}\n", "─".repeat(60)));
    want.push_str(&format!("  {:<20} {:<10} {}\n", "alice", "standard", format!("{}…", &long[..29])));
    want.push_str("\n  Total users: 1");
    assert_eq!(out, want);
}

#[test]
fn cd_and_pwd() {
    assert_eq!(handle_pwd("/srv"), Ok("/srv".to_string()));
    assert_eq!(handle_cd("x", Ok(("/srv/x".to_string(), true))), Ok("/srv/x".to_string()));
}

#[test]
fn users_cut_long_logins_at_a_character_boundary() {
    // 'é' takes two bytes, so byte 29 falls inside a character.
    let long = "é".repeat(20);
    let users = vec![UserInfo { username: "bob".to_string(), role: "admin".to_string(), last_login: long }];
    let out = handle_users(&users).unwrap();
    assert!(out.contains(&format!("{}…\n", "é".repeat(14))), "{}", out);
}
