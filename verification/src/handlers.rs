//! The replies of a client to the admin's commands. Running programs and
//! reading the system is left to the caller, which hands in what came back;
//! the Linux variants of the replies are the ones stated here.
use vstd::prelude::*;
use crate::platform::{BatteryInfo, UserInfo};
use crate::text::{
    chars_of, decimal, fit_chars, pad_right, prefix_within_bytes, push_char,
    push_decimal, push_padded_right, spec_trim, string_of_range, trim_range, utf8_len,
};

verus! {

/// How an external program ended.
pub enum ProcessOutcome {
    /// It could not be started; the error's text.
    SpawnFailed(String),
    /// It ran and exited: whether it succeeded, its exit code (none when a
    /// signal ended it), and its (lossily decoded) standard output and error.
    Finished { success: bool, code: Option<i32>, stdout: String, stderr: String },
}

/// The view of a reply.
pub open spec fn reply_view(r: Result<String, String>) -> Result<Seq<char>, Seq<char>> {
    match r {
        Ok(s) => Ok(s@),
        Err(e) => Err(e@),
    }
}

/// Format a friendly "command failed" error.
pub fn command_failed(command: &str, reason: &str) -> (r: String)
    ensures
        r@ == "'"@ + command@ + "' failed: "@ + reason@,
{
    let mut s = String::from_str("'");
    s.append(command);
    s.append("' failed: ");
    s.append(reason);
    s
}

/// Format a command-not-supported error for the operating system `os`.
pub fn unsupported_on_os(command: &str, os: &str) -> (r: String)
    ensures
        r@ == "Command '"@ + command@ + "' is not supported on "@ + os@ + "."@,
{
    let mut s = String::from_str("Command '");
    s.append(command);
    s.append("' is not supported on ");
    s.append(os);
    s.append(".");
    s
}

/// Print current working directory.
pub fn handle_pwd(cwd: &str) -> (r: Result<String, String>)
    ensures
        reply_view(r) == Ok::<Seq<char>, Seq<char>>(cwd@),
{
    Ok(String::from_str(cwd))
}

/// The reply to `cd path`, given what canonicalising the target gave.
pub open spec fn cd_reply(path: Seq<char>, canonical: Result<(Seq<char>, bool), Seq<char>>) -> Result<Seq<char>, Seq<char>> {
    match canonical {
        Err(e) => Err("Cannot change to '"@ + path + "': "@ + e),
        Ok((c, is_dir)) => if is_dir {
            Ok(c)
        } else {
            Err("Not a directory: "@ + c)
        },
    }
}

pub open spec fn canonical_view(canonical: Result<(String, bool), String>) -> Result<(Seq<char>, bool), Seq<char>> {
    match canonical {
        Ok((c, d)) => Ok((c@, d)),
        Err(e) => Err(e@),
    }
}

/// Change working directory, given what canonicalising the target gave:
/// the canonical path and whether it is a directory, or the error.
/// Returns the new path if successful.
pub fn handle_cd(path: &str, canonical: Result<(String, bool), String>) -> (r: Result<String, String>)
    ensures
        reply_view(r) == cd_reply(path@, canonical_view(canonical)),
{
    match canonical {
        Err(e) => {
            let mut s = String::from_str("Cannot change to '");
            s.append(path);
            s.append("': ");
            s.append(e.as_str());
            Err(s)
        },
        Ok((c, is_dir)) => {
            if !is_dir {
                let mut s = String::from_str("Not a directory: ");
                s.append(c.as_str());
                Err(s)
            } else {
                Ok(c)
            }
        },
    }
}

/// The reply to a program run for `what`: `ok` when it succeeded,
/// `failed` followed by its trimmed standard error when it did not, and
/// `spawn` followed by the error when it could not start (then `hint`).
pub open spec fn run_reply(
    o: ProcessOutcome,
    ok: Seq<char>,
    failed: Seq<char>,
    spawn: Seq<char>,
    hint: Seq<char>,
) -> Result<Seq<char>, Seq<char>> {
    match o {
        ProcessOutcome::SpawnFailed(e) => Err(spawn + e@ + hint),
        ProcessOutcome::Finished { success, stderr, .. } => if success {
            Ok(ok)
        } else {
            Err(failed + spec_trim(stderr@))
        },
    }
}

pub(crate) fn trimmed(s: &str) -> (r: String)
    ensures
        r@ == spec_trim(s@),
{
    let v = chars_of(s);
    let (a, b) = trim_range(&v, 0, v.len());
    assert(v@.subrange(0, v.len() as int) =~= s@);
    string_of_range(&v, a, b)
}

pub(crate) fn run_reply_exec(o: ProcessOutcome, ok: String, failed: &str, spawn: &str, hint: &str) -> (r: Result<
    String,
    String,
>)
    ensures
        reply_view(r) == run_reply(o, ok@, failed@, spawn@, hint@),
{
    match o {
        ProcessOutcome::SpawnFailed(e) => {
            let mut s = String::from_str(spawn);
            s.append(e.as_str());
            s.append(hint);
            Err(s)
        },
        ProcessOutcome::Finished { success, stderr, .. } => {
            if success {
                Ok(ok)
            } else {
                let mut s = String::from_str(failed);
                s.append(trimmed(stderr.as_str()).as_str());
                Err(s)
            }
        },
    }
}

/// Handle lock command: the outcome of `loginctl lock-session`.
pub fn handle_lock(o: ProcessOutcome) -> (r: Result<String, String>)
    ensures
        reply_view(r) == run_reply(
            o,
            "Screen locked successfully."@,
            "Failed to lock screen: "@,
            "Failed to lock screen: "@,
            ". Try: loginctl lock-session"@,
        ),
{
    run_reply_exec(
        o,
        String::from_str("Screen locked successfully."),
        "Failed to lock screen: ",
        "Failed to lock screen: ",
        ". Try: loginctl lock-session",
    )
}

/// Handle shutdown command: the outcome of `shutdown -h now`.
pub fn handle_shutdown(o: ProcessOutcome) -> (r: Result<String, String>)
    ensures
        reply_view(r) == run_reply(
            o,
            "Shutdown initiated."@,
            "Shutdown failed: "@,
            "Failed to shutdown: "@,
            ""@,
        ),
{
    run_reply_exec(
        o,
        String::from_str("Shutdown initiated."),
        "Shutdown failed: ",
        "Failed to shutdown: ",
        "",
    )
}

/// Handle restart command: the outcome of `shutdown -r now`.
pub fn handle_restart(o: ProcessOutcome) -> (r: Result<String, String>)
    ensures
        reply_view(r) == run_reply(
            o,
            "Restart initiated."@,
            "Restart failed: "@,
            "Failed to restart: "@,
            ""@,
        ),
{
    run_reply_exec(
        o,
        String::from_str("Restart initiated."),
        "Restart failed: ",
        "Failed to restart: ",
        "",
    )
}

/// Handle notify command: the outcome of `notify-send "Fluffy Terminal" message`.
pub fn handle_notify(message: &str, o: ProcessOutcome) -> (r: Result<String, String>)
    ensures
        reply_view(r) == run_reply(
            o,
            "Notification sent: "@ + message@,
            "Notification failed: "@,
            "Failed to show notification: "@,
            ". Install with: sudo apt install libnotify-bin"@,
        ),
{
    let mut ok = String::from_str("Notification sent: ");
    ok.append(message);
    run_reply_exec(
        o,
        ok,
        "Notification failed: ",
        "Failed to show notification: ",
        ". Install with: sudo apt install libnotify-bin",
    )
}

/// Handle alert command: play the alarm with `paplay`, else the ALSA
/// sample with `aplay`, else ring the terminal bell. Each player is tried
/// only when the previous one did not succeed.
pub fn handle_alert(
    paplay: impl FnOnce() -> bool,
    aplay: impl FnOnce() -> bool,
    bell: impl FnOnce(),
) -> (r: Result<String, String>)
    requires
        call_requires(paplay, ()),
        call_requires(aplay, ()),
        call_requires(bell, ()),
    ensures
        reply_view(r) == Ok::<Seq<char>, Seq<char>>("Alert sound played."@) || reply_view(r)
            == Ok::<Seq<char>, Seq<char>>("Alert: terminal bell sent (no audio player found)."@),
        reply_view(r) == Ok::<Seq<char>, Seq<char>>(
            "Alert: terminal bell sent (no audio player found)."@,
        ) ==> call_ensures(paplay, (), false) && call_ensures(aplay, (), false),
        reply_view(r) == Ok::<Seq<char>, Seq<char>>("Alert sound played."@) ==> call_ensures(
            paplay,
            (),
            true,
        ) || call_ensures(aplay, (), true),
{
    proof {
        reveal_strlit("Alert sound played.");
        reveal_strlit("Alert: terminal bell sent (no audio player found).");
        assert("Alert sound played."@.len() != "Alert: terminal bell sent (no audio player found)."@.len());
    }
    if paplay() {
        return Ok(String::from_str("Alert sound played."));
    }
    if aplay() {
        return Ok(String::from_str("Alert sound played."));
    }
    // Last resort: terminal bell
    bell();
    Ok(String::from_str("Alert: terminal bell sent (no audio player found)."))
}

/// Where screenshots are saved.
pub open spec fn screenshot_path() -> Seq<char> {
    "/tmp/fluffy_screenshot.png"@
}

/// Handle screenshot command: `capture(i)` runs the i-th tool (`scrot`,
/// `gnome-screenshot`, ImageMagick's `import`) and tells whether it saved
/// the screenshot; the tools are tried in turn until one succeeds.
pub fn handle_screenshot(capture: impl Fn(u8) -> bool) -> (r: Result<String, String>)
    requires
        forall|i: u8| i < 3 ==> call_requires(capture, (i,)),
    ensures
        reply_view(r) == Ok::<Seq<char>, Seq<char>>("Screenshot saved to "@ + screenshot_path())
            ==> exists|i: u8| i < 3 && call_ensures(capture, (i,), true),
        reply_view(r) is Err ==> forall|i: u8| i < 3 ==> call_ensures(capture, (i,), false),
        reply_view(r) == Ok::<Seq<char>, Seq<char>>("Screenshot saved to "@ + screenshot_path())
            || reply_view(r) == Err::<Seq<char>, Seq<char>>(
            "Screenshot failed: No screenshot tool found. Install one of: scrot, gnome-screenshot, imagemagick"@,
        ),
{
    let mut i: u8 = 0;
    while i < 3
        invariant
            i <= 3,
            forall|j: u8| j < 3 ==> call_requires(capture, (j,)),
            forall|j: u8| j < i ==> call_ensures(capture, (j,), false),
        decreases 3 - i,
    {
        if capture(i) {
            let mut s = String::from_str("Screenshot saved to ");
            s.append("/tmp/fluffy_screenshot.png");
            return Ok(s);
        }
        i = i + 1;
    }
    Err(
        String::from_str(
            "Screenshot failed: No screenshot tool found. Install one of: scrot, gnome-screenshot, imagemagick",
        ),
    )
}

/// The clipboard as `xsel --clipboard --output` gives it.
pub open spec fn xsel_reply(o: ProcessOutcome) -> Result<Seq<char>, Seq<char>> {
    match o {
        ProcessOutcome::SpawnFailed(e) => Err("Failed to read clipboard: "@ + e@),
        ProcessOutcome::Finished { success, stdout, .. } => if success {
            Ok(stdout@)
        } else {
            Err("Clipboard read failed. Install xclip or xsel."@)
        },
    }
}

/// Handle clipboard command: the outcome of `xclip -selection clipboard -o`;
/// when that ran but failed, `xsel` is run and its outcome decides.
pub fn handle_clipboard(xclip: ProcessOutcome, xsel: impl FnOnce() -> ProcessOutcome) -> (r: Result<
    String,
    String,
>)
    requires
        call_requires(xsel, ()),
    ensures
        match xclip {
            ProcessOutcome::SpawnFailed(e) => reply_view(r) == Err::<Seq<char>, Seq<char>>(
                "Failed to read clipboard: "@ + e@ + ". Install with: sudo apt install xclip"@,
            ),
            ProcessOutcome::Finished { success, stdout, .. } => if success {
                reply_view(r) == Ok::<Seq<char>, Seq<char>>(stdout@)
            } else {
                exists|o: ProcessOutcome| call_ensures(xsel, (), o) && reply_view(r) == xsel_reply(o)
            },
        },
{
    match xclip {
        ProcessOutcome::SpawnFailed(e) => {
            let mut s = String::from_str("Failed to read clipboard: ");
            s.append(e.as_str());
            s.append(". Install with: sudo apt install xclip");
            Err(s)
        },
        ProcessOutcome::Finished { success, stdout, .. } => {
            if success {
                Ok(stdout)
            } else {
                // Try xsel as fallback
                let o = xsel();
                let ghost og = o;
                let r = match o {
                    ProcessOutcome::SpawnFailed(e) => {
                        let mut s = String::from_str("Failed to read clipboard: ");
                        s.append(e.as_str());
                        Err(s)
                    },
                    ProcessOutcome::Finished { success, stdout, .. } => {
                        if success {
                            Ok(stdout)
                        } else {
                            Err(String::from_str("Clipboard read failed. Install xclip or xsel."))
                        }
                    },
                };
                assert(call_ensures(xsel, (), og) && reply_view(r) == xsel_reply(og));
                r
            }
        },
    }
}

/// The reply to `kill <pid>`: `name` is the name of the process with that
/// id, if there was one, and `killed` whether the kill signal was delivered.
pub fn handle_kill(pid: u32, name: Option<&str>, killed: bool) -> (r: Result<String, String>)
    ensures
        reply_view(r) == match name {
            Some(n) => if killed {
                Ok("Process "@ + decimal(pid as nat) + " ("@ + n@ + ") killed successfully."@)
            } else {
                Err("Failed to kill process "@ + decimal(pid as nat) + " ("@ + n@
                    + "). Permission denied or process is protected."@)
            },
            None => Err("Process with PID "@ + decimal(pid as nat)
                + " not found. It may have already exited."@),
        },
{
    match name {
        Some(n) => {
            if killed {
                let mut s = String::from_str("Process ");
                push_decimal(&mut s, pid as u64);
                s.append(" (");
                s.append(n);
                s.append(") killed successfully.");
                Ok(s)
            } else {
                let mut s = String::from_str("Failed to kill process ");
                push_decimal(&mut s, pid as u64);
                s.append(" (");
                s.append(n);
                s.append("). Permission denied or process is protected.");
                Err(s)
            }
        },
        None => {
            let mut s = String::from_str("Process with PID ");
            push_decimal(&mut s, pid as u64);
            s.append(" not found. It may have already exited.");
            Err(s)
        },
    }
}

/// The battery report.
pub open spec fn battery_text(info: BatteryInfo) -> Seq<char> {
    match info.percentage {
        Some(pct) => "  ── Battery ─────────────────────────────\n"@ + "  Percentage : "@ + decimal(
            pct as nat,
        ) + "%\n"@ + "  Status     : "@ + info.status@ + "\n"@ + match info.time_remaining {
            Some(t) => "  Remaining  : "@ + t@ + "\n"@,
            None => Seq::empty(),
        },
        None => info.status@,
    }
}

/// Handle battery command.
pub fn handle_battery(info: BatteryInfo) -> (r: Result<String, String>)
    ensures
        reply_view(r) == Ok::<Seq<char>, Seq<char>>(battery_text(info)),
{
    let ghost i0 = info;
    match info.percentage {
        Some(pct) => {
            let mut output = String::from_str("  ── Battery ─────────────────────────────\n");
            output.append("  Percentage : ");
            push_decimal(&mut output, pct as u64);
            output.append("%\n");
            output.append("  Status     : ");
            output.append(info.status.as_str());
            output.append("\n");
            let ghost before = output@;
            if let Some(time) = &info.time_remaining {
                output.append("  Remaining  : ");
                output.append(time.as_str());
                output.append("\n");
            }
            assert(output@ =~= battery_text(i0));
            Ok(output)
        },
        None => Ok(info.status),
    }
}

/// The last login as the table shows it: cut to 29 bytes and an ellipsis
/// when longer than 30 bytes.
pub open spec fn login_display(s: Seq<char>) -> Seq<char> {
    if utf8_len(s) > 30 {
        s.take(fit_chars(s, 29) as int) + "…"@
    } else {
        s
    }
}

/// One row of the user table.
pub open spec fn user_row(u: UserInfo) -> Seq<char> {
    "  "@ + pad_right(u.username@, 20) + " "@ + pad_right(u.role@, 10) + " "@ + login_display(
        u.last_login@,
    ) + "\n"@
}

/// The rows of the user table.
pub open spec fn user_rows(users: Seq<UserInfo>) -> Seq<char>
    decreases users.len(),
{
    if users.len() == 0 {
        Seq::empty()
    } else {
        user_rows(users.drop_last()) + user_row(users.last())
    }
}

/// The user table.
pub open spec fn users_text(users: Seq<UserInfo>) -> Seq<char> {
    if users.len() == 0 {
        "No user accounts found."@
    } else {
        "  "@ + pad_right("USERNAME"@, 20) + " "@ + pad_right("ROLE"@, 10) + " "@ + "LAST LOGIN"@
            + "\n"@ + "  "@ + Seq::new(60, |i: int| '─') + "\n"@ + user_rows(users)
            + "\n  Total users: "@ + decimal(users.len())
    }
}

/// Handle users command — list all user accounts.
pub fn handle_users(users: &Vec<UserInfo>) -> (r: Result<String, String>)
    ensures
        reply_view(r) == Ok::<Seq<char>, Seq<char>>(users_text(users@)),
{
    if users.len() == 0 {
        return Ok(String::from_str("No user accounts found."));
    }
    let mut output = String::from_str("  ");
    push_padded_right(&mut output, "USERNAME", 20);
    output.append(" ");
    push_padded_right(&mut output, "ROLE", 10);
    output.append(" ");
    output.append("LAST LOGIN");
    output.append("\n");
    output.append("  ");
    let ghost head = output@;
    let mut k: usize = 0;
    while k < 60
        invariant
            k <= 60,
            output@ == head + Seq::new(k as nat, |i: int| '─'),
        decreases 60 - k,
    {
        push_char(&mut output, '─');
        k = k + 1;
        assert(output@ =~= head + Seq::new(k as nat, |i: int| '─'));
    }
    output.append("\n");
    let ghost prefix = output@;
    let mut i: usize = 0;
    while i < users.len()
        invariant
            i <= users@.len(),
            output@ == prefix + user_rows(users@.take(i as int)),
        decreases users.len() - i,
    {
        let ghost pre = users@.take(i as int);
        let ghost nxt = users@.take(i + 1);
        assert(nxt.drop_last() =~= pre);
        assert(nxt.last() == users@[i as int]);
        let user = &users[i];
        output.append("  ");
        push_padded_right(&mut output, user.username.as_str(), 20);
        output.append(" ");
        push_padded_right(&mut output, user.role.as_str(), 10);
        output.append(" ");
        if crate::text::longer_than_bytes(user.last_login.as_str(), 30) {
            let cut = prefix_within_bytes(user.last_login.as_str(), 29);
            output.append(cut.as_str());
            output.append("…");
        } else {
            output.append(user.last_login.as_str());
        }
        output.append("\n");
        proof {
            assert(output@ =~= prefix + user_rows(pre) + user_row(users@[i as int]));
        }
        i = i + 1;
    }
    assert(users@.take(users.len() as int) =~= users@);
    output.append("\n  Total users: ");
    push_decimal(&mut output, users.len() as u64);
    Ok(output)
}

} // verus!
