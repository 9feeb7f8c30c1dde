//! Commands run on the admin's own machine when no client is targeted:
//! which command a line names, and the texts the admin sees.
use vstd::prelude::*;
use crate::parser::{first_word, first_word_len, parse_u32_range, spec_args, spec_parse_u32, word_is, word_lowers_to};
use crate::text::{
    chars_of, decimal, is_ws_char, lemma_prefix_len, lemma_suffix_len, non_ws_pred, push_decimal,
    spec_trim, string_of_range, trim_range, ws_pred,
};

verus! {

/// What a line asks of the admin's machine.
pub enum LocalAction {
    /// Show this text; nothing needs the machine.
    Reply(String),
    /// List the directory given, or the current one.
    ListDir(Option<String>),
    /// Show the current directory.
    Pwd,
    /// Change to this directory.
    ChangeDir(String),
    /// Show this file.
    Cat(String),
    /// Show the device name and user.
    Whoami,
    /// Show system information.
    Sysinfo,
    /// List processes.
    Processes,
    /// Kill this process.
    Kill(u32),
    /// Show RAM and disks.
    DiskInfo,
    /// Show network interfaces.
    NetInfo,
    /// List users.
    Users,
    /// Show the clipboard text.
    Clipboard,
    /// Run this shell command.
    Shell(String),
}

/// The view of a [`LocalAction`].
pub enum LocalActionView {
    Reply(Seq<char>),
    ListDir(Option<Seq<char>>),
    Pwd,
    ChangeDir(Seq<char>),
    Cat(Seq<char>),
    Whoami,
    Sysinfo,
    Processes,
    Kill(u32),
    DiskInfo,
    NetInfo,
    Users,
    Clipboard,
    Shell(Seq<char>),
}

impl View for LocalAction {
    type V = LocalActionView;

    open spec fn view(&self) -> LocalActionView {
        match self {
            LocalAction::Reply(s) => LocalActionView::Reply(s@),
            LocalAction::ListDir(p) => LocalActionView::ListDir(
                match p {
                    Some(p) => Some(p@),
                    None => None,
                },
            ),
            LocalAction::Pwd => LocalActionView::Pwd,
            LocalAction::ChangeDir(p) => LocalActionView::ChangeDir(p@),
            LocalAction::Cat(p) => LocalActionView::Cat(p@),
            LocalAction::Whoami => LocalActionView::Whoami,
            LocalAction::Sysinfo => LocalActionView::Sysinfo,
            LocalAction::Processes => LocalActionView::Processes,
            LocalAction::Kill(pid) => LocalActionView::Kill(*pid),
            LocalAction::DiskInfo => LocalActionView::DiskInfo,
            LocalAction::NetInfo => LocalActionView::NetInfo,
            LocalAction::Users => LocalActionView::Users,
            LocalAction::Clipboard => LocalActionView::Clipboard,
            LocalAction::Shell(c) => LocalActionView::Shell(c@),
        }
    }
}

/// The commands that only make sense on a client.
pub open spec fn is_client_only(w: Seq<char>) -> bool {
    ||| word_lowers_to(w, "locate"@)
    ||| word_lowers_to(w, "screenshot"@)
    ||| word_lowers_to(w, "alert"@)
    ||| word_lowers_to(w, "notify"@)
    ||| word_lowers_to(w, "lock"@)
    ||| word_lowers_to(w, "shutdown"@)
    ||| word_lowers_to(w, "restart"@)
    ||| word_lowers_to(w, "upload"@)
    ||| word_lowers_to(w, "download"@)
}

pub open spec fn client_only_text(kw: Seq<char>, input: Seq<char>) -> Seq<char> {
    "Command '"@ + kw
        + "' is available but should be targeted to a client.\nUse: f1 "@ + input
        + " or set alter mode with: f alter f1"@
}

pub open spec fn unknown_local_text(input: Seq<char>) -> Seq<char> {
    "Unknown command: '"@ + input + "'. Type 'fluffy --help' to see all commands."@
}

/// What the line `input` asks of the admin's machine.
pub open spec fn spec_local_action(input: Seq<char>) -> LocalActionView {
    let w = first_word(input);
    let a = spec_args(input);
    if word_lowers_to(w, "ls"@) {
        LocalActionView::ListDir(if a.len() == 0 { None } else { Some(a) })
    } else if word_lowers_to(w, "pwd"@) {
        LocalActionView::Pwd
    } else if word_lowers_to(w, "cd"@) {
        if a.len() == 0 { LocalActionView::Reply("Usage: cd <path>"@) } else { LocalActionView::ChangeDir(a) }
    } else if word_lowers_to(w, "cat"@) {
        if a.len() == 0 { LocalActionView::Reply("Usage: cat <file>"@) } else { LocalActionView::Cat(a) }
    } else if word_lowers_to(w, "whoami"@) {
        LocalActionView::Whoami
    } else if word_lowers_to(w, "sysinfo"@) {
        LocalActionView::Sysinfo
    } else if word_lowers_to(w, "processes"@) {
        LocalActionView::Processes
    } else if word_lowers_to(w, "kill"@) {
        if a.len() == 0 {
            LocalActionView::Reply("Usage: kill <pid>"@)
        } else {
            match spec_parse_u32(a) {
                Some(pid) => LocalActionView::Kill(pid),
                None => LocalActionView::Reply("Invalid PID: "@ + a),
            }
        }
    } else if word_lowers_to(w, "disk"@) {
        LocalActionView::DiskInfo
    } else if word_lowers_to(w, "netinfo"@) {
        LocalActionView::NetInfo
    } else if word_lowers_to(w, "battery"@) {
        LocalActionView::Reply(
            "Run on target client for battery info. Admin machine uses 'sysinfo' for details."@,
        )
    } else if word_lowers_to(w, "users"@) {
        LocalActionView::Users
    } else if word_lowers_to(w, "clipboard"@) {
        LocalActionView::Clipboard
    } else if word_lowers_to(w, "ping"@) {
        LocalActionView::Reply("PONG (local)"@)
    } else if word_lowers_to(w, "sh"@) {
        if a.len() == 0 { LocalActionView::Reply("Usage: sh <command>"@) } else { LocalActionView::Shell(a) }
    } else if is_client_only(w) {
        LocalActionView::Reply(client_only_text(lowered(w), input))
    } else {
        LocalActionView::Reply(unknown_local_text(input))
    }
}

/// The lowercase of a word that lowercases to a client-only keyword.
pub open spec fn lowered(w: Seq<char>) -> Seq<char> {
    if word_lowers_to(w, "locate"@) {
        "locate"@
    } else if word_lowers_to(w, "screenshot"@) {
        "screenshot"@
    } else if word_lowers_to(w, "alert"@) {
        "alert"@
    } else if word_lowers_to(w, "notify"@) {
        "notify"@
    } else if word_lowers_to(w, "lock"@) {
        "lock"@
    } else if word_lowers_to(w, "shutdown"@) {
        "shutdown"@
    } else if word_lowers_to(w, "restart"@) {
        "restart"@
    } else if word_lowers_to(w, "upload"@) {
        "upload"@
    } else {
        "download"@
    }
}

fn client_only_keyword(v: &Vec<char>, a: usize, k: usize) -> (r: Option<&'static str>)
    requires
        a <= k <= v.len(),
    ensures
        r is Some <==> is_client_only(v@.subrange(a as int, k as int)),
        r matches Some(kw) ==> kw@ == lowered(v@.subrange(a as int, k as int)),
{
    if word_is(v, a, k, "locate") {
        Some("locate")
    } else if word_is(v, a, k, "screenshot") {
        Some("screenshot")
    } else if word_is(v, a, k, "alert") {
        Some("alert")
    } else if word_is(v, a, k, "notify") {
        Some("notify")
    } else if word_is(v, a, k, "lock") {
        Some("lock")
    } else if word_is(v, a, k, "shutdown") {
        Some("shutdown")
    } else if word_is(v, a, k, "restart") {
        Some("restart")
    } else if word_is(v, a, k, "upload") {
        Some("upload")
    } else if word_is(v, a, k, "download") {
        Some("download")
    } else {
        None
    }
}

fn reply(s: &str) -> (r: LocalAction)
    ensures
        r@ == LocalActionView::Reply(s@),
{
    LocalAction::Reply(String::from_str(s))
}

/// Decide what the line `input` asks of the admin's machine (the first
/// word names the command, case-insensitively; the rest, trimmed, is its
/// argument).
pub fn execute_local(input: &str) -> (r: LocalAction)
    ensures
        r@ == spec_local_action(input@),
{
    let v = chars_of(input);
    let n = v.len();
    let ghost t = v@;
    let mut k: usize = 0;
    while k < n && !is_ws_char(v[k])
        invariant
            k <= n,
            n == v@.len(),
            forall|j: int| 0 <= j < k ==> !#[trigger] crate::text::is_ws(v@[j]),
        decreases n - k,
    {
        k = k + 1;
    }
    proof {
        assert forall|j: int| 0 <= j < k implies #[trigger] non_ws_pred()(t[j]) by {}
        lemma_prefix_len(t, non_ws_pred(), k as int);
        assert(first_word(t) =~= v@.subrange(0, k as int));
    }
    let (p, q) = if k < n {
        let r = trim_range(&v, k + 1, n);
        assert(t.skip(k + 1) =~= v@.subrange(k + 1, n as int));
        r
    } else {
        proof {
            lemma_prefix_len(Seq::<char>::empty(), ws_pred(), 0);
            lemma_suffix_len(Seq::<char>::empty(), ws_pred(), 0);
            assert(spec_trim(Seq::<char>::empty()) =~= Seq::<char>::empty());
        }
        (n, n)
    };
    assert(spec_args(t) =~= v@.subrange(p as int, q as int));
    let empty = p == q;
    if word_is(&v, 0, k, "ls") {
        LocalAction::ListDir(if empty { None } else { Some(string_of_range(&v, p, q)) })
    } else if word_is(&v, 0, k, "pwd") {
        LocalAction::Pwd
    } else if word_is(&v, 0, k, "cd") {
        if empty {
            reply("Usage: cd <path>")
        } else {
            LocalAction::ChangeDir(string_of_range(&v, p, q))
        }
    } else if word_is(&v, 0, k, "cat") {
        if empty {
            reply("Usage: cat <file>")
        } else {
            LocalAction::Cat(string_of_range(&v, p, q))
        }
    } else if word_is(&v, 0, k, "whoami") {
        LocalAction::Whoami
    } else if word_is(&v, 0, k, "sysinfo") {
        LocalAction::Sysinfo
    } else if word_is(&v, 0, k, "processes") {
        LocalAction::Processes
    } else if word_is(&v, 0, k, "kill") {
        if empty {
            reply("Usage: kill <pid>")
        } else {
            match parse_u32_range(&v, p, q) {
                Some(pid) => LocalAction::Kill(pid),
                None => {
                    let mut s = String::from_str("Invalid PID: ");
                    s.append(string_of_range(&v, p, q).as_str());
                    LocalAction::Reply(s)
                },
            }
        }
    } else if word_is(&v, 0, k, "disk") {
        LocalAction::DiskInfo
    } else if word_is(&v, 0, k, "netinfo") {
        LocalAction::NetInfo
    } else if word_is(&v, 0, k, "battery") {
        reply("Run on target client for battery info. Admin machine uses 'sysinfo' for details.")
    } else if word_is(&v, 0, k, "users") {
        LocalAction::Users
    } else if word_is(&v, 0, k, "clipboard") {
        LocalAction::Clipboard
    } else if word_is(&v, 0, k, "ping") {
        reply("PONG (local)")
    } else if word_is(&v, 0, k, "sh") {
        if empty {
            reply("Usage: sh <command>")
        } else {
            LocalAction::Shell(string_of_range(&v, p, q))
        }
    } else {
        match client_only_keyword(&v, 0, k) {
            Some(kw) => {
                let mut s = String::from_str("Command '");
                s.append(kw);
                s.append("' is available but should be targeted to a client.\nUse: f1 ");
                s.append(input);
                s.append(" or set alter mode with: f alter f1");
                LocalAction::Reply(s)
            },
            None => {
                let mut s = String::from_str("Unknown command: '");
                s.append(input);
                s.append("'. Type 'fluffy --help' to see all commands.");
                LocalAction::Reply(s)
            },
        }
    }
}

pub open spec fn kill_text(pid: u32, found: bool, killed: bool) -> Seq<char> {
    if !found {
        "Process "@ + decimal(pid as nat) + " not found."@
    } else if killed {
        "Process "@ + decimal(pid as nat) + " killed."@
    } else {
        "Failed to kill process "@ + decimal(pid as nat) + "."@
    }
}

/// The admin's report on killing process `pid`: whether a process with
/// that id was found, and whether the kill signal was delivered.
pub fn local_kill_report(pid: u32, found: bool, killed: bool) -> (r: String)
    ensures
        r@ == kill_text(pid, found, killed),
{
    if !found {
        let mut s = String::from_str("Process ");
        push_decimal(&mut s, pid as u64);
        s.append(" not found.");
        s
    } else if killed {
        let mut s = String::from_str("Process ");
        push_decimal(&mut s, pid as u64);
        s.append(" killed.");
        s
    } else {
        let mut s = String::from_str("Failed to kill process ");
        push_decimal(&mut s, pid as u64);
        s.append(".");
        s
    }
}

/// The output of a local shell command: stdout, then a `[stderr]`
/// section when stderr is not empty; `(no output)` when all is blank.
pub open spec fn shell_text(stdout: Seq<char>, stderr: Seq<char>) -> Seq<char> {
    let result = if stderr.len() > 0 {
        stdout + "\n[stderr] "@ + stderr
    } else {
        stdout
    };
    if spec_trim(result).len() == 0 {
        "(no output)"@
    } else {
        result
    }
}

/// The admin's view of a local shell command that ran with the given
/// (lossily decoded) standard output and error.
pub fn local_shell_output(stdout: &str, stderr: &str) -> (r: String)
    ensures
        r@ == shell_text(stdout@, stderr@),
{
    let mut result = String::from_str(stdout);
    if stderr.unicode_len() > 0 {
        result.append("\n[stderr] ");
        result.append(stderr);
    }
    let v = chars_of(result.as_str());
    let (a, b) = trim_range(&v, 0, v.len());
    assert(v@.subrange(0, v.len() as int) =~= v@);
    if a == b {
        String::from_str("(no output)")
    } else {
        result
    }
}

} // verus!
