use fluffy::local::{execute_local, local_kill_report, local_shell_output, LocalAction};

fn reply(a: LocalAction) -> String {
    match a {
        LocalAction::Reply(s) => s,
        _ => panic!("expected a reply"),
    }
}

#[test]
fn local_commands() {
    assert!(matches!(execute_local("ls"), LocalAction::ListDir(None)));
    assert!(matches!(execute_local("LS /tmp"), LocalAction::ListDir(Some(ref p)) if p == "/tmp"));
    assert_eq!(reply(execute_local("cd")), "Usage: cd <path>");
    assert!(matches!(execute_local("kill 12"), LocalAction::Kill(12)));
    assert_eq!(reply(execute_local("kill x")), "Invalid PID: x");
    assert_eq!(reply(execute_local("ping")), "PONG (local)");
    assert_eq!(
        reply(execute_local("lock")),
        "Command 'lock' is available but should be targeted to a client.\nUse: f1 lock or set alter mode with: f alter f1"
    );
    assert_eq!(reply(execute_local("bogus")), "Unknown command: 'bogus'. Type 'fluffy --help' to see all commands.");
}

#[test]
fn local_texts() {
    assert_eq!(local_kill_report(5, false, false), "Process 5 not found.");
    assert_eq!(local_kill_report(5, true, true), "Process 5 killed.");
    assert_eq!(local_kill_report(5, true, false), "Failed to kill process 5.");
    assert_eq!(local_shell_output("out", ""), "out");
    assert_eq!(local_shell_output("out", "err"), "out\n[stderr] err");
    assert_eq!(local_shell_output(" \n", ""), "(no output)");
}
