use fluffy::executor::{execute_response, handle_ping, handle_processes, handle_shell, ExecutorState, ProcessRow};
use fluffy::handlers::ProcessOutcome;

fn finished(success: bool, code: Option<i32>, out: &str, err: &str) -> ProcessOutcome {
    ProcessOutcome::Finished { success, code, stdout: out.to_string(), stderr: err.to_string() }
}

#[test]
fn executor_state() {
    assert_eq!(ExecutorState::new(None).cwd, "/");
    let mut st = ExecutorState::new(Some("/home/u".to_string()));
    assert_eq!(st.cwd, "/home/u");
    assert_eq!(st.change_dir("docs", Ok(("/home/u/docs".to_string(), true))), Ok("/home/u/docs".to_string()));
    assert_eq!(st.cwd, "/home/u/docs");
    assert_eq!(
        st.change_dir("f.txt", Ok(("/home/u/docs/f.txt".to_string(), false))),
        Err("Not a directory: /home/u/docs/f.txt".to_string())
    );
    assert_eq!(
        st.change_dir("nope", Err("No such file or directory (os error 2)".to_string())),
        Err("Cannot change to 'nope': No such file or directory (os error 2)".to_string())
    );
    assert_eq!(st.cwd, "/home/u/docs");
}

#[test]
fn responses() {
    let r = execute_response(3, Ok("fine".to_string()), "client", "");
    assert_eq!((r.id, r.output.as_str(), r.success, r.client_id.as_str(), r.tag.as_str()), (3, "fine", true, "client", ""));
    let r = execute_response(4, Err("bad".to_string()), "c", "t");
    assert_eq!((r.output.as_str(), r.success), ("bad", false));
    assert_eq!(handle_ping(), Ok("PONG".to_string()));
}

#[test]
fn shell_replies() {
    assert_eq!(handle_shell(finished(true, Some(0), "hi\n", "")), Ok("hi\n".to_string()));
    assert_eq!(handle_shell(finished(true, Some(0), "", "")), Ok("(no output)".to_string()));
    assert_eq!(handle_shell(finished(true, Some(0), "a", "b")), Ok("a\n[stderr] b".to_string()));
    assert_eq!(handle_shell(finished(true, Some(0), "", "b")), Ok("[stderr] b".to_string()));
    assert_eq!(handle_shell(finished(false, Some(2), "", "oops")), Err("Exit code 2: [stderr] oops".to_string()));
    assert_eq!(handle_shell(finished(false, None, "", "")), Err("Exit code -1: (no output)".to_string()));
    assert_eq!(
        handle_shell(ProcessOutcome::SpawnFailed("denied".to_string())),
        Err("Failed to execute shell command: denied".to_string())
    );
}

fn proc(pid: u32, name: &str, cpu: f32) -> ProcessRow {
    ProcessRow {
        pid,
        name: name.to_string(),
        memory: 2048 * 1024,
        status: "Run".to_string(),
        cpu_text: format!("{:.1}", cpu),
        cpu_order: cpu.to_bits() as u64,
    }
}

#[test]
fn processes_busiest_first() {
    let ps = vec![proc(1, "init", 0.0), proc(20, "busy", 50.5), proc(7, "mid", 3.25), proc(8, "also-mid", 3.25)];
    let out = handle_processes(ps).unwrap();
    let lines: Vec<&str> = out.lines().collect();
    assert_eq!(lines[0], format!("  {:<8} {:<30} {:>6} {:>10} {:<10}", "PID", "NAME", "CPU%", "MEM (KB)", "STATUS"));
    assert_eq!(lines[1], format!("  {}", "─".repeat(70)));
    assert_eq!(lines[2], format!("  {:<8} {:<30} {:>5.1}% {:>10} {:<10}", 20, "busy", 50.5f32, 2048, "Run"));
    assert!(lines[3].starts_with("  7 "));
    assert!(lines[4].starts_with("  8 "));
    assert!(lines[5].starts_with("  1 "));
    assert_eq!(*lines.last().unwrap(), "  Total processes: 4");
}

#[test]
fn process_names_are_cut() {
    let out = handle_processes(vec![proc(1, "a-process-with-a-very-long-name", 1.0)]).unwrap();
    assert!(out.contains("a-process-with-a-very-long-…"));
}

#[test]
fn process_names_cut_at_a_character_boundary() {
    // 'ä' takes two bytes, so byte 27 falls inside a character.
    let out = handle_processes(vec![proc(7, &"ä".repeat(20), 1.0)]).unwrap();
    assert!(out.contains(&format!("{}…", "ä".repeat(13))), "{}", out);
    assert!(!out.contains(&"ä".repeat(14)));
}
