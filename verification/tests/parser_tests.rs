use fluffy::commands::Command;
use fluffy::parser::parse_command;

#[test]
fn test_parse_ls() {
    let cmd = parse_command("ls").unwrap();
    assert!(matches!(cmd, Command::Ls { path: None }));

    let cmd = parse_command("ls /tmp").unwrap();
    assert!(matches!(cmd, Command::Ls { path: Some(ref p) } if p == "/tmp"));
}

#[test]
fn test_parse_cd() {
    assert!(parse_command("cd").is_none());
    let cmd = parse_command("cd /home").unwrap();
    assert!(matches!(cmd, Command::Cd { path: ref p } if p == "/home"));
}

#[test]
fn test_parse_kill() {
    assert!(parse_command("kill").is_none());
    assert!(parse_command("kill abc").is_none());
    let cmd = parse_command("kill 1234").unwrap();
    assert!(matches!(cmd, Command::Kill { pid: 1234 }));
}

#[test]
fn test_parse_notify() {
    let cmd = parse_command(r#"notify "hello world""#).unwrap();
    assert!(matches!(cmd, Command::Notify { message: ref m } if m == "hello world"));
}

#[test]
fn test_parse_shell() {
    let cmd = parse_command("sh echo hello").unwrap();
    assert!(matches!(cmd, Command::Shell { command: ref c } if c == "echo hello"));
}

#[test]
fn test_parse_unknown() {
    assert!(parse_command("unknown_cmd").is_none());
}

#[test]
fn parse_is_case_insensitive_and_trims() {
    let cmd = parse_command("  LS   /var/log  ").unwrap();
    assert!(matches!(cmd, Command::Ls { path: Some(ref p) } if p == "/var/log"));
    let cmd = parse_command("\u{212A}ill 7").unwrap();
    assert!(matches!(cmd, Command::Kill { pid: 7 }));
    assert!(parse_command("   \t ").is_none());
    assert!(parse_command("").is_none());
}

#[test]
fn parse_kill_bounds() {
    assert!(matches!(parse_command("kill +42").unwrap(), Command::Kill { pid: 42 }));
    assert!(matches!(parse_command("kill 4294967295").unwrap(), Command::Kill { pid: 4294967295 }));
    assert!(parse_command("kill 4294967296").is_none());
    assert!(parse_command("kill -1").is_none());
    assert!(parse_command("kill +").is_none());
}

#[test]
fn parse_matches_std_on_samples() {
    // The same decisions as splitting with the standard library.
    for line in ["disk --info", "ping", "PING extra", "upload a.txt", "download", "notify 'hi'", "cat  f ", "Whoami"] {
        let t = line.trim();
        let parts: Vec<&str> = t.splitn(2, char::is_whitespace).collect();
        let word = parts[0].to_lowercase();
        let known = ["ls", "pwd", "whoami", "sysinfo", "processes", "disk", "lock", "shutdown", "restart", "alert", "locate", "netinfo", "users", "screenshot", "clipboard", "battery", "ping"];
        if known.contains(&word.as_str()) {
            assert!(parse_command(line).is_some(), "{}", line);
        }
    }
    assert!(matches!(parse_command("notify 'hi'").unwrap(), Command::Notify { message: ref m } if m == "hi"));
    assert!(matches!(parse_command("upload a.txt").unwrap(), Command::Upload { ref filename, ref data } if filename == "a.txt" && data.is_empty()));
    assert!(parse_command("download").is_none());
    assert!(matches!(parse_command("cat  f ").unwrap(), Command::Cat { path: ref p } if p == "f"));
}

#[test]
fn trimmed_lines_parse_the_same() {
    for line in ["  sh echo hi  ", "\tcd /tmp\n", "kill 12 ", "  ", " unknown ", "ls"] {
        let a = format!("{:?}", parse_command(line));
        let b = format!("{:?}", parse_command(line.trim()));
        assert_eq!(a, b, "{:?}", line);
    }
}

#[test]
fn every_command_name_parses_with_an_argument() {
    for m in fluffy::commands::get_client_commands() {
        assert!(parse_command(&format!("{} 1", m.name)).is_some(), "{}", m.name);
        let upper = m.name.to_uppercase();
        assert_eq!(
            format!("{:?}", parse_command(&format!("{} 1", upper))),
            format!("{:?}", parse_command(&format!("{} 1", m.name)))
        );
    }
}

#[test]
fn parsed_lines_name_a_known_command() {
    let names: Vec<&str> = fluffy::commands::get_client_commands().iter().map(|m| m.name).collect();
    for line in ["ls", "PWD", "kill 3", "disk --info", "frob", "Notify hi", "sh", "  cat x "] {
        if parse_command(line).is_some() {
            let word = line.trim().split_whitespace().next().unwrap().to_lowercase();
            assert!(names.contains(&word.as_str()), "{}", line);
        }
    }
}

#[test]
fn case_of_the_word_and_spaces_around_the_argument_do_not_matter() {
    for (word, arg) in [("LS", "  /tmp  "), ("Kill", " 12\t"), ("CD", "   "), ("SH", " echo  hi "), ("PiNg", "")] {
        let a = format!("{:?}", parse_command(&format!("{} {}", word, arg)));
        let b = format!("{:?}", parse_command(&format!("{} {}", word.to_ascii_lowercase(), arg.trim())));
        assert_eq!(a, b, "{:?} {:?}", word, arg);
    }
}
