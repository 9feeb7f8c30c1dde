use fluffy::accounts::{get_install_date, get_users};
use fluffy::handlers::ProcessOutcome;

const PASSWD: &str = "root:x:0:0:root:/root:/bin/bash\n\
daemon:x:1:1:daemon:/usr/sbin:/usr/sbin/nologin\n\
alice:x:1000:1000:Alice:/home/alice:/bin/bash\n\
nobody:x:65534:65534:nobody:/nonexistent:/bin/sh\n\
svc:x:1001:1001::/srv:/bin/false\n\
bob:x:1002:1002:Bob:/home/bob:/usr/bin/zsh\n\
short:x:1003\n";

#[test]
fn users_from_passwd() {
    let users = get_users(
        Some(PASSWD),
        |name: &str| if name == "alice" { Some("alice pts/0 Mon\nwtmp begins".to_string()) } else { None },
        || Some("ignored\n".to_string()),
    );
    let names: Vec<&str> = users.iter().map(|u| u.username.as_str()).collect();
    assert_eq!(names, vec!["alice", "bob"]);
    assert!(users.iter().all(|u| u.role == "standard"));
    assert_eq!(users[0].last_login, "alice pts/0 Mon");
    assert_eq!(users[1].last_login, "Unknown");
}

#[test]
fn users_fall_back_to_whoami() {
    let users = get_users(None, |_: &str| None, || Some("carol\n".to_string()));
    assert_eq!(users.len(), 1);
    assert_eq!(users[0].username, "carol");
    assert_eq!(users[0].role, "standard");
    assert_eq!(users[0].last_login, "Current session");
    let none = get_users(Some("root:x:0:0::/root:/bin/bash\n"), |_: &str| None, || None);
    assert!(none.is_empty());
}

#[test]
fn install_date_sources() {
    let never = || -> ProcessOutcome { panic!("ls must not run") };
    assert_eq!(get_install_date(Some(" 2023-05-01 10:00:00.000 +0000\n"), never), "2023-05-01 10:00:00.000 +0000");
    let ls = || ProcessOutcome::Finished {
        success: true,
        code: Some(0),
        stdout: "total 8\n-rw-r--r-- 1 root root 10 Jan  1 installer.log\n".to_string(),
        stderr: String::new(),
    };
    assert_eq!(get_install_date(Some("-\n"), ls), "-rw-r--r-- 1 root root 10 Jan  1 installer.log");
    let failed = || ProcessOutcome::Finished { success: false, code: Some(2), stdout: "a\nb\n".to_string(), stderr: String::new() };
    assert_eq!(get_install_date(None, failed), "Unknown");
}
