use fluffy::paths::{change_dir_target, file_name_of, join, parent};

#[test]
fn join_paths() {
    assert_eq!(join("/home/user", "docs"), "/home/user/docs");
    assert_eq!(join("/home/user/", "docs"), "/home/user/docs");
    assert_eq!(join("/home/user", "/etc"), "/etc");
    assert_eq!(join("", "x"), "x");
}

#[test]
fn parents() {
    assert_eq!(parent("/home/user").as_deref(), Some("/home"));
    assert_eq!(parent("/home").as_deref(), Some("/"));
    assert_eq!(parent("/").as_deref(), None);
    assert_eq!(parent("a").as_deref(), Some(""));
    assert_eq!(parent("a/b/").as_deref(), Some("a"));
    assert_eq!(parent("//a").as_deref(), Some("/"));
}

#[test]
fn file_names() {
    assert_eq!(file_name_of("/tmp/report.txt").as_deref(), Some("report.txt"));
    assert_eq!(file_name_of("/tmp/dir/").as_deref(), Some("dir"));
    assert_eq!(file_name_of("/tmp/dir/.").as_deref(), Some("dir"));
    assert_eq!(file_name_of("/tmp/..").as_deref(), None);
    assert_eq!(file_name_of("/").as_deref(), None);
    assert_eq!(file_name_of("./").as_deref(), None);
    for p in ["a/b/c", "/x", "x/", "x/./", "../y", "a//b"] {
        let expected = std::path::Path::new(p).file_name().map(|n| n.to_string_lossy().to_string());
        assert_eq!(file_name_of(p), expected, "{}", p);
    }
}

#[test]
fn cd_targets() {
    assert_eq!(change_dir_target("..", "/home/user", None), "/home");
    assert_eq!(change_dir_target("..", "/", None), "/");
    assert_eq!(change_dir_target("~", "/tmp", Some("/home/me")), "/home/me");
    assert_eq!(change_dir_target("~", "/tmp", None), "/tmp");
    assert_eq!(change_dir_target("docs", "/home/me", None), "/home/me/docs");
    assert_eq!(change_dir_target("/etc", "/home/me", None), "/etc");
}

fn all_paths(max_len: usize) -> Vec<String> {
    let mut out = vec![String::new()];
    let mut last = vec![String::new()];
    for _ in 0..max_len {
        let mut next = Vec::new();
        for p in &last {
            for c in ['/', '.', 'a'] {
                let mut q = p.clone();
                q.push(c);
                next.push(q);
            }
        }
        out.extend(next.iter().cloned());
        last = next;
    }
    out
}

#[test]
fn parents_with_dot_segments() {
    assert_eq!(parent("/a/./b").as_deref(), Some("/a"));
    assert_eq!(parent("/a/b/.").as_deref(), Some("/a"));
    assert_eq!(parent("./a").as_deref(), Some("."));
    assert_eq!(parent(".").as_deref(), Some(""));
    assert_eq!(parent("./").as_deref(), Some(""));
    assert_eq!(parent("..").as_deref(), Some(""));
    assert_eq!(parent("/a/..").as_deref(), Some("/a"));
    assert_eq!(parent("").as_deref(), None);
}

#[test]
fn parents_and_file_names_agree_with_std_path() {
    for p in all_paths(6) {
        let std_parent = std::path::Path::new(&p).parent().map(|x| x.to_str().unwrap().to_string());
        assert_eq!(parent(&p), std_parent, "parent of {:?}", p);
        let std_name = std::path::Path::new(&p).file_name().map(|n| n.to_str().unwrap().to_string());
        assert_eq!(file_name_of(&p), std_name, "file name of {:?}", p);
    }
}
