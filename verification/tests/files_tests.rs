use fluffy::files::{download_file, list_directory, list_target, local_list_dir, show_file, upload_file, ListedEntry};

fn entry(name: &str, is_dir: bool, len: u64) -> ListedEntry {
    ListedEntry::Entry { name: name.to_string(), is_dir, meta: Some((len, Some("2024-01-02 03:04".to_string()))) }
}

#[test]
fn ls_target_resolves() {
    assert_eq!(list_target(None, "/home/u"), "/home/u");
    assert_eq!(list_target(Some("docs"), "/home/u"), "/home/u/docs");
    assert_eq!(list_target(Some("/etc"), "/home/u"), "/etc");
}

#[test]
fn ls_errors() {
    assert_eq!(list_directory("/nope", false, false, Ok(vec![])), Err("Path does not exist: /nope".to_string()));
    assert_eq!(list_directory("/f", true, false, Ok(vec![])), Err("Not a directory: /f".to_string()));
    assert_eq!(
        list_directory("/d", true, true, Err("denied".to_string())),
        Err("Cannot read directory: denied".to_string())
    );
}

#[test]
fn ls_lists_sorted_dirs_then_files() {
    let es = vec![
        entry("zeta.txt", false, 2048),
        entry("src", true, 4096),
        entry("alpha.txt", false, 10),
        ListedEntry::Entry { name: "odd".to_string(), is_dir: false, meta: None },
        ListedEntry::Failed("broken entry".to_string()),
    ];
    let out = list_directory("/p", true, true, Ok(es)).unwrap();
    let expected = "Directory: /p\n\n  Type      Size  Modified          Name\n  ─────────────────────────────────────────\n  DIR           -  2024-01-02 03:04  src\n  ????          -  -  odd\n  FILE       10 B  2024-01-02 03:04  alpha.txt\n  FILE     2.0 KB  2024-01-02 03:04  zeta.txt\n  [ERROR] broken entry\n\n  1 directories, 4 files";
    assert_eq!(out, expected);
}

#[test]
fn ls_empty_directory() {
    let out = list_directory("/e", true, true, Ok(vec![])).unwrap();
    assert!(out.ends_with("  (empty directory)\n\n  0 directories, 0 files"));
}

#[test]
fn local_listing() {
    let out = local_list_dir("/x", true, Ok(vec![("b".to_string(), false, 1536), ("a".to_string(), true, 0)])).unwrap();
    assert_eq!(out, "Directory: /x\n\n  DIR           -  a\n  FILE     1.5 KB  b\n\n  1 directories, 1 files");
    assert_eq!(local_list_dir("/x", false, Ok(vec![])), Err("Path does not exist: /x".to_string()));
}

#[test]
fn cat_replies() {
    assert_eq!(show_file("/a", false, false, None), Err("File not found: /a".to_string()));
    assert_eq!(show_file("/a", true, true, None), Err("'/a' is a directory, not a file.".to_string()));
    assert_eq!(show_file("/a", true, false, None), Err("Binary file, cannot display.".to_string()));
    assert_eq!(show_file("/a", true, false, Some("hi".to_string())), Ok("hi".to_string()));
    let big = "x".repeat(100_005);
    let out = show_file("/a", true, false, Some(big)).unwrap();
    assert!(out.starts_with(&"x".repeat(100_000)));
    assert!(out.ends_with("\n\n... (file truncated, showing first 100KB of 100005 total bytes)"));
    assert_eq!(out.len(), 100_000 + "\n\n... (file truncated, showing first 100KB of 100005 total bytes)".len());
}

#[test]
fn download_and_upload() {
    assert_eq!(
        download_file("/tmp/a.txt", true, false, Ok(b"Man".to_vec())),
        Ok("FILE_TRANSFER:a.txt:TWFu".to_string())
    );
    assert_eq!(download_file("/tmp/..", true, false, Ok(vec![])), Ok("FILE_TRANSFER:download:".to_string()));
    assert_eq!(download_file("/t", false, false, Ok(vec![])), Err("File not found: /t".to_string()));
    assert_eq!(download_file("/t", true, true, Ok(vec![])), Err("'/t' is a directory, cannot download.".to_string()));
    assert_eq!(
        download_file("/t", true, false, Err("io".to_string())),
        Err("Failed to read file '/t': io".to_string())
    );
    assert_eq!(
        upload_file("a.bin", 3, "/home/u", Ok(())),
        Ok("File 'a.bin' uploaded successfully (3 bytes) to /home/u/a.bin".to_string())
    );
    assert_eq!(
        upload_file("a.bin", 3, "/home/u", Err("full".to_string())),
        Err("Failed to save uploaded file '/home/u/a.bin': full".to_string())
    );
}

#[test]
fn cat_cuts_long_text_at_a_character_boundary() {
    // 99999 ASCII bytes, then a three-byte character across the limit.
    let mut text = "a".repeat(99_999);
    text.push('€');
    text.push_str("tail");
    let total = text.len();
    let out = show_file("/f", true, false, Some(text)).unwrap();
    let want = format!(
        "{}\n\n... (file truncated, showing first 100KB of {} total bytes)",
        "a".repeat(99_999),
        total
    );
    assert_eq!(out, want);
}

#[test]
fn download_names_the_uploaded_file_and_carries_its_bytes() {
    let up = upload_file("notes.txt", 5, "/home/me", Ok(()));
    assert_eq!(up, Ok("File 'notes.txt' uploaded successfully (5 bytes) to /home/me/notes.txt".to_string()));
    let target = fluffy::files::resolve("notes.txt", "/home/me");
    assert_eq!(
        download_file(&target, true, false, Ok(b"hello".to_vec())),
        Ok("FILE_TRANSFER:notes.txt:aGVsbG8=".to_string())
    );
}
