use commit_crafter::git_integration;

#[test]
fn test_exclude_path() {
    let files_to_exclude = vec![
        "Cargo.lock",
        "pakcage-lock.json",
        "pnpm-lock.yaml",
        "*.lock",
    ];

    let exclude_path: Vec<String> = files_to_exclude
        .iter()
        .map(|path| git_integration::exclude_from_diff(path))
        .collect();

    let expected_exclude_path = vec![
        ":(exclude)Cargo.lock",
        ":(exclude)pakcage-lock.json",
        ":(exclude)pnpm-lock.yaml",
        ":(exclude)*.lock",
    ];

    assert_eq!(exclude_path, expected_exclude_path);
}

#[test]
fn test_git_diff_args() {
    let args = git_integration::git_diff_args();
    assert_eq!(
        args,
        vec![
            "diff",
            "--staged",
            "--ignore-all-space",
            "--diff-algorithm=minimal",
            ":(exclude)Cargo.lock",
            ":(exclude)pakcage-lock.json",
            ":(exclude)pnpm-lock.yaml",
            ":(exclude)*.lock",
        ]
    );
}

#[test]
fn test_git_log_args() {
    let args = git_integration::git_log_args(5);
    assert_eq!(args, vec!["log", "-5", "--pretty=format:%s"]);

    let args = git_integration::git_log_args(100);
    assert_eq!(args, vec!["log", "-100", "--pretty=format:%s"]);

    let args = git_integration::git_log_args(0);
    assert_eq!(args, vec!["log", "-0", "--pretty=format:%s"]);
}

#[test]
fn test_parse_commit_lines() {
    let output = "feat: one\n\n  fix: two  \n\t\nchore: three";
    let commits = git_integration::parse_commit_lines(output);
    assert_eq!(commits, vec!["feat: one", "fix: two", "chore: three"]);
}

#[test]
fn test_parse_commit_lines_empty() {
    let commits = git_integration::parse_commit_lines("");
    assert!(commits.is_empty());

    let commits = git_integration::parse_commit_lines("\n\n   \n");
    assert!(commits.is_empty());
}

#[test]
fn test_parse_commit_lines_trailing_newline() {
    let commits = git_integration::parse_commit_lines("only subject\n");
    assert_eq!(commits, vec!["only subject"]);
}

#[test]
fn test_git_root_from_output() {
    let root = git_integration::git_root_from_output("/home/user/project\n");
    assert_eq!(root, "/home/user/project");

    let root = git_integration::git_root_from_output("  /a/b \r\n");
    assert_eq!(root, "/a/b");
}

#[test]
fn test_trim_str() {
    assert_eq!(git_integration::trim_str("  hello \t"), "hello");
    assert_eq!(git_integration::trim_str("\u{3000}wide\u{a0}"), "wide");
    assert_eq!(git_integration::trim_str("   "), "");
    assert_eq!(git_integration::trim_str("inner  space"), "inner  space");
}
