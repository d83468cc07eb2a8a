use commit_crafter::install;
use commit_crafter::numfmt;

#[test]
fn test_hook_script() {
    let script = install::hook_script("/usr/local/bin/commit_crafter");
    assert!(script.contains("#!/bin/sh"));
    assert!(script.contains("COMMIT_MSG=$(/usr/local/bin/commit_crafter)"));
    assert!(script.contains("echo \"$COMMIT_MSG\" > $1"));
    assert!(script.ends_with("\n"));
}

#[test]
fn test_project_config_dir() {
    let dir = install::project_config_dir("/home/user", "myproject", 0xdeadbeef);
    assert_eq!(
        dir,
        "/home/user/.config/commit_crafter/projects/myproject-deadbeef"
    );
    assert_eq!(dir, format!("{}/projects/{}-{:x}", "/home/user/.config/commit_crafter", "myproject", 0xdeadbeefu64));
}

#[test]
fn test_global_config_dir() {
    let dir = install::global_config_dir("/home/user");
    assert_eq!(dir, "/home/user/.config/commit_crafter/global");
}

#[test]
fn test_project_name_of() {
    assert_eq!(install::project_name_of("/home/user/myproject"), "myproject");
    assert_eq!(install::project_name_of("relative"), "relative");
    assert_eq!(install::project_name_of("/"), "unknown");
    assert_eq!(install::project_name_of(""), "unknown");
    assert_eq!(install::project_name_of("/a/.."), "unknown");
    assert_eq!(install::project_name_of("/a/."), "unknown");
}

#[test]
fn test_u64_to_dec_string() {
    assert_eq!(numfmt::u64_to_dec_string(0), "0");
    assert_eq!(numfmt::u64_to_dec_string(5), "5");
    assert_eq!(numfmt::u64_to_dec_string(12345), "12345");
    assert_eq!(numfmt::u64_to_dec_string(u64::MAX), format!("{}", u64::MAX));
}

#[test]
fn test_u64_to_hex_string() {
    assert_eq!(numfmt::u64_to_hex_string(0), "0");
    assert_eq!(numfmt::u64_to_hex_string(10), "a");
    assert_eq!(numfmt::u64_to_hex_string(0x1f2e), "1f2e");
    assert_eq!(numfmt::u64_to_hex_string(u64::MAX), format!("{:x}", u64::MAX));
}
