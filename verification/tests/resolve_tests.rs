//! Search-path splitting and executable resolution over a directory listing.

use vshell::resolve::{resolve_command, split_path, FileEntry};

fn entry(name: &str, path: &str, executable: bool) -> FileEntry {
    FileEntry { name: name.to_string(), path: path.to_string(), executable }
}

#[test]
fn split_path_on_colons() {
    assert_eq!(split_path("/usr/bin:/bin"), vec!["/usr/bin".to_string(), "/bin".to_string()]);
    assert_eq!(split_path("/bin"), vec!["/bin".to_string()]);
}

#[test]
fn split_path_keeps_empty_pieces() {
    assert_eq!(split_path(""), vec!["".to_string()]);
    assert_eq!(
        split_path("/bin::/sbin:"),
        vec!["/bin".to_string(), "".to_string(), "/sbin".to_string(), "".to_string()]
    );
}

#[test]
fn resolve_picks_the_first_match() {
    let entries = vec![
        entry("cat", "/bin/cat", true),
        entry("ls", "/bin/ls", true),
        entry("ls", "/usr/bin/ls", true),
    ];
    assert_eq!(resolve_command(&entries, "ls"), Some("/bin/ls".to_string()));
}

#[test]
fn resolve_requires_the_executable_bit() {
    let entries = vec![
        entry("ls", "/data/ls", false),
        entry("ls", "/usr/bin/ls", true),
    ];
    assert_eq!(resolve_command(&entries, "ls"), Some("/usr/bin/ls".to_string()));
    let only_plain = vec![entry("ls", "/data/ls", false)];
    assert_eq!(resolve_command(&only_plain, "ls"), None);
}

#[test]
fn resolve_matches_the_name_exactly() {
    let entries = vec![entry("lsof", "/usr/bin/lsof", true)];
    assert_eq!(resolve_command(&entries, "ls"), None);
    assert_eq!(resolve_command(&entries, "lsof"), Some("/usr/bin/lsof".to_string()));
}

#[test]
fn resolve_on_an_empty_listing() {
    assert_eq!(resolve_command(&Vec::new(), "ls"), None);
}
