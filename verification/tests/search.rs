use rush::command::path::{
    find_in_path, is_builtin, is_executable, join_path, search_candidates, split_search_path,
    Probe,
};

const HIT: Probe = Probe { exists: true, mode: Some(0o100755) };
const PLAIN_FILE: Probe = Probe { exists: true, mode: Some(0o100644) };
const MISSING: Probe = Probe { exists: false, mode: None };

#[test]
fn executable_needs_one_of_the_three_bits() {
    assert!(is_executable(Some(0o755)));
    assert!(is_executable(Some(0o100)));
    assert!(is_executable(Some(0o010)));
    assert!(is_executable(Some(0o001)));
    assert!(is_executable(Some(0o100711)));
    assert!(!is_executable(Some(0o644)));
    assert!(!is_executable(Some(0o100666)));
    assert!(!is_executable(Some(0)));
    assert!(!is_executable(None));
}

#[test]
fn builtin_names_are_exact() {
    for name in ["cd", "echo", "exit", "pwd", "type"] {
        assert!(is_builtin(name), "{name}");
    }
    for name in ["", "CD", "Echo", "ech", "echoo", "e cho", "types", "'cd'"] {
        assert!(!is_builtin(name), "{name}");
    }
    assert!(is_builtin("\n pwd\t"));
}

#[test]
fn join_path_agrees_with_std() {
    let dirs = ["", "/", "/bin", "/bin/", "bin", "./bin", "/usr/local/bin", "a//"];
    let names = ["", "ls", "/bin/ls", "sub/ls", "./ls", "/", "ls/"];
    for dir in dirs {
        for name in names {
            let want = std::path::Path::new(dir).join(name);
            assert_eq!(
                join_path(dir, name),
                want.to_string_lossy(),
                "{dir:?} and {name:?}"
            );
        }
    }
}

#[test]
fn join_path_examples() {
    assert_eq!(join_path("/usr/bin", "ls"), "/usr/bin/ls");
    assert_eq!(join_path("/usr/bin/", "ls"), "/usr/bin/ls");
    assert_eq!(join_path("", "ls"), "ls");
    assert_eq!(join_path("/usr/bin", "/bin/ls"), "/bin/ls");
}

#[test]
fn search_path_splits_at_every_colon() {
    assert_eq!(split_search_path(""), vec![""]);
    assert_eq!(split_search_path("/bin"), vec!["/bin"]);
    assert_eq!(split_search_path("/bin:/usr/bin"), vec!["/bin", "/usr/bin"]);
    assert_eq!(split_search_path(":/bin"), vec!["", "/bin"]);
    assert_eq!(split_search_path("/bin:"), vec!["/bin", ""]);
    assert_eq!(split_search_path("a::b"), vec!["a", "", "b"]);
    assert_eq!(split_search_path(":"), vec!["", ""]);
}

#[test]
fn candidates_follow_the_search_path() {
    assert_eq!(
        search_candidates("ls", Some("/usr/local/bin:/usr/bin:/bin")),
        vec!["/usr/local/bin/ls", "/usr/bin/ls", "/bin/ls"]
    );
    assert_eq!(
        search_candidates("/bin/ls", Some("/usr/bin:/sbin")),
        vec!["/bin/ls", "/bin/ls"]
    );
    assert_eq!(search_candidates("ls", Some("")), vec!["ls"]);
    assert_eq!(search_candidates("ls", None), Vec::<String>::new());
}

#[test]
fn first_match_wins() {
    let path = Some("/a:/b:/c");
    let found = find_in_path("x", path, &vec![MISSING, HIT, HIT]).unwrap();
    assert_eq!(found.as_deref(), Some("/b/x"));
    let found = find_in_path("x", path, &vec![HIT, HIT, HIT]).unwrap();
    assert_eq!(found.as_deref(), Some("/a/x"));
    let found = find_in_path("x", path, &vec![MISSING, MISSING, HIT]).unwrap();
    assert_eq!(found.as_deref(), Some("/c/x"));
}

#[test]
fn the_order_of_the_search_path_decides() {
    let found = find_in_path("x", Some("/a:/b"), &vec![HIT, HIT]).unwrap();
    assert_eq!(found.as_deref(), Some("/a/x"));
    let found = find_in_path("x", Some("/b:/a"), &vec![HIT, HIT]).unwrap();
    assert_eq!(found.as_deref(), Some("/b/x"));
}

#[test]
fn a_file_that_cannot_be_executed_is_passed_over() {
    let path = Some("/a:/b");
    let found = find_in_path("x", path, &vec![PLAIN_FILE, HIT]).unwrap();
    assert_eq!(found.as_deref(), Some("/b/x"));
    let found = find_in_path("x", path, &vec![PLAIN_FILE, PLAIN_FILE]).unwrap();
    assert_eq!(found, None);
    let unreadable = Probe { exists: true, mode: None };
    assert_eq!(find_in_path("x", path, &vec![unreadable, MISSING]).unwrap(), None);
    let gone = Probe { exists: false, mode: Some(0o755) };
    assert_eq!(find_in_path("x", path, &vec![gone, MISSING]).unwrap(), None);
}

#[test]
fn nothing_is_found_without_a_search_path() {
    assert_eq!(find_in_path("x", None, &vec![]).unwrap(), None);
    assert_eq!(find_in_path("x", None, &vec![HIT, HIT]).unwrap(), None);
}

#[test]
fn a_path_without_a_probe_is_not_found() {
    let path = Some("/a:/b:/c");
    assert_eq!(find_in_path("x", path, &vec![]).unwrap(), None);
    assert_eq!(find_in_path("x", path, &vec![MISSING]).unwrap(), None);
    let found = find_in_path("x", path, &vec![MISSING, HIT]).unwrap();
    assert_eq!(found.as_deref(), Some("/b/x"));
    let found = find_in_path("x", path, &vec![MISSING, MISSING, MISSING, HIT]).unwrap();
    assert_eq!(found, None);
}
