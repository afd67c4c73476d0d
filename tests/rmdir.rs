use dirtools::outcome::{removal_line, Failure, FailureKind, Line};
use dirtools::path::removal_target;
use dirtools::removal::Removal;

fn strings(v: &[&str]) -> Vec<String> {
    v.iter().map(|s| s.to_string()).collect()
}

/// Runs a batch, answering each request from `answers` in turn, and returns the requests.
fn requests(paths: &[&str], recursive: bool, answers: &[bool]) -> Vec<String> {
    let mut batch = Removal::new(strings(paths), recursive);
    let mut seen = Vec::new();
    let mut i = 0;
    while let Some(p) = batch.next_request() {
        seen.push(p);
        batch.record(answers.get(i).copied().unwrap_or(false));
        i += 1;
    }
    seen
}

#[test]
fn removal_takes_last_path_first() {
    let seen = requests(&["/tmp/rmdir", "/tmp/rmdir/test"], false, &[true, true]);
    assert_eq!(seen, strings(&["/tmp/rmdir/test", "/tmp/rmdir"]));
}

#[test]
fn recursive_removal_walks_up_until_a_failure() {
    let seen = requests(&["/tmp/rmdir", "/tmp/rmdir/test"], true, &[true, true, false, false]);
    assert_eq!(seen, strings(&["/tmp/rmdir/test", "/tmp/rmdir", "/tmp", "/tmp/rmdir"]));
}

#[test]
fn recursive_walk_ends_at_the_root() {
    let seen = requests(&["/a/b"], true, &[true, true, true]);
    assert_eq!(seen, strings(&["/a/b", "/a", ""]));
    let seen = requests(&["a/b"], true, &[true, true, true]);
    assert_eq!(seen, strings(&["a/b", "a"]));
}

#[test]
fn failed_removal_does_not_walk() {
    let seen = requests(&["x", "/a/b"], true, &[false, true]);
    assert_eq!(seen, strings(&["/a/b", "x"]));
}

#[test]
fn plain_removal_does_not_walk() {
    let seen = requests(&["/a/b/c"], false, &[true]);
    assert_eq!(seen, strings(&["/a/b/c"]));
}

#[test]
fn empty_path_is_invalid_target() {
    match removal_target(&String::new()) {
        Err(f) => {
            assert_eq!(f.kind, FailureKind::InvalidTarget);
            assert_eq!(f.reason, "Empty string...");
        }
        Ok(_) => panic!("empty path accepted"),
    }
    assert_eq!(removal_target(&"/tmp".to_string()).ok(), Some("/tmp".to_string()));
}

#[test]
fn empty_path_does_not_stop_the_batch() {
    let seen = requests(&["a", "", "b"], false, &[true, false, true]);
    assert_eq!(seen, strings(&["b", "", "a"]));
    let outcome = removal_target(&String::new()).map(|_| ());
    match removal_line(&String::new(), &outcome, true) {
        Some(Line::Error(s)) => assert_eq!(s, "rmdir: : Empty string..."),
        _ => panic!("expected a diagnostic"),
    }
}

#[test]
fn removal_success_prints_removed_when_verbose() {
    let path = "/tmp/y".to_string();
    match removal_line(&path, &Ok(()), true) {
        Some(Line::Output(s)) => assert_eq!(s, "Removed /tmp/y"),
        _ => panic!("expected a confirmation"),
    }
    assert!(removal_line(&path, &Ok(()), false).is_none());
}

#[test]
fn removal_failure_is_a_diagnostic() {
    let outcome = Err(Failure { kind: FailureKind::NotEmpty, reason: "Directory not empty (os error 39)".to_string() });
    match removal_line(&"/tmp".to_string(), &outcome, true) {
        Some(Line::Error(s)) => assert_eq!(s, "rmdir: /tmp: Directory not empty (os error 39)"),
        _ => panic!("expected a diagnostic"),
    }
}

#[test]
fn removal_target_drops_surrounding_white_space() {
    assert_eq!(removal_target(&" a".to_string()).ok(), Some("a".to_string()));
    assert_eq!(removal_target(&"\t/tmp/x \n".to_string()).ok(), Some("/tmp/x".to_string()));
    assert_eq!(removal_target(&"a b".to_string()).ok(), Some("a b".to_string()));
    assert_eq!(removal_target(&"   ".to_string()).ok(), Some(String::new()));
}
