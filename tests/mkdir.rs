use dirtools::creation::{create_call, creation_order, CreateCall};
use dirtools::outcome::{creation_line, no_paths_notice, Failure, FailureKind, Line};

fn strings(v: &[&str]) -> Vec<String> {
    v.iter().map(|s| s.to_string()).collect()
}

#[test]
fn creation_takes_last_path_first() {
    let order = creation_order(strings(&["/tmp/mkdir/test", "/tmp/mkdir"]));
    assert_eq!(order, strings(&["/tmp/mkdir", "/tmp/mkdir/test"]));
}

#[test]
fn creation_order_of_three() {
    assert_eq!(creation_order(strings(&["a", "b", "c"])), strings(&["c", "b", "a"]));
    assert_eq!(creation_order(Vec::new()), Vec::<String>::new());
}

#[test]
fn creation_failure_is_a_diagnostic() {
    let outcome = Err(Failure { kind: FailureKind::AlreadyExists, reason: "File exists (os error 17)".to_string() });
    match creation_line(&"/tmp/x".to_string(), &outcome, false) {
        Some(Line::Error(s)) => assert_eq!(s, "mkdir: /tmp/x: File exists (os error 17)"),
        _ => panic!("expected a diagnostic"),
    }
}

#[test]
fn creation_success_prints_only_when_verbose() {
    let path = "/tmp/x".to_string();
    match creation_line(&path, &Ok(()), true) {
        Some(Line::Output(s)) => assert_eq!(s, "/tmp/x"),
        _ => panic!("expected the path"),
    }
    assert!(creation_line(&path, &Ok(()), false).is_none());
}

#[test]
fn zero_paths_give_notice() {
    assert_eq!(no_paths_notice(&Vec::new()), Some("No directories given.".to_string()));
    assert_eq!(no_paths_notice(&strings(&["a"])), None);
}

#[test]
fn create_call_follows_parents_flag() {
    assert_eq!(create_call(true), CreateCall::WithParents);
    assert_eq!(create_call(false), CreateCall::Single);
}
