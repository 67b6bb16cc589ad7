use bcachefs_attr::command::{resolve_colorize, Operation, UsageError};
use bcachefs_attr::executor::{AttrError, Executor, Reply, Step};
use bcachefs_attr::names::namespaced;

fn names(list: &[&str]) -> Vec<Vec<u8>> {
    list.iter().map(|a| a.as_bytes().to_vec()).collect()
}

fn remove_op(list: &[&str], path: &str) -> Operation {
    Operation::remove(names(list), Some(path.as_bytes().to_vec())).unwrap()
}

/// Drives a run, answering each step from the given replies; returns every step.
fn drive(op: Operation, replies: &[Reply]) -> Vec<Step> {
    let (mut exec, first) = Executor::new(op);
    let mut steps = vec![first];
    for reply in replies {
        if !exec.accepts(reply) {
            break;
        }
        steps.push(exec.advance(*reply));
    }
    steps
}

fn remove_step(full: &str) -> Step {
    Step::Remove { name: full.as_bytes().to_vec() }
}

#[test]
fn namespaced_prefixes_token_and_separator() {
    assert_eq!(namespaced(b"foo"), b"bcachefs.foo".to_vec());
    assert_eq!(namespaced(b""), b"bcachefs.".to_vec());
    assert_eq!(namespaced(b"compression"), b"bcachefs.compression".to_vec());
}

#[test]
fn remove_needs_a_path() {
    assert_eq!(Operation::remove(names(&["foo"]), None), Err(UsageError::MissingPath));
    assert_eq!(Operation::remove(Vec::new(), None), Err(UsageError::MissingPath));
}

#[test]
fn remove_needs_an_attribute() {
    assert_eq!(
        Operation::remove(Vec::new(), Some(b"/tmp/x".to_vec())),
        Err(UsageError::MissingAttributes)
    );
}

#[test]
fn remove_rejects_an_empty_name() {
    assert_eq!(
        Operation::remove(names(&["foo", ""]), Some(b"/tmp/x".to_vec())),
        Err(UsageError::EmptyAttribute)
    );
}

#[test]
fn remove_keeps_names_and_path() {
    assert_eq!(
        remove_op(&["foo", "bar", "foo"], "/tmp/x"),
        Operation::Remove { attributes: names(&["foo", "bar", "foo"]), path: b"/tmp/x".to_vec() }
    );
}

#[test]
fn colorize_choice_and_default() {
    assert!(resolve_colorize(Some(true), false));
    assert!(!resolve_colorize(Some(false), true));
    assert!(resolve_colorize(None, true));
    assert!(!resolve_colorize(None, false));
}

#[test]
fn add_succeeds_without_steps() {
    for _ in 0..3 {
        let steps = drive(Operation::Add, &[Reply::Removed, Reply::Propagated]);
        assert_eq!(steps, vec![Step::Finish { result: Ok(()) }]);
    }
}

#[test]
fn file_removals_in_order() {
    let steps = drive(
        remove_op(&["a", "b", "c"], "/tmp/file.txt"),
        &[Reply::Opened { is_dir: false }, Reply::Removed, Reply::Removed, Reply::Removed],
    );
    assert_eq!(
        steps,
        vec![
            Step::Open,
            remove_step("bcachefs.a"),
            remove_step("bcachefs.b"),
            remove_step("bcachefs.c"),
            Step::Finish { result: Ok(()) },
        ]
    );
}

#[test]
fn directory_removals_then_one_propagation() {
    let steps = drive(
        remove_op(&["foo", "bar"], "/tmp/dir"),
        &[Reply::Opened { is_dir: true }, Reply::Removed, Reply::Removed, Reply::Propagated],
    );
    assert_eq!(
        steps,
        vec![
            Step::Open,
            remove_step("bcachefs.foo"),
            remove_step("bcachefs.bar"),
            Step::Propagate,
            Step::Finish { result: Ok(()) },
        ]
    );
    let removals = steps.iter().filter(|s| matches!(s, Step::Remove { .. })).count();
    let propagations = steps.iter().filter(|s| matches!(s, Step::Propagate)).count();
    assert_eq!(removals, 2);
    assert_eq!(propagations, 1);
}

#[test]
fn missing_target_removes_nothing() {
    let steps = drive(
        remove_op(&["foo"], "/tmp/missing"),
        &[Reply::OpenFailed { os_code: Some(2) }, Reply::Removed],
    );
    assert_eq!(
        steps,
        vec![Step::Open, Step::Finish { result: Err(AttrError::Io { os_code: Some(2) }) }]
    );
}

#[test]
fn first_failure_on_file_stops() {
    let steps = drive(
        remove_op(&["foo", "bar"], "/tmp/file.txt"),
        &[Reply::Opened { is_dir: false }, Reply::RemoveFailed { code: 61 }, Reply::Removed],
    );
    assert_eq!(
        steps,
        vec![
            Step::Open,
            remove_step("bcachefs.foo"),
            Step::Finish {
                result: Err(AttrError::Removal { name: b"bcachefs.foo".to_vec(), code: 61 })
            },
        ]
    );
}

#[test]
fn later_failure_on_directory_skips_propagation() {
    let steps = drive(
        remove_op(&["a", "b", "c"], "/tmp/dir"),
        &[
            Reply::Opened { is_dir: true },
            Reply::Removed,
            Reply::RemoveFailed { code: 1 },
            Reply::Removed,
            Reply::Propagated,
        ],
    );
    assert_eq!(
        steps,
        vec![
            Step::Open,
            remove_step("bcachefs.a"),
            remove_step("bcachefs.b"),
            Step::Finish {
                result: Err(AttrError::Removal { name: b"bcachefs.b".to_vec(), code: 1 })
            },
        ]
    );
}

#[test]
fn executor_reports_phase_and_path() {
    let (mut exec, _) = Executor::new(remove_op(&["foo"], "/tmp/dir"));
    assert_eq!(exec.path(), &b"/tmp/dir".to_vec());
    assert!(!exec.is_finished());
    assert!(!exec.accepts(&Reply::Removed));
    assert!(exec.accepts(&Reply::Opened { is_dir: true }));
    exec.advance(Reply::Opened { is_dir: true });
    assert!(!exec.accepts(&Reply::Propagated));
    exec.advance(Reply::Removed);
    assert!(exec.accepts(&Reply::Propagated));
    exec.advance(Reply::Propagated);
    assert!(exec.is_finished());
    assert!(!exec.accepts(&Reply::Propagated));
}
