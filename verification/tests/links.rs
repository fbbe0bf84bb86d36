use symbolic::break_outcome;
use symbolic::link_outcome;
use symbolic::make_symlinks;
use symbolic::plan_break;
use symbolic::plan_link;
use symbolic::BreakAttempt;
use symbolic::BreakStep;
use symbolic::LinkAttempt;
use symbolic::LinkStep;
use symbolic::Outcome;

#[test]
fn existing_link_is_skipped() {
    // The idempotence guarantee: once the target is a symlink, a repeated
    // run plans nothing and reports a skip.
    assert!(matches!(plan_link("/t/l", true), LinkStep::AlreadyLinked));
    assert!(matches!(
        link_outcome("/s", "/t/l", LinkAttempt::AlreadySymlink),
        Outcome::Skipped
    ));
}

#[test]
fn missing_parent_is_created_before_linking() {
    match plan_link("/t/deep/l", false) {
        LinkStep::EnsureParentThenLink { parent } => assert_eq!(parent, "/t/deep"),
        other => panic!("expected a parent-then-link step, got {:?}", other),
    }
}

#[test]
fn rootlike_target_has_no_parent() {
    assert!(matches!(plan_link("/", false), LinkStep::NoParent));
    let msg = match link_outcome("/s", "/", LinkAttempt::NoParentDir) {
        Outcome::Failed { message } => message,
        _ => panic!("expected a failure"),
    };
    assert_eq!(msg, "Failed to create link directory. /\n");
}

#[test]
fn link_failure_message_names_both_paths() {
    let msg = match link_outcome("/s", "/t", LinkAttempt::LinkFailed { error: "denied".to_string() })
    {
        Outcome::Failed { message } => message,
        _ => panic!("expected a failure"),
    };
    assert_eq!(msg, "Failed to form the following link:\n\t/s -> /t,\nError: denied\n");
}

#[test]
fn dir_failure_message_carries_the_error() {
    let msg = match link_outcome("/s", "/t", LinkAttempt::DirFailed { error: "full".to_string() }) {
        Outcome::Failed { message } => message,
        _ => panic!("expected a failure"),
    };
    assert_eq!(msg, "Failed to create target link parent directory.\nfull\n");
}

#[test]
fn successful_link_is_created() {
    assert!(matches!(link_outcome("/s", "/t", LinkAttempt::Linked), Outcome::Created));
}

#[test]
fn break_refuses_non_symlink() {
    assert!(matches!(plan_break("/t", false, false), BreakStep::NotALink));
    let msg = break_outcome("/t", BreakAttempt::NotSymlink).unwrap_err();
    assert_eq!(msg, "Cannot break link provided target: `/t` is not a symbolic link!\n");
}

#[test]
fn break_removes_the_link_path_itself() {
    // Removal always names the link path, never the link's referent.
    match plan_break("/t/link", true, true) {
        BreakStep::RemoveTree { path } => assert_eq!(path, "/t/link"),
        _ => panic!("expected a tree removal"),
    }
    match plan_break("/t/link", true, false) {
        BreakStep::RemoveFile { path } => assert_eq!(path, "/t/link"),
        _ => panic!("expected a file removal"),
    }
}

#[test]
fn break_failure_message_carries_the_error() {
    let msg = break_outcome("/t", BreakAttempt::RemoveFailed { error: "busy".to_string() })
        .unwrap_err();
    assert_eq!(msg, "Failed to break link for the directory `/t`\nfs error: busy");
}

#[test]
fn break_success_is_ok() {
    assert!(break_outcome("/t", BreakAttempt::Removed).is_ok());
}

#[test]
fn batch_without_failures_succeeds() {
    assert!(make_symlinks(vec![]).is_ok());
    assert!(make_symlinks(vec![Outcome::Created, Outcome::Skipped]).is_ok());
}

#[test]
fn batch_accumulates_failures_and_continues() {
    // One failing pair and one succeeding pair: the batch still fails as a
    // whole, and the aggregate mentions the failing pair's message only.
    let outcomes = vec![
        Outcome::Failed { message: "first failed\n".to_string() },
        Outcome::Created,
        Outcome::Failed { message: "third failed\n".to_string() },
    ];
    let msg = make_symlinks(outcomes).unwrap_err();
    assert_eq!(msg, "first failed\nthird failed\n");
}

#[test]
fn skipped_pairs_are_not_accumulated() {
    let msg = make_symlinks(vec![
        Outcome::Skipped,
        Outcome::Failed { message: "bad".to_string() },
        Outcome::Skipped,
    ])
    .unwrap_err();
    assert_eq!(msg, "bad");
}
