use rustree::cleanup::CleanupAction;
use rustree::cleanup::CleanupEvent;
use rustree::cleanup::CleanupParams;
use rustree::cleanup::CleanupState;
use rustree::cleanup::cleanup_step;
use rustree::cleanup::new_cleanup_params;
use rustree::error::BranchError;
use rustree::record::RawBranch;
use rustree::record::RawCommit;

const DAY: i64 = 86400;

fn raw(name: &str, id: u8, seconds: i64) -> RawBranch {
    RawBranch {
        name: Some(name.to_string()),
        tip: Some(RawCommit { id: vec![id], seconds, author: Some("a".to_string()) }),
    }
}

fn params(protected: &[&str], threshold_days: u32, dry_run: bool, now: i64) -> CleanupParams {
    CleanupParams {
        protected: protected.iter().map(|n| n.to_string()).collect(),
        threshold_days,
        dry_run,
        now,
    }
}

#[test]
fn full_run_deletes_each_stale_branch_once() {
    let now = 700_000 * DAY;
    let p = params(&["main"], 30, false, now);
    let raws = vec![
        raw("main", 1, now),
        raw("old-a", 2, now - 60 * DAY),
        raw("fresh", 3, now - 2 * DAY),
        raw("old-b", 4, now - 45 * DAY),
    ];
    let (st, act) = cleanup_step(&p, CleanupState::Collecting, CleanupEvent::Collected { raw: raws });
    assert!(matches!(act, CleanupAction::ReportStale));
    match &st {
        CleanupState::Reporting { stale } => {
            let names: Vec<&str> = stale.iter().map(|r| r.name.as_str()).collect();
            assert_eq!(names, vec!["old-a", "old-b"]);
        },
        _ => panic!("expected a reporting state"),
    }
    let (st, act) = cleanup_step(&p, st, CleanupEvent::Acknowledged);
    assert!(matches!(act, CleanupAction::PromptConfirm));
    assert!(matches!(st, CleanupState::Confirming { .. }));
    let (st, act) = cleanup_step(&p, st, CleanupEvent::ConfirmAnswer { yes: true });
    match &act {
        CleanupAction::DeleteBranch { name } => assert_eq!(name, "old-a"),
        _ => panic!("expected a deletion request"),
    }
    let (st, act) = cleanup_step(&p, st, CleanupEvent::DeletionSucceeded);
    match &act {
        CleanupAction::DeleteBranch { name } => assert_eq!(name, "old-b"),
        _ => panic!("expected a deletion request"),
    }
    let (st, act) = cleanup_step(&p, st, CleanupEvent::DeletionSucceeded);
    assert!(matches!(act, CleanupAction::ReportDeleted { count: 2 }));
    assert!(matches!(st, CleanupState::Finished { deleted: 2 }));
}

#[test]
fn dry_run_reports_but_never_prompts_or_deletes() {
    let now = 700_000 * DAY;
    let p = params(&[], 30, true, now);
    let raws = vec![raw("old-a", 1, now - 60 * DAY), raw("old-b", 2, now - 45 * DAY)];
    let (st, act) = cleanup_step(&p, CleanupState::Collecting, CleanupEvent::Collected { raw: raws });
    assert!(matches!(act, CleanupAction::ReportStale));
    let (st, act) = cleanup_step(&p, st, CleanupEvent::Acknowledged);
    // the run ends after the report: no confirmation, no deletion
    assert!(matches!(act, CleanupAction::ReportSkipped));
    assert!(matches!(st, CleanupState::Finished { deleted: 0 }));
}

#[test]
fn empty_stale_set_short_circuits_without_prompt() {
    let now = 700_000 * DAY;
    let p = params(&["main"], 30, false, now);
    let raws = vec![raw("main", 1, now - 90 * DAY), raw("fresh", 2, now - 3 * DAY)];
    let (st, act) = cleanup_step(&p, CleanupState::Collecting, CleanupEvent::Collected { raw: raws });
    assert!(matches!(act, CleanupAction::ReportNoStale));
    assert!(matches!(st, CleanupState::Finished { deleted: 0 }));
}

#[test]
fn declined_confirmation_deletes_nothing() {
    let now = 700_000 * DAY;
    let p = params(&[], 30, false, now);
    let raws = vec![raw("old-a", 1, now - 60 * DAY)];
    let (st, _) = cleanup_step(&p, CleanupState::Collecting, CleanupEvent::Collected { raw: raws });
    let (st, _) = cleanup_step(&p, st, CleanupEvent::Acknowledged);
    let (st, act) = cleanup_step(&p, st, CleanupEvent::ConfirmAnswer { yes: false });
    assert!(matches!(act, CleanupAction::ReportSkipped));
    assert!(matches!(st, CleanupState::Finished { deleted: 0 }));
}

#[test]
fn deletion_failure_aborts_keeping_earlier_deletions() {
    let now = 700_000 * DAY;
    let p = params(&[], 30, false, now);
    let raws = vec![raw("old-a", 1, now - 60 * DAY), raw("old-b", 2, now - 45 * DAY)];
    let (st, _) = cleanup_step(&p, CleanupState::Collecting, CleanupEvent::Collected { raw: raws });
    let (st, _) = cleanup_step(&p, st, CleanupEvent::Acknowledged);
    let (st, _) = cleanup_step(&p, st, CleanupEvent::ConfirmAnswer { yes: true });
    let (st, act) = cleanup_step(
        &p,
        st,
        CleanupEvent::DeletionFailed {
            error: BranchError::OperationError("checked out".to_string()),
        },
    );
    assert!(matches!(act, CleanupAction::Fail));
    match st {
        CleanupState::Failed { error: BranchError::OperationError(m) } => {
            assert_eq!(m, "checked out")
        },
        _ => panic!("expected a failed state"),
    }
}

#[test]
fn collection_failure_aborts_the_run() {
    let p = params(&[], 30, false, 0);
    let (st, act) = cleanup_step(
        &p,
        CleanupState::Collecting,
        CleanupEvent::CollectionFailed {
            error: BranchError::RepositoryOpenError("no repository".to_string()),
        },
    );
    assert!(matches!(act, CleanupAction::Fail));
    assert!(matches!(st, CleanupState::Failed { .. }));
}

#[test]
fn invalid_branch_name_fails_the_collection_step() {
    let p = params(&[], 30, false, 0);
    let raws = vec![RawBranch { name: None, tip: None }];
    let (st, act) = cleanup_step(&p, CleanupState::Collecting, CleanupEvent::Collected { raw: raws });
    assert!(matches!(act, CleanupAction::Fail));
    assert!(matches!(st, CleanupState::Failed { error: BranchError::InvalidBranchName }));
}

#[test]
fn unexpected_event_leaves_the_state_unchanged() {
    let p = params(&[], 30, false, 0);
    let (st, act) = cleanup_step(&p, CleanupState::Collecting, CleanupEvent::DeletionSucceeded);
    assert!(matches!(act, CleanupAction::Idle));
    assert!(matches!(st, CleanupState::Collecting));
    let (st, act) = cleanup_step(&p, CleanupState::Finished { deleted: 3 }, CleanupEvent::Acknowledged);
    assert!(matches!(act, CleanupAction::Idle));
    assert!(matches!(st, CleanupState::Finished { deleted: 3 }));
}

#[test]
fn second_run_after_full_deletion_finds_nothing_stale() {
    let now = 700_000 * DAY;
    let p = params(&["main"], 30, false, now);
    let all = vec![
        raw("main", 1, now),
        raw("old-a", 2, now - 60 * DAY),
        raw("fresh", 3, now - 2 * DAY),
    ];
    let (st, _) = cleanup_step(&p, CleanupState::Collecting, CleanupEvent::Collected { raw: all });
    let (st, _) = cleanup_step(&p, st, CleanupEvent::Acknowledged);
    let (st, _) = cleanup_step(&p, st, CleanupEvent::ConfirmAnswer { yes: true });
    let (st, _) = cleanup_step(&p, st, CleanupEvent::DeletionSucceeded);
    assert!(matches!(st, CleanupState::Finished { deleted: 1 }));
    // the surviving branches, re-collected with the same threshold
    let survivors = vec![raw("main", 1, now), raw("fresh", 3, now - 2 * DAY)];
    let (st, act) = cleanup_step(&p, CleanupState::Collecting, CleanupEvent::Collected { raw: survivors });
    assert!(matches!(act, CleanupAction::ReportNoStale));
    assert!(matches!(st, CleanupState::Finished { deleted: 0 }));
}

#[test]
fn params_are_stamped_with_a_representable_time() {
    let p = new_cleanup_params(vec!["main".to_string()], 14, true);
    assert_eq!(p.protected, vec!["main"]);
    assert_eq!(p.threshold_days, 14);
    assert!(p.dry_run);
    assert!(p.now >= rustree::age::MIN_EPOCH_SECONDS && p.now <= rustree::age::MAX_EPOCH_SECONDS);
    // the stamp is the wall clock, well past the start of 2020
    assert!(p.now > 1_577_836_800);
}
