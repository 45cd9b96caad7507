use rustree::classify::classify;
use rustree::classify::name_is_protected;
use rustree::classify::record_is_stale;
use rustree::config::Config;
use rustree::record::BranchRecord;

const DAY: i64 = 86400;

fn record(name: &str, epoch: i64, author: &str) -> BranchRecord {
    BranchRecord {
        name: name.to_string(),
        tip_commit_id: vec![0x11, 0x22],
        last_commit_epoch: epoch,
        last_author: author.to_string(),
    }
}

fn protected(names: &[&str]) -> Vec<String> {
    names.iter().map(|n| n.to_string()).collect()
}

#[test]
fn exact_threshold_age_is_not_stale() {
    let now: i64 = 1_000_000 * DAY;
    let records = vec![record("edge", now - 30 * DAY, "a")];
    let stale = classify(&records, &protected(&[]), 30, now);
    assert_eq!(stale.len(), 0);
    // one second past the threshold day boundary is still age 30
    let records = vec![record("edge", now - 30 * DAY - 1, "a")];
    let stale = classify(&records, &protected(&[]), 30, now);
    assert_eq!(stale.len(), 0);
    // a full day past the threshold is stale
    let records = vec![record("edge", now - 31 * DAY, "a")];
    let stale = classify(&records, &protected(&[]), 30, now);
    assert_eq!(stale.len(), 1);
}

#[test]
fn protected_names_are_excluded_regardless_of_age() {
    let now: i64 = 500_000 * DAY;
    let records = vec![
        record("master", now - 10_000 * DAY, "a"),
        record("develop", now - 31 * DAY, "b"),
    ];
    let stale = classify(&records, &protected(&["master", "develop"]), 30, now);
    assert_eq!(stale.len(), 0);
}

#[test]
fn classifier_preserves_input_order() {
    let now: i64 = 500_000 * DAY;
    let records = vec![
        record("one", now - 100 * DAY, "a"),
        record("keep", now - 1 * DAY, "b"),
        record("two", now - 40 * DAY, "c"),
        record("three", now - 90 * DAY, "d"),
    ];
    let stale = classify(&records, &protected(&[]), 30, now);
    let names: Vec<&str> = stale.iter().map(|r| r.name.as_str()).collect();
    assert_eq!(names, vec!["one", "two", "three"]);
}

#[test]
fn example_repository_classification() {
    // branches: main (tip today, protected), feature-x (45 days old, Alice),
    // old-spike (10 days old); threshold 30 -> only feature-x is stale
    let now: i64 = 800_000 * DAY;
    let records = vec![
        record("main", now, "m"),
        record("feature-x", now - 45 * DAY, "Alice"),
        record("old-spike", now - 10 * DAY, "s"),
    ];
    let stale = classify(&records, &protected(&["main"]), 30, now);
    assert_eq!(stale.len(), 1);
    assert_eq!(stale[0].name, "feature-x");
    assert_eq!(stale[0].last_author, "Alice");
}

#[test]
fn future_commits_are_never_stale() {
    let now: i64 = 500_000 * DAY;
    let records = vec![record("ahead", now + 100 * DAY, "a")];
    let stale = classify(&records, &protected(&[]), 0, now);
    assert_eq!(stale.len(), 0);
}

#[test]
fn membership_check_is_exact_and_case_sensitive() {
    let prot = protected(&["Main", "dev"]);
    assert!(name_is_protected(&"Main".to_string(), &prot));
    assert!(!name_is_protected(&"main".to_string(), &prot));
    assert!(!name_is_protected(&"de".to_string(), &prot));
}

#[test]
fn single_record_staleness_decision() {
    let now: i64 = 500_000 * DAY;
    let prot = protected(&["keep"]);
    assert!(record_is_stale(&record("x", now - 31 * DAY, "a"), &prot, 30, now));
    assert!(!record_is_stale(&record("keep", now - 31 * DAY, "a"), &prot, 30, now));
    assert!(!record_is_stale(&record("x", now - 29 * DAY, "a"), &prot, 30, now));
}

#[test]
fn default_config_policy() {
    let c = Config::default();
    assert_eq!(c.default_remote, "main");
    assert_eq!(c.protected_branches, vec!["origin", "master", "develop"]);
    assert_eq!(c.max_branch_age_days, 30);
}
