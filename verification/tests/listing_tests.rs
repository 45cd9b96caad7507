use rustree::listing::build_listing;
use rustree::listing::list_entries;
use rustree::listing::sort_by_recency;
use rustree::record::BranchRecord;

const DAY: i64 = 86400;

fn record(name: &str, epoch: i64, author: &str) -> BranchRecord {
    BranchRecord {
        name: name.to_string(),
        tip_commit_id: vec![7],
        last_commit_epoch: epoch,
        last_author: author.to_string(),
    }
}

#[test]
fn listing_reports_age_author_and_protection() {
    let now = 600_000 * DAY;
    let records = vec![
        record("main", now - 3 * DAY - 100, "alice"),
        record("feature", now - 45 * DAY, "bob"),
    ];
    let protected = vec!["main".to_string()];
    let entries = build_listing(&records, &protected, now);
    assert_eq!(entries.len(), 2);
    assert_eq!(entries[0].name, "main");
    assert_eq!(entries[0].age_days, 3);
    assert_eq!(entries[0].last_author, "alice");
    assert!(entries[0].protected);
    assert_eq!(entries[1].name, "feature");
    assert_eq!(entries[1].age_days, 45);
    assert!(!entries[1].protected);
}

#[test]
fn sort_orders_newest_first() {
    let records = vec![
        record("mid", 5_000, "a"),
        record("old", 1_000, "b"),
        record("new", 9_000, "c"),
    ];
    let sorted = sort_by_recency(records);
    let names: Vec<&str> = sorted.iter().map(|r| r.name.as_str()).collect();
    assert_eq!(names, vec!["new", "mid", "old"]);
}

#[test]
fn sort_keeps_every_record() {
    let records = vec![
        record("a", 3, "x"),
        record("b", 3, "y"),
        record("c", 1, "z"),
    ];
    let sorted = sort_by_recency(records);
    assert_eq!(sorted.len(), 3);
    assert_eq!(sorted[2].name, "c");
    let mut first_two: Vec<&str> = sorted[..2].iter().map(|r| r.name.as_str()).collect();
    first_two.sort();
    assert_eq!(first_two, vec!["a", "b"]);
}

#[test]
fn list_entries_sorted_mode_orders_by_recency() {
    // commit times anchored shortly before the present wall clock
    let anchor = 1_700_000_000;
    let records = vec![
        record("older", anchor - 50 * DAY, "a"),
        record("newer", anchor, "b"),
    ];
    let (now, entries) = list_entries(records, &Vec::new(), true);
    assert!(now >= anchor);
    assert_eq!(entries[0].name, "newer");
    assert_eq!(entries[1].name, "older");
    assert!(entries[0].age_days <= entries[1].age_days);
}

#[test]
fn list_entries_plain_mode_keeps_input_order() {
    let anchor = 1_700_000_000;
    let records = vec![
        record("older", anchor - 50 * DAY, "a"),
        record("newer", anchor, "b"),
    ];
    let (_, entries) = list_entries(records, &Vec::new(), false);
    assert_eq!(entries[0].name, "older");
    assert_eq!(entries[1].name, "newer");
}
