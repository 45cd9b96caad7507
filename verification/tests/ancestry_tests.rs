use rustree::ancestry::AncestryEdge;
use rustree::ancestry::TipEntry;
use rustree::ancestry::build_ancestry;
use rustree::ancestry::merge_tip_sets;

fn tip(name: &str, id: &[u8], parent: Option<&[u8]>) -> TipEntry {
    TipEntry {
        name: name.to_string(),
        tip_commit_id: id.to_vec(),
        parent_commit_id: parent.map(|p| p.to_vec()),
    }
}

fn edge<'a>(e: &'a AncestryEdge) -> (&'a str, Option<&'a str>, bool) {
    (e.child.as_str(), e.parent.as_deref(), e.is_root)
}

#[test]
fn child_parent_edge_and_root() {
    // feature-x's first parent is main's tip commit; main has no parent
    let tips = vec![
        tip("main", &[0xaa], None),
        tip("feature-x", &[0xbb], Some(&[0xaa])),
    ];
    let edges = build_ancestry(&tips);
    assert_eq!(edges.len(), 2);
    assert_eq!(edge(&edges[0]), ("main", None, true));
    assert_eq!(edge(&edges[1]), ("feature-x", Some("main"), false));
}

#[test]
fn untracked_parent_is_distinct_from_root() {
    let tips = vec![
        tip("root-branch", &[1], None),
        tip("orphan", &[2], Some(&[0x77])),
    ];
    let edges = build_ancestry(&tips);
    assert_eq!(edge(&edges[0]), ("root-branch", None, true));
    // parent exists but is no tracked tip: absent parent, not a root
    assert_eq!(edge(&edges[1]), ("orphan", None, false));
}

#[test]
fn tie_break_takes_the_first_snapshot_entry() {
    // two branches share the parent commit's tip: the earliest entry wins
    let tips = vec![
        tip("first", &[9], None),
        tip("second", &[9], None),
        tip("child", &[3], Some(&[9])),
    ];
    let edges = build_ancestry(&tips);
    assert_eq!(edge(&edges[2]), ("child", Some("first"), false));
}

#[test]
fn self_parent_loops_are_reported_as_edges() {
    let tips = vec![tip("a", &[1], Some(&[2])), tip("b", &[2], Some(&[1]))];
    let edges = build_ancestry(&tips);
    assert_eq!(edge(&edges[0]), ("a", Some("b"), false));
    assert_eq!(edge(&edges[1]), ("b", Some("a"), false));
}

#[test]
fn empty_snapshot_yields_no_edges() {
    let edges = build_ancestry(&Vec::new());
    assert_eq!(edges.len(), 0);
}

#[test]
fn merge_overlay_wins_and_appends() {
    let base = vec![tip("main", &[1], None), tip("dev", &[2], None)];
    let overlay = vec![tip("dev", &[9], None), tip("origin/main", &[1], None)];
    let merged = merge_tip_sets(base, overlay);
    assert_eq!(merged.len(), 3);
    assert_eq!(merged[0].name, "main");
    assert_eq!(merged[0].tip_commit_id, vec![1]);
    // the overlay entry replaced the base entry of the same name in place
    assert_eq!(merged[1].name, "dev");
    assert_eq!(merged[1].tip_commit_id, vec![9]);
    // the new name was appended
    assert_eq!(merged[2].name, "origin/main");
}

#[test]
fn merged_snapshot_feeds_ancestry() {
    let base = vec![tip("main", &[1], None)];
    let overlay = vec![tip("origin/feat", &[2], Some(&[1]))];
    let merged = merge_tip_sets(base, overlay);
    let edges = build_ancestry(&merged);
    assert_eq!(edge(&edges[1]), ("origin/feat", Some("main"), false));
}
