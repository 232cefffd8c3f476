use araki::error::Failure;
use araki::history::MergeAnalysis;
use araki::snapshot::{merge_snapshots, Snapshot, TrackedPath};
use araki::store::{Head, PullOutcome, Store, StoreError};

fn snap(spec: &str, lock: &str) -> Snapshot {
    Snapshot::new(spec, lock)
}

/// A with {v1, v1}; B child of A with {v2, v1}.
fn two_checkpoints() -> (Store, usize, usize) {
    let mut s = Store::new(snap("v1", "v1"));
    let a = s.checkpoint("A");
    s.write_workdir(snap("v2", "v1"));
    let b = s.checkpoint("B");
    (s, a, b)
}

#[test]
fn checkpoint_records_working_directory() {
    let mut s = Store::new(snap("name = \"env\"", "lock-1"));
    let id = s.checkpoint("first");
    let t = s.read_tree(id);
    assert_eq!(t.spec, "name = \"env\"");
    assert_eq!(t.lock, "lock-1");
    assert_eq!(s.main, Some(id));
    assert!(s.commits[id].parents.is_empty());
    assert_eq!(s.commits[id].message, "first");
}

#[test]
fn checkpoint_parent_is_head() {
    let (s, a, b) = two_checkpoints();
    assert_eq!(s.commits[b].parents, vec![a]);
    assert_eq!(s.main, Some(b));
    assert_eq!(s.head, Head::Main);
}

#[test]
fn checkpoint_while_detached_moves_head_only() {
    let (mut s, a, b) = two_checkpoints();
    s.checkout(a);
    s.write_workdir(snap("v3", "v1"));
    let c = s.checkpoint("C");
    assert_eq!(s.head, Head::Detached(c));
    assert_eq!(s.main, Some(b));
    assert_eq!(s.commits[c].parents, vec![a]);
}

#[test]
fn resolve_latest_and_checkout_scenario() {
    let (mut s, a, b) = two_checkpoints();
    assert_eq!(s.resolve("latest").unwrap(), b);
    s.checkout(a);
    assert_eq!(s.workdir.spec, "v1");
    s.checkout(b);
    assert_eq!(s.workdir.spec, "v2");
    assert_eq!(s.head, Head::Detached(b));
}

#[test]
fn resolve_latest_ignores_tags() {
    let (mut s, a, b) = two_checkpoints();
    s.tag_checkpoint(a, "old", None).unwrap();
    s.create_tag("latest-ish", a, None).unwrap();
    assert_eq!(s.resolve("latest").unwrap(), b);
}

#[test]
fn resolve_tag_then_raw_id() {
    let (mut s, a, b) = two_checkpoints();
    s.tag_checkpoint(a, "release-0", None).unwrap();
    assert_eq!(s.resolve("release-0").unwrap(), a);
    assert_eq!(s.resolve(&b.to_string()).unwrap(), b);
    assert!(matches!(s.resolve("nope"), Err(StoreError::RefNotFound)));
    assert!(matches!(s.resolve("7"), Err(StoreError::RefNotFound)));
}

#[test]
fn checkout_unknown_name_changes_nothing() {
    let (mut s, _a, b) = two_checkpoints();
    assert!(matches!(s.checkout_name("missing"), Err(StoreError::RefNotFound)));
    assert_eq!(s.head, Head::Main);
    assert_eq!(s.workdir.spec, "v2");
    assert_eq!(s.main, Some(b));
}

#[test]
fn checkout_name_latest() {
    let (mut s, a, b) = two_checkpoints();
    s.checkout(a);
    assert_eq!(s.checkout_name("latest").unwrap(), b);
    assert_eq!(s.workdir.spec, "v2");
}

#[test]
fn tag_default_message_names_tag() {
    let (mut s, _a, b) = two_checkpoints();
    let pos = s.tag_checkpoint(b, "release-1", None).unwrap();
    let msg = s.tags[pos].message.clone().unwrap();
    assert!(msg.contains("release-1"));
    assert_eq!(msg, "araki environment tag: release-1");
}

#[test]
fn tag_description_is_message() {
    let (mut s, _a, b) = two_checkpoints();
    let pos = s.tag_checkpoint(b, "release-1", Some("stable")).unwrap();
    assert_eq!(s.tags[pos].message.as_deref(), Some("stable"));
    assert_eq!(s.tags[pos].target, b);
}

#[test]
fn tag_name_unique() {
    let (mut s, a, b) = two_checkpoints();
    s.tag_checkpoint(a, "x", None).unwrap();
    assert!(matches!(s.tag_checkpoint(b, "x", None), Err(StoreError::TagExists)));
    assert_eq!(s.tags.len(), 1);
    assert!(matches!(s.tag_checkpoint(99, "y", None), Err(StoreError::RefNotFound)));
}

#[test]
fn commit_and_tag_refuses_taken_name_before_committing() {
    let (mut s, a, _b) = two_checkpoints();
    s.tag_checkpoint(a, "x", None).unwrap();
    let n = s.commits.len();
    assert!(matches!(s.commit_and_tag("again", Some("x"), None), Err(StoreError::TagExists)));
    assert_eq!(s.commits.len(), n);
    let (id, pos) = s.commit_and_tag("more", Some("y"), Some("desc")).unwrap();
    assert_eq!(s.tags[pos.unwrap()].target, id);
    assert_eq!(s.main, Some(id));
}

#[test]
fn tag_listing_is_by_name() {
    let (mut s, a, b) = two_checkpoints();
    s.tag_checkpoint(b, "zeta", Some("\n  \nsecond line\nthird")).unwrap();
    s.create_tag("alpha", a, None).unwrap();
    s.tag_checkpoint(a, "mid", None).unwrap();
    let lines = s.tag_listing();
    assert_eq!(
        lines,
        vec![
            "alpha".to_string(),
            "* mid             araki environment tag: mid".to_string(),
            "* zeta            second line".to_string(),
        ]
    );
}

#[test]
fn tag_listing_same_for_any_creation_order() {
    let (mut s1, a, b) = two_checkpoints();
    let (mut s2, _, _) = two_checkpoints();
    s1.tag_checkpoint(a, "b-tag", None).unwrap();
    s1.tag_checkpoint(b, "a-tag", None).unwrap();
    s2.tag_checkpoint(b, "a-tag", None).unwrap();
    s2.tag_checkpoint(a, "b-tag", None).unwrap();
    assert_eq!(s1.tag_listing(), s2.tag_listing());
}

#[test]
fn analysis_cases() {
    let (mut s, a, b) = two_checkpoints();
    let c = s.receive(snap("v1", "v9"), vec![a], "C");
    assert_eq!(s.analyze(b, b), MergeAnalysis::UpToDate);
    assert_eq!(s.analyze(a, b), MergeAnalysis::FastForward);
    assert_eq!(s.analyze(b, a), MergeAnalysis::LocalAhead);
    assert_eq!(s.analyze(b, c), MergeAnalysis::ThreeWay);
    assert_eq!(s.merge_base(b, c), Some(a));
}

#[test]
fn merge_base_none_for_unrelated_roots() {
    let mut s = Store::new(snap("x", "y"));
    let r1 = s.receive(snap("1", "1"), vec![], "r1");
    let r2 = s.receive(snap("2", "2"), vec![], "r2");
    assert_eq!(s.merge_base(r1, r2), None);
    s.main = Some(r1);
    assert!(matches!(s.pull(r2), Err(StoreError::NoCommonAncestor)));
}

#[test]
fn pull_fast_forward() {
    let mut s = Store::new(snap("v1", "v1"));
    let a = s.checkpoint("A");
    let b = s.receive(snap("v2", "v2"), vec![a], "B");
    s.write_workdir(snap("dirty", "dirty"));
    assert_eq!(s.pull(b).unwrap(), PullOutcome::FastForward);
    assert_eq!(s.main, Some(b));
    assert_eq!(s.workdir.spec, "v2");
    assert_eq!(s.workdir.lock, "v2");
}

#[test]
fn pull_into_empty_store() {
    let mut s = Store::new(snap("", ""));
    let r = s.receive(snap("v1", "v1"), vec![], "root");
    assert_eq!(s.pull(r).unwrap(), PullOutcome::FastForward);
    assert_eq!(s.main, Some(r));
    assert_eq!(s.workdir.spec, "v1");
}

#[test]
fn pull_up_to_date_and_local_ahead() {
    let (mut s, a, b) = two_checkpoints();
    let n = s.commits.len();
    assert_eq!(s.pull(b).unwrap(), PullOutcome::UpToDate);
    assert_eq!(s.pull(a).unwrap(), PullOutcome::LocalAhead);
    assert_eq!(s.commits.len(), n);
    assert_eq!(s.main, Some(b));
}

#[test]
fn pull_disjoint_changes_merges() {
    let (mut s, a, b) = two_checkpoints();
    let c = s.receive(snap("v1", "v2"), vec![a], "remote");
    let n = s.commits.len();
    let out = s.pull(c).unwrap();
    assert_eq!(out, PullOutcome::Merged(n));
    assert_eq!(s.commits.len(), n + 1);
    assert_eq!(s.commits[n].parents, vec![b, c]);
    assert_eq!(s.commits[n].tree.spec, "v2");
    assert_eq!(s.commits[n].tree.lock, "v2");
    assert_eq!(s.main, Some(n));
    assert_eq!(s.workdir.spec, "v2");
    assert_eq!(s.workdir.lock, "v2");
}

#[test]
fn pull_same_path_conflicts() {
    let mut s = Store::new(snap("s", "lock-base"));
    let a = s.checkpoint("A");
    s.write_workdir(snap("s", "lock-local"));
    let b = s.checkpoint("B");
    let c = s.receive(snap("s", "lock-remote"), vec![a], "remote");
    let n = s.commits.len();
    match s.pull(c) {
        Err(StoreError::ConflictDetected(paths)) => assert_eq!(paths, vec![TrackedPath::Lockfile]),
        other => panic!("expected a conflict, got {:?}", other),
    }
    assert_eq!(s.main, Some(b));
    assert_eq!(s.commits.len(), n);
    assert_eq!(s.workdir.spec, "s");
    assert_eq!(
        s.workdir.lock,
        "<<<<<<< ours\nlock-local=======\nlock-remote>>>>>>> theirs\n"
    );
}

#[test]
fn merge_snapshots_exact() {
    let base = snap("b", "b");
    let ok = merge_snapshots(&base, &snap("o", "b"), &snap("b", "t")).unwrap();
    assert_eq!(ok.spec, "o");
    assert_eq!(ok.lock, "t");
    let both = merge_snapshots(&base, &snap("o", "o"), &snap("t", "t")).unwrap_err();
    assert_eq!(both, vec![TrackedPath::Specfile, TrackedPath::Lockfile]);
    let same_change = merge_snapshots(&base, &snap("x", "b"), &snap("x", "b")).unwrap_err();
    assert_eq!(same_change, vec![TrackedPath::Specfile]);
}

#[test]
fn history_parents_before_children() {
    let (mut s, a, b) = two_checkpoints();
    let c = s.receive(snap("v1", "v2"), vec![a], "remote");
    let unrelated = s.receive(snap("x", "x"), vec![], "other root");
    s.pull(c).unwrap();
    let m = s.main.unwrap();
    assert_eq!(s.history(m), vec![a, b, c, m]);
    assert_eq!(s.history(c), vec![a, c]);
    assert!(!s.history(m).contains(&unrelated));
}

#[test]
fn failures_exit_with_one() {
    let f = Failure::from_store(StoreError::ConflictDetected(vec![TrackedPath::Lockfile]));
    assert!(matches!(f, Failure::ConflictDetected(ref ps) if *ps == vec![TrackedPath::Lockfile]));
    assert_eq!(f.exit_code(), 1);
    assert!(matches!(Failure::from_store(StoreError::RefNotFound), Failure::RefNotFound));
    assert_eq!(Failure::AuthenticationFailed.exit_code(), 1);
}
