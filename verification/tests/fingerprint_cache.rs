use stryde_index::fingerprint::{compute_fingerprint, minute_signal};
use stryde_index::index::{index_decision, make_snapshot, IndexOutcome};
use stryde_index::model::{AppList, CacheFile};

fn record(name: &str) -> AppList {
    AppList {
        name: name.to_string(),
        description: Some(String::new()),
        launch_command: Some(name.to_lowercase()),
        icon_path: Some(String::new()),
        type_file: Some("Application".to_string()),
        terminal: Some(false),
    }
}

#[test]
fn signals_are_truncated_to_whole_minutes() {
    assert_eq!(minute_signal(0), 0);
    assert_eq!(minute_signal(59), 0);
    assert_eq!(minute_signal(60), 1);
    assert_eq!(minute_signal(3599), 59);
    assert_eq!(minute_signal(u64::MAX), u64::MAX / 60);
}

#[test]
fn fingerprint_is_the_sum_of_the_signals() {
    assert_eq!(compute_fingerprint(&vec![]), 0);
    assert_eq!(compute_fingerprint(&vec![5, 7, 30]), 42);
}

#[test]
fn fingerprint_ignores_enumeration_order() {
    assert_eq!(compute_fingerprint(&vec![7, 5, 30]), compute_fingerprint(&vec![30, 5, 7]));
}

#[test]
fn fingerprint_wraps_instead_of_failing() {
    assert_eq!(compute_fingerprint(&vec![u64::MAX, 1]), 0);
    assert_eq!(compute_fingerprint(&vec![u64::MAX, 3]), 2);
}

#[test]
fn touching_one_source_changes_the_fingerprint() {
    let before = compute_fingerprint(&vec![1000, 2000, 3000]);
    let after = compute_fingerprint(&vec![1000, 2001, 3000]);
    assert_ne!(before, after);
}

#[test]
fn untouched_sources_keep_the_fingerprint() {
    let signals = vec![1000, 2000, 3000];
    assert_eq!(compute_fingerprint(&signals), compute_fingerprint(&signals));
}

#[test]
fn matching_snapshot_answers_without_collection() {
    let apps = vec![record("Files"), record("Terminal")];
    let fingerprint = compute_fingerprint(&vec![10, 20]);
    let snapshot = make_snapshot(fingerprint, apps.clone());
    assert_eq!(snapshot.hash, fingerprint);
    match index_decision(fingerprint, Some(snapshot)) {
        IndexOutcome::Cached(cached) => assert_eq!(cached, apps),
        IndexOutcome::Collect => panic!("a matching snapshot must not force collection"),
    }
}

#[test]
fn two_indexing_rounds_without_changes_return_identical_records() {
    let signals = vec![11, 22, 33];
    // First round: cache miss, collect, persist.
    let first_fingerprint = compute_fingerprint(&signals);
    assert!(matches!(index_decision(first_fingerprint, None), IndexOutcome::Collect));
    let collected = vec![record("Files")];
    let persisted = make_snapshot(first_fingerprint, collected.clone());
    // Second round: nothing changed, so the fingerprint is the same and the
    // snapshot answers; the collector is not consulted again.
    let second_fingerprint = compute_fingerprint(&signals);
    assert_eq!(second_fingerprint, first_fingerprint);
    match index_decision(second_fingerprint, Some(persisted)) {
        IndexOutcome::Cached(cached) => assert_eq!(cached, collected),
        IndexOutcome::Collect => panic!("second round must be answered from the cache"),
    }
}

#[test]
fn stale_or_absent_snapshot_forces_collection() {
    let snapshot = CacheFile { hash: 41, apps: vec![record("Old")] };
    assert!(matches!(index_decision(42, Some(snapshot)), IndexOutcome::Collect));
    assert!(matches!(index_decision(42, None), IndexOutcome::Collect));
}

#[test]
fn changed_source_invalidates_the_cache() {
    let signals = vec![100, 200];
    let fingerprint = compute_fingerprint(&signals);
    let snapshot = make_snapshot(fingerprint, vec![record("Files")]);
    let touched = vec![100, 260];
    let new_fingerprint = compute_fingerprint(&touched);
    assert_ne!(new_fingerprint, fingerprint);
    assert!(matches!(index_decision(new_fingerprint, Some(snapshot)), IndexOutcome::Collect));
}
