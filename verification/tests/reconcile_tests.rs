use linked_paths::apply_watch_results;
use linked_paths::compute_watch_delta;
use linked_paths::config_event_hits;
use linked_paths::LinkedPath;
use linked_paths::WatchedSet;

fn lp(name: &str, path: &str) -> LinkedPath {
    LinkedPath { name: name.to_string(), path: path.to_string() }
}

fn names_of(v: &[LinkedPath]) -> Vec<String> {
    v.iter().map(|x| x.name.clone()).collect()
}

#[test]
fn round_trip_three_paths_then_remove_one() {
    // From an empty watched set, reconciling against a three-path registry
    // installs three watches.
    let mut watched = WatchedSet::new();
    let desired = vec![lp("a", "/a"), lp("b", "/b"), lp("c", "/c")];
    let delta = compute_watch_delta(&watched, &desired);
    assert_eq!(delta.to_add.len(), 3);
    assert_eq!(delta.to_remove.len(), 0);
    let ok = vec![true, true, true];
    let added = apply_watch_results(&mut watched, &delta, &ok);
    assert_eq!(added.len(), 3);
    assert_eq!(watched.count(), 3);

    // Dropping one path from the registry and reconciling again leaves two
    // watches, with exactly one unwatch asked for.
    let desired = vec![lp("a", "/a"), lp("c", "/c")];
    let delta = compute_watch_delta(&watched, &desired);
    assert_eq!(delta.to_add.len(), 0);
    assert_eq!(delta.to_remove.len(), 1);
    assert_eq!(delta.to_remove[0], lp("b", "/b"));
    let added = apply_watch_results(&mut watched, &delta, &vec![]);
    assert!(added.is_empty());
    assert_eq!(watched.count(), 2);
    assert!(watched.contains(&lp("a", "/a")));
    assert!(watched.contains(&lp("c", "/c")));
    assert!(!watched.contains(&lp("b", "/b")));
}

#[test]
fn one_failing_install_leaves_exactly_that_path_absent() {
    let mut watched = WatchedSet::new();
    let desired = vec![lp("a", "/a"), lp("b", "/b"), lp("c", "/c")];
    let delta = compute_watch_delta(&watched, &desired);
    // The middle installation fails; the others must not be blocked.
    let ok = vec![true, false, true];
    let added = apply_watch_results(&mut watched, &delta, &ok);
    assert_eq!(names_of(&added), vec!["a".to_string(), "c".to_string()]);
    assert_eq!(watched.count(), 2);
    assert!(watched.contains(&lp("a", "/a")));
    assert!(!watched.contains(&lp("b", "/b")));
    assert!(watched.contains(&lp("c", "/c")));

    // The failed path is retried by the next cycle, not lost.
    let delta = compute_watch_delta(&watched, &desired);
    assert_eq!(names_of(&delta.to_add), vec!["b".to_string()]);
    assert_eq!(delta.to_remove.len(), 0);
}

#[test]
fn delta_converges_watched_set_to_registry() {
    let mut watched = WatchedSet::new();
    let first = vec![lp("a", "/a"), lp("b", "/b")];
    let delta = compute_watch_delta(&watched, &first);
    apply_watch_results(&mut watched, &delta, &vec![true, true]);

    // A changed registry: one path kept, one gone, one new.
    let second = vec![lp("b", "/b"), lp("d", "/d")];
    let delta = compute_watch_delta(&watched, &second);
    assert_eq!(names_of(&delta.to_add), vec!["d".to_string()]);
    assert_eq!(names_of(&delta.to_remove), vec!["a".to_string()]);
    apply_watch_results(&mut watched, &delta, &vec![true]);
    assert_eq!(watched.count(), 2);
    assert!(watched.contains(&lp("b", "/b")));
    assert!(watched.contains(&lp("d", "/d")));
}

#[test]
fn duplicate_desired_entries_are_added_once() {
    let watched = WatchedSet::new();
    let desired = vec![lp("a", "/a"), lp("a", "/a"), lp("b", "/b")];
    let delta = compute_watch_delta(&watched, &desired);
    assert_eq!(names_of(&delta.to_add), vec!["a".to_string(), "b".to_string()]);
}

#[test]
fn same_name_different_path_is_a_distinct_watch() {
    let mut watched = WatchedSet::new();
    let desired = vec![lp("a", "/old")];
    let delta = compute_watch_delta(&watched, &desired);
    apply_watch_results(&mut watched, &delta, &vec![true]);

    // Moving a linked path (unlink + link) changes its identity: the stale
    // watch goes and the new one comes.
    let desired = vec![lp("a", "/new")];
    let delta = compute_watch_delta(&watched, &desired);
    assert_eq!(delta.to_add, vec![lp("a", "/new")]);
    assert_eq!(delta.to_remove, vec![lp("a", "/old")]);
}

#[test]
fn config_event_filtering() {
    let config = "/configs/private_config.json".to_string();
    let burst = vec![
        "/tmp/scratch.txt".to_string(),
        "/configs/private_config.json".to_string(),
    ];
    assert!(config_event_hits(&burst, &config));
    let unrelated = vec!["/tmp/scratch.txt".to_string(), "/configs/other.json".to_string()];
    assert!(!config_event_hits(&unrelated, &config));
    assert!(!config_event_hits(&vec![], &config));
}

#[test]
fn watched_paths_lists_current_watches() {
    let mut watched = WatchedSet::new();
    let desired = vec![lp("a", "/a")];
    let delta = compute_watch_delta(&watched, &desired);
    apply_watch_results(&mut watched, &delta, &vec![true]);
    assert_eq!(watched.watched_paths(), vec![lp("a", "/a")]);
}
