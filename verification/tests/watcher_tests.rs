use capsuled::watcher::{collect_paths, next_wait, Pending, DEBOUNCE_NANOS, IDLE_SLEEP_NANOS};

const DIR: &str = "/v/.capsule/manifests";

fn paths(items: &[&str]) -> Vec<String> {
    items.iter().map(|s| s.to_string()).collect()
}

#[test]
fn only_files_directly_in_the_directory_count() {
    let mut pending = Pending::new();
    collect_paths(
        true,
        paths(&[
            "/v/.capsule/manifests/sub/cap_a.json",
            "/v/.capsule/cap_b.json",
            "/v/.capsule/manifests/cap_c.json",
        ]),
        "/v/.capsule/manifests/",
        0,
        &mut pending,
    );
    assert_eq!(pending.drain_ready(DEBOUNCE_NANOS), vec!["/v/.capsule/manifests/cap_c.json".to_string()]);
}

#[test]
fn new_manifest_becomes_ready_after_the_quiet_window() {
    let mut pending = Pending::new();
    collect_paths(true, paths(&["/v/.capsule/manifests/cap_watch1.json"]), DIR, 1_000, &mut pending);
    assert_eq!(pending.soonest(), Some(1_000 + DEBOUNCE_NANOS));
    assert!(pending.drain_ready(1_000 + DEBOUNCE_NANOS - 1).is_empty());
    let ready = pending.drain_ready(1_000 + DEBOUNCE_NANOS);
    assert_eq!(ready, vec!["/v/.capsule/manifests/cap_watch1.json".to_string()]);
    assert_eq!(pending.soonest(), None);
}

#[test]
fn hidden_tmp_and_foreign_files_are_ignored() {
    let mut pending = Pending::new();
    collect_paths(
        true,
        paths(&[
            "/v/.capsule/manifests/._cap_abc.json",
            "/v/.capsule/manifests/cap_abc.json.tmp",
            "/v/.capsule/manifests/notes.txt",
            "/v/.capsule/other/cap_abc.json",
        ]),
        DIR,
        0,
        &mut pending,
    );
    assert_eq!(pending.soonest(), None);
    collect_paths(true, paths(&["/v/.capsule/manifests/cap_abc.json"]), DIR, 0, &mut pending);
    assert_eq!(pending.drain_ready(DEBOUNCE_NANOS), vec!["/v/.capsule/manifests/cap_abc.json".to_string()]);
}

#[test]
fn burst_of_writes_coalesces_into_one() {
    let mut pending = Pending::new();
    let p = "/v/.capsule/manifests/cap_burst.json";
    collect_paths(true, paths(&[p]), DIR, 0, &mut pending);
    collect_paths(true, paths(&[p, p]), DIR, 100, &mut pending);
    // The second burst pushed the deadline out.
    assert!(pending.drain_ready(DEBOUNCE_NANOS).is_empty());
    let ready = pending.drain_ready(100 + DEBOUNCE_NANOS);
    assert_eq!(ready, vec![p.to_string()]);
}

#[test]
fn irrelevant_events_change_nothing() {
    let mut pending = Pending::new();
    collect_paths(false, paths(&["/v/.capsule/manifests/cap_a.json"]), DIR, 0, &mut pending);
    assert_eq!(pending.soonest(), None);
}

#[test]
fn wait_follows_the_soonest_deadline() {
    let mut pending = Pending::new();
    assert_eq!(next_wait(&pending, 5), IDLE_SLEEP_NANOS);
    pending.touch("/a".to_string(), 500);
    pending.touch("/b".to_string(), 200);
    assert_eq!(pending.soonest(), Some(200));
    assert_eq!(next_wait(&pending, 50), 150);
    assert_eq!(next_wait(&pending, 900), 0);
    pending.touch("/b".to_string(), 800);
    assert_eq!(pending.soonest(), Some(500));
}

#[test]
fn drain_keeps_paths_not_yet_due() {
    let mut pending = Pending::new();
    pending.touch("/a".to_string(), 10);
    pending.touch("/b".to_string(), 30);
    pending.touch("/c".to_string(), 20);
    let mut ready = pending.drain_ready(20);
    ready.sort();
    assert_eq!(ready, vec!["/a".to_string(), "/c".to_string()]);
    assert_eq!(pending.soonest(), Some(30));
}
