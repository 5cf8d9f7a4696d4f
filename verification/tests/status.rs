use drv_thru::server::status::{status_path, BuildResult, StatusRegistry};

#[test]
fn records_queue_active_and_recent_builds() {
    let mut status = StatusRegistry::new("/tmp/status-lifecycle", "server".to_string(), 1, 2, 100);

    let first = status.enqueue("client:a".to_string(), "nixpkgs#hello".to_string(), 101);
    let second = status.enqueue("ticket:b".to_string(), "nixpkgs#ripgrep".to_string(), 102);
    status.start(&first, 103);
    status.phase(&first, "building", 104);
    status.finish(&first, BuildResult::Success, None, 105);

    let snapshot = status.snapshot();
    assert_eq!(snapshot.server.configured_concurrency, 1);
    assert_eq!(snapshot.server.active_count, 0);
    assert_eq!(snapshot.server.queued_count, 1);
    assert_eq!(snapshot.queued[0].request_id, second);
    assert_eq!(snapshot.queued[0].position, 1);
    assert_eq!(snapshot.recent[0].request_id, first);
    assert_eq!(snapshot.recent[0].result, BuildResult::Success);
    assert_eq!(snapshot.recent[0].duration_seconds, Some(2));
}

#[test]
fn bounds_recent_builds() {
    let mut status =
        StatusRegistry::new("/tmp/status-recent-limit", "server".to_string(), 1, 1, 100);

    let first = status.enqueue("client:a".to_string(), "a".to_string(), 100);
    status.start(&first, 100);
    status.finish(&first, BuildResult::Success, None, 100);
    let second = status.enqueue("client:a".to_string(), "b".to_string(), 100);
    status.start(&second, 100);
    status.finish(&second, BuildResult::Failed, Some("failed".to_string()), 100);

    let snapshot = status.snapshot();
    assert_eq!(snapshot.recent.len(), 1);
    assert_eq!(snapshot.recent[0].request_id, second);
    assert_eq!(snapshot.recent[0].short_error.as_deref(), Some("failed"));
}

#[test]
fn builds_that_never_ran_are_remembered_too() {
    let mut status = StatusRegistry::new("/d", "server".to_string(), 1, 5, 0);
    assert!(!status.has_live_builds());
    let id = status.enqueue("client:a".to_string(), "a".to_string(), 1);
    assert!(status.has_live_builds());
    status.refresh(11);
    assert_eq!(status.snapshot().queued[0].queued_for_seconds, 10);
    status.finish(&id, BuildResult::Error, Some("closed".to_string()), 12);
    assert_eq!(status.snapshot().recent[0].started_at_unix, None);
    assert_eq!(status.snapshot().recent[0].duration_seconds, None);
    assert!(!status.has_live_builds());
    status.finish(&id, BuildResult::Error, None, 13);
    assert_eq!(status.snapshot().recent.len(), 1);
    assert_eq!(status.request_count(), 1);
    assert_eq!(status.path(), status_path("/d"));
}
