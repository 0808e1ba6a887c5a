use hook_notify::dedup::{dedup_lock_file_name, lock_is_held, lock_to_write};

#[test]
fn lock_path_for_session() {
    let session_id = "abc123";
    let filename = dedup_lock_file_name(session_id);
    assert!(filename.contains(session_id), "lock path should contain session id, got: {filename}");
    assert_eq!(filename, "hook-notify-dedup-abc123.lock");
}

#[test]
fn fresh_lock_is_held() {
    assert!(lock_is_held("1000", 1001, 2));
    assert!(lock_is_held(" 1000\n", 1000, 2));
}

#[test]
fn stale_or_unreadable_lock_is_not_held() {
    assert!(!lock_is_held("1000", 1002, 2));
    assert!(!lock_is_held("0", 1000, 60));
    assert!(!lock_is_held("garbage", 1000, 60));
    assert!(!lock_is_held("1000", 1000, 0));
}

#[test]
fn lock_from_the_future_counts_as_new() {
    assert!(lock_is_held("5000", 1000, 1));
}

#[test]
fn second_acquire_within_ttl_is_refused() {
    let first = lock_to_write(None, 1000, 60).expect("a free lock is taken");
    assert_eq!(first, "1000");
    assert_eq!(lock_to_write(Some(&first), 1030, 60), None);
    assert_eq!(lock_to_write(Some(&first), 1060, 60).as_deref(), Some("1060"));
    assert_eq!(lock_to_write(Some("0"), 1000, 60).as_deref(), Some("1000"));
}
