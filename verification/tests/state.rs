use hook_notify::state::SessionState;

#[test]
fn state_path_contains_session_id() {
    let path = SessionState::state_path("abc-123");
    assert_eq!(path, "/tmp/hook-notify-state-abc-123.json");
}

#[test]
fn update_non_task_status_does_not_set_task_complete_time() {
    let mut state = SessionState::new();
    state.update_after_notification("question", "what should I do?");
    assert!(state.last_notification_time.is_some());
    assert!(state.last_task_complete_time.is_none());
}

#[test]
fn update_task_complete_sets_both_times() {
    let mut state = SessionState::new();
    state.update_after_notification("task_complete", "job done");
    assert!(state.last_notification_time.is_some());
    assert_eq!(state.last_notification_time, state.last_task_complete_time);
    assert_eq!(state.last_notification_status.as_deref(), Some("task_complete"));
    assert_eq!(state.last_notification_content.as_deref(), Some("job done"));
}

#[test]
fn update_at_records_given_time() {
    let mut state = SessionState::new();
    state.update_after_notification_at("task_complete", "a", 100);
    state.update_after_notification_at("question", "b", 150);
    assert_eq!(state.last_notification_time, Some(150));
    assert_eq!(state.last_task_complete_time, Some(100));
    assert_eq!(state.last_notification_status.as_deref(), Some("question"));
    assert_eq!(state.last_notification_content.as_deref(), Some("b"));
}
