use hook_notify::config::{SuppressionConfig, SuppressionFilter};
use hook_notify::state::{current_unix_secs, SessionState};
use hook_notify::suppression::SuppressionEngine;
use hook_notify::types::Status;

fn default_engine() -> SuppressionConfig {
    SuppressionConfig {
        cooldown_seconds: 7,
        task_to_question_cooldown: 12,
        content_dedup_seconds: 60,
        filters: vec![],
    }
}

fn state_with_task_complete_ago(secs_ago: u64) -> SessionState {
    let past = current_unix_secs().saturating_sub(secs_ago);
    SessionState {
        last_notification_time: Some(past),
        last_notification_status: Some("task_complete".to_string()),
        last_notification_content: Some("done".to_string()),
        last_task_complete_time: Some(past),
    }
}

#[test]
fn no_suppression_on_first_notification() {
    let cfg = default_engine();
    let engine = SuppressionEngine::new(&cfg);
    let state = SessionState::new();

    let result = engine.check(&Status::Question, "hello?", &state, false);
    assert!(result.is_none(), "first notification should not be suppressed");
}

#[test]
fn cooldown_suppresses_within_window() {
    let cfg = default_engine();
    let engine = SuppressionEngine::new(&cfg);
    let state = state_with_task_complete_ago(5);

    let result = engine.check(&Status::Question, "follow-up?", &state, false);
    assert!(result.is_some(), "should suppress: task_complete 5s ago, cooldown is 12s");
    assert!(result.unwrap().contains("cascade cooldown"));
}

#[test]
fn cooldown_allows_after_window() {
    let cfg = default_engine();
    let engine = SuppressionEngine::new(&cfg);
    let state = state_with_task_complete_ago(20);

    let result = engine.check(&Status::Question, "follow-up?", &state, false);
    assert!(result.is_none(), "should allow: task_complete 20s ago, cooldown is 12s");
}

#[test]
fn content_dedup_suppresses_same_content() {
    let cfg = default_engine();
    let engine = SuppressionEngine::new(&cfg);
    let past = current_unix_secs().saturating_sub(10);
    let state = SessionState {
        last_notification_time: Some(past),
        last_notification_status: Some("question".to_string()),
        last_notification_content: Some("same content".to_string()),
        last_task_complete_time: None,
    };

    let result = engine.check(&Status::TaskComplete, "same content", &state, false);
    assert!(result.is_some(), "same content within 60s should be suppressed");
    assert!(result.unwrap().contains("duplicate content"));
}

#[test]
fn content_dedup_allows_different_content() {
    let cfg = default_engine();
    let engine = SuppressionEngine::new(&cfg);
    let past = current_unix_secs().saturating_sub(10);
    let state = SessionState {
        last_notification_time: Some(past),
        last_notification_status: Some("task_complete".to_string()),
        last_notification_content: Some("original content".to_string()),
        last_task_complete_time: Some(past),
    };

    let result = engine.check(&Status::TaskComplete, "different content", &state, false);
    assert!(result.is_none(), "different content should not be suppressed");
}

#[test]
fn bypass_cooldown_ignores_suppression() {
    let cfg = default_engine();
    let engine = SuppressionEngine::new(&cfg);
    let state = state_with_task_complete_ago(2);

    let result = engine.check(&Status::Question, "urgent?", &state, true);
    assert!(result.is_none(), "bypass_cooldown=true should skip time-based checks");
}

#[test]
fn filter_suppresses_matching_status() {
    let mut cfg = default_engine();
    cfg.filters.push(SuppressionFilter {
        status: Some("question".to_string()),
        git_branch: None,
        folder: None,
    });
    let engine = SuppressionEngine::new(&cfg);
    let state = SessionState::new();

    let result = engine.check(&Status::Question, "anything", &state, false);
    assert!(result.is_some(), "filter matching status 'question' should suppress");
    assert!(result.unwrap().contains("filter rule matched"));
}

#[test]
fn filter_does_not_suppress_non_matching_status() {
    let mut cfg = default_engine();
    cfg.filters.push(SuppressionFilter {
        status: Some("question".to_string()),
        git_branch: None,
        folder: None,
    });
    let engine = SuppressionEngine::new(&cfg);
    let state = SessionState::new();

    let result = engine.check(&Status::TaskComplete, "done", &state, false);
    assert!(result.is_none(), "filter for 'question' should not suppress 'task_complete'");
}

#[test]
fn bypass_still_applies_filters() {
    let mut cfg = default_engine();
    cfg.filters.push(SuppressionFilter {
        status: Some("question".to_string()),
        git_branch: None,
        folder: None,
    });
    let engine = SuppressionEngine::new(&cfg);
    let state = SessionState::new();

    let result = engine.check(&Status::Question, "test", &state, true);
    assert!(result.is_some(), "filters should apply even when bypass_cooldown=true");
}

#[test]
fn check_at_reasons_are_exact() {
    let cfg = default_engine();
    let engine = SuppressionEngine::new(&cfg);
    let state = SessionState {
        last_notification_time: Some(1000),
        last_notification_status: Some("task_complete".to_string()),
        last_notification_content: Some("done".to_string()),
        last_task_complete_time: Some(1000),
    };
    assert_eq!(
        engine.check_at(&Status::Question, "x", &state, false, 1005).as_deref(),
        Some("task-to-question cascade cooldown (5s < 12s)")
    );
    assert_eq!(
        engine.check_at(&Status::TaskComplete, "done", &state, false, 1030).as_deref(),
        Some("duplicate content within dedup window (30s < 60s)")
    );
    assert_eq!(engine.check_at(&Status::TaskComplete, "done", &state, false, 1060), None);
}

#[test]
fn general_cooldown_applies_to_questions() {
    let cfg = default_engine();
    let engine = SuppressionEngine::new(&cfg);
    let state = SessionState {
        last_notification_time: Some(500),
        last_notification_status: Some("plan_ready".to_string()),
        last_notification_content: Some("plan".to_string()),
        last_task_complete_time: None,
    };
    assert_eq!(
        engine.check_at(&Status::Question, "q?", &state, false, 503).as_deref(),
        Some("cooldown (3s < 7s)")
    );
    assert_eq!(engine.check_at(&Status::Question, "q?", &state, false, 507), None);
}

#[test]
fn check_filters_reason() {
    let mut cfg = default_engine();
    cfg.filters.push(SuppressionFilter { status: Some("plan_ready".to_string()), git_branch: None, folder: None });
    let engine = SuppressionEngine::new(&cfg);
    assert_eq!(
        engine.check_filters(&Status::PlanReady).as_deref(),
        Some("filter rule matched status 'plan_ready'")
    );
    assert_eq!(engine.check_filters(&Status::Question), None);
}
