use hook_notify::config::Config;
use hook_notify::decision::{DecisionEngine, UserActivity};
use hook_notify::priority::PriorityEngine;
use hook_notify::state::{current_unix_secs, SessionState};
use hook_notify::types::{Channel, Decision, Priority, Status};

struct MockActivity {
    idle_seconds: u64,
    terminal_focused: bool,
}

impl UserActivity for MockActivity {
    fn idle_seconds(&self) -> u64 {
        self.idle_seconds
    }
    fn is_terminal_focused(&self) -> bool {
        self.terminal_focused
    }
}

fn default_engine_pair() -> (Config, PriorityEngine) {
    let config = Config::default();
    let engine = PriorityEngine::new(Vec::new(), Vec::new());
    (config, engine)
}

fn empty_state() -> SessionState {
    SessionState::new()
}

#[test]
fn notify_when_user_idle() {
    let (config, priority_engine) = default_engine_pair();
    let engine = DecisionEngine::new(&config, &priority_engine);
    let activity = MockActivity { idle_seconds: 60, terminal_focused: false };

    let decision = engine.decide(Status::TaskComplete, "all done", &activity, &empty_state());

    match decision {
        Decision::Notify { priority, channels, .. } => {
            assert_eq!(priority, Priority::Normal);
            assert!(!channels.is_empty());
        }
        other => panic!("expected Notify, got {other:?}"),
    }
}

#[test]
fn downgrade_when_terminal_focused() {
    let (mut config, priority_engine) = default_engine_pair();
    config.activity.suppress_when_focused = true;
    let engine = DecisionEngine::new(&config, &priority_engine);
    let activity = MockActivity { idle_seconds: 5, terminal_focused: true };

    let decision = engine.decide(Status::TaskComplete, "task done", &activity, &empty_state());

    match decision {
        Decision::Downgrade { to, channels, .. } => {
            assert_eq!(to, Priority::Low);
            assert!(channels.contains(&Channel::TerminalBell), "downgrade channels should contain TerminalBell");
            assert!(!channels.contains(&Channel::Sound), "downgrade channels must not contain Sound");
        }
        other => panic!("expected Downgrade, got {other:?}"),
    }
}

#[test]
fn urgent_bypasses_focus_check() {
    let (config, priority_engine) = default_engine_pair();
    let engine = DecisionEngine::new(&config, &priority_engine);
    let activity = MockActivity { idle_seconds: 5, terminal_focused: true };

    let decision = engine.decide(Status::ApiError, "API failure", &activity, &empty_state());

    match decision {
        Decision::Notify { priority, .. } => {
            assert_eq!(priority, Priority::Urgent);
        }
        other => panic!("expected Notify (Urgent), got {other:?}"),
    }
}

#[test]
fn suppress_within_cooldown() {
    let config = Config::default();
    let overrides = vec![("question".to_string(), Priority::Normal)];
    let priority_engine = PriorityEngine::new(overrides, Vec::new());
    let engine = DecisionEngine::new(&config, &priority_engine);

    let past = current_unix_secs().saturating_sub(2);
    let state = SessionState {
        last_notification_time: Some(past),
        last_notification_status: Some("task_complete".to_string()),
        last_notification_content: Some("done".to_string()),
        last_task_complete_time: Some(past),
    };
    let activity = MockActivity { idle_seconds: 60, terminal_focused: false };

    let decision = engine.decide(Status::Question, "what next?", &activity, &state);

    match decision {
        Decision::Suppress { reason } => {
            assert!(reason.contains("cascade cooldown"), "expected cascade cooldown reason, got: {reason}");
        }
        other => panic!("expected Suppress, got {other:?}"),
    }
}

#[test]
fn activity_disabled_skips_focus_check() {
    let mut config = Config::default();
    config.activity.enabled = false;
    let priority_engine = PriorityEngine::new(Vec::new(), Vec::new());
    let engine = DecisionEngine::new(&config, &priority_engine);
    let activity = MockActivity { idle_seconds: 5, terminal_focused: true };

    let decision = engine.decide(Status::TaskComplete, "finished", &activity, &empty_state());

    match decision {
        Decision::Notify { .. } => {}
        other => panic!("expected Notify, got {other:?}"),
    }
}

#[test]
fn decide_at_builds_the_notification() {
    let (config, priority_engine) = default_engine_pair();
    let engine = DecisionEngine::new(&config, &priority_engine);
    let d = engine.decide_at(Status::PlanReady, "plan text", 100, false, &empty_state(), 1000);
    match d {
        Decision::Notify { channels, priority, notification } => {
            assert_eq!(priority, Priority::Normal);
            assert_eq!(channels, vec![Channel::Desktop, Channel::Sound, Channel::Webhook]);
            assert_eq!(notification.title, "\u{1f4cb} Plan Ready");
            assert_eq!(notification.body, "plan text");
            assert_eq!(notification.priority, Priority::Normal);
        }
        other => panic!("expected Notify, got {other:?}"),
    }
}

#[test]
fn downgrade_falls_back_to_desktop_without_bell() {
    let (mut config, priority_engine) = default_engine_pair();
    config.terminal_bell.enabled = false;
    let engine = DecisionEngine::new(&config, &priority_engine);
    let d = engine.decide_at(Status::TaskComplete, "x", 0, true, &empty_state(), 50);
    match d {
        Decision::Downgrade { from, to, reason, channels, notification } => {
            assert_eq!(from, Priority::Normal);
            assert_eq!(to, Priority::Low);
            assert_eq!(reason, "terminal focused and user not idle");
            assert_eq!(channels, vec![Channel::Desktop]);
            assert_eq!(notification.priority, Priority::Low);
        }
        other => panic!("expected Downgrade, got {other:?}"),
    }
    // Idle long enough: notified normally.
    let d = engine.decide_at(Status::TaskComplete, "x", 30, true, &empty_state(), 50);
    assert!(matches!(d, Decision::Notify { .. }));
}
