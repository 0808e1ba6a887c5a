use hook_notify::analyzer::Message;
use hook_notify::config::Config;
use hook_notify::decision::UserActivity;
use hook_notify::hook::HookInput;
use hook_notify::json::Json;
use hook_notify::plan::{assess_hook, plan_dispatchers, record_outcome, DispatcherPlan};
use hook_notify::priority::PriorityEngine;
use hook_notify::state::SessionState;
use hook_notify::types::{Channel, Decision, Status};
use hook_notify::webhook::WebhookPreset;

struct Away;

impl UserActivity for Away {
    fn idle_seconds(&self) -> u64 {
        600
    }
    fn is_terminal_focused(&self) -> bool {
        false
    }
}

fn hook(tool: &str) -> HookInput {
    HookInput {
        session_id: "s".to_string(),
        transcript_path: "/tmp/t.jsonl".to_string(),
        tool_name: tool.to_string(),
        tool_input: Json::Null,
        tool_result: Json::Null,
        is_team_lead: false,
        team_name: String::new(),
        is_api_error_message: false,
    }
}

#[test]
fn plans_follow_enabled_channels() {
    let mut config = Config::default();
    config.desktop.app_icon = "/icons/a.png".to_string();
    config.webhook.enabled = true;
    config.webhook.url = "https://example.invalid/hook".to_string();
    config.webhook.preset = "Discord".to_string();
    config.webhook.headers = vec![("A".to_string(), "1".to_string())];
    let channels = [Channel::Desktop, Channel::Sound, Channel::TerminalBell, Channel::Webhook];
    let plans = plan_dispatchers(&config, "/opt/plugin", &channels);
    assert_eq!(plans.len(), 4);
    match &plans[0] {
        DispatcherPlan::Desktop { icon, timeout_ms } => {
            assert_eq!(icon.as_deref(), Some("/icons/a.png"));
            assert_eq!(*timeout_ms, Some(5000));
        }
        _ => panic!("expected a desktop plan"),
    }
    match &plans[1] {
        DispatcherPlan::Sound { sounds_dir, .. } => assert_eq!(sounds_dir, "/opt/plugin/sounds"),
        _ => panic!("expected a sound plan"),
    }
    assert!(matches!(plans[2], DispatcherPlan::TerminalBell));
    match &plans[3] {
        DispatcherPlan::Webhook(d) => {
            assert_eq!(d.url, "https://example.invalid/hook");
            assert_eq!(d.preset, WebhookPreset::Discord);
            assert!(d.chat_id.is_none());
            assert_eq!(d.headers, vec![("A".to_string(), "1".to_string())]);
        }
        _ => panic!("expected a webhook plan"),
    }
}

#[test]
fn disabled_channels_are_skipped() {
    let mut config = Config::default();
    config.sound.enabled = false;
    config.desktop.timeout = 0;
    let channels = [Channel::Sound, Channel::Webhook, Channel::Desktop];
    let plans = plan_dispatchers(&config, "", &channels);
    assert_eq!(plans.len(), 1);
    match &plans[0] {
        DispatcherPlan::Desktop { icon, timeout_ms } => {
            assert!(icon.is_none());
            assert!(timeout_ms.is_none());
        }
        _ => panic!("expected a desktop plan"),
    }
}

#[test]
fn hook_assessment_and_state_update() {
    let config = Config::default();
    let pe = PriorityEngine::new(Vec::new(), Vec::new());
    let messages = vec![Message {
        msg_type: "assistant".to_string(),
        text_content: "Finished **all** work.".to_string(),
        tool_name: None,
        tool_input: Json::Null,
        is_api_error: false,
        error_status: None,
    }];
    let mut state = SessionState::new();
    let a = assess_hook(&config, &pe, &hook(""), &messages, &state, &Away);
    assert_eq!(a.status, Status::TaskComplete);
    assert_eq!(a.summary, "Finished all work.");
    assert!(matches!(a.decision, Decision::Notify { .. }));
    record_outcome(&mut state, &a);
    assert_eq!(state.last_notification_status.as_deref(), Some("task_complete"));
    assert_eq!(state.last_notification_content.as_deref(), Some("Finished all work."));
    assert_eq!(state.last_task_complete_time, state.last_notification_time);

    // The same event again is a duplicate and leaves the state alone.
    let again = assess_hook(&config, &pe, &hook(""), &messages, &state, &Away);
    assert!(matches!(again.decision, Decision::Suppress { .. }));
    let before = state.clone();
    record_outcome(&mut state, &again);
    assert_eq!(state.last_notification_time, before.last_notification_time);
}
