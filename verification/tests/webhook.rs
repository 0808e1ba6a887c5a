use hook_notify::json::Json;
use hook_notify::webhook::{RetryStep, WebhookDispatcher, WebhookPreset};

#[test]
fn preset_names_ignore_case() {
    assert_eq!(WebhookPreset::parse("Slack"), WebhookPreset::Slack);
    assert_eq!(WebhookPreset::parse("DISCORD"), WebhookPreset::Discord);
    assert_eq!(WebhookPreset::parse("telegram"), WebhookPreset::Telegram);
    assert_eq!(WebhookPreset::parse("lark"), WebhookPreset::Lark);
    assert_eq!(WebhookPreset::parse("teams"), WebhookPreset::Custom);
}

#[test]
fn new_dispatcher_defaults() {
    let d = WebhookDispatcher::new("https://hooks.example/x".to_string());
    assert_eq!(d.url, "https://hooks.example/x");
    assert_eq!(d.preset, WebhookPreset::Custom);
    assert!(d.chat_id.is_none());
    assert!(d.headers.is_empty());
    assert!(d.template.is_none());
    assert_eq!(d.retry_max, 3);
    assert_eq!(d.timeout_seconds, 10);
}

#[test]
fn builders_set_fields() {
    let d = WebhookDispatcher::new("u".to_string())
        .with_preset(WebhookPreset::Telegram)
        .with_chat_id("42".to_string())
        .with_retry_max(5)
        .with_timeout_seconds(30)
        .with_header("A".to_string(), "1".to_string())
        .with_header("B".to_string(), "2".to_string())
        .with_header("A".to_string(), "3".to_string());
    assert_eq!(d.preset, WebhookPreset::Telegram);
    assert_eq!(d.chat_id.as_deref(), Some("42"));
    assert_eq!(d.retry_max, 5);
    assert_eq!(d.timeout_seconds, 30);
    assert_eq!(
        d.headers,
        vec![("A".to_string(), "3".to_string()), ("B".to_string(), "2".to_string())]
    );
}

#[test]
fn slack_and_discord_payloads() {
    let d = WebhookDispatcher::new("u".to_string()).with_preset(WebhookPreset::Slack);
    assert_eq!(d.payload_text("T", "B"), r#"{"text":"*T*\nB"}"#);
    let d = d.with_preset(WebhookPreset::Discord);
    assert_eq!(d.payload_text("T", "B"), r#"{"embeds":[{"description":"B","title":"T"}]}"#);
}

#[test]
fn telegram_and_lark_payloads() {
    let d = WebhookDispatcher::new("u".to_string()).with_preset(WebhookPreset::Telegram);
    assert_eq!(
        d.payload_text("T", "B"),
        r#"{"chat_id":"","parse_mode":"Markdown","text":"*T*\nB"}"#
    );
    let d = d.with_chat_id("7".to_string());
    assert_eq!(
        d.payload_text("T", "B"),
        r#"{"chat_id":"7","parse_mode":"Markdown","text":"*T*\nB"}"#
    );
    let d = WebhookDispatcher::new("u".to_string()).with_preset(WebhookPreset::Lark);
    assert_eq!(d.payload_text("T", "B"), r#"{"content":{"text":"T\nB"},"msg_type":"text"}"#);
}

#[test]
fn custom_payload_with_and_without_template() {
    let d = WebhookDispatcher::new("u".to_string());
    assert_eq!(d.payload_text("T", "B"), r#"{"body":"B","title":"T"}"#);
    let mut d = d;
    d.template = Some(r#"{"msg":"{{title}}: {{body}}","n":1}"#.to_string());
    assert_eq!(d.payload_text("T", "B"), r#"{"msg":"T: B","n":1}"#);
    d.template = Some("not json {{title}}".to_string());
    assert_eq!(d.payload_text("T", "B"), r#"{"body":"B","title":"T"}"#);
}

#[test]
fn retry_schedule() {
    let d = WebhookDispatcher::new("u".to_string());
    assert_eq!(d.after_failure(0, "boom"), RetryStep::Retry { failures: 1, backoff_seconds: 1 });
    assert_eq!(d.after_failure(1, "boom"), RetryStep::Retry { failures: 2, backoff_seconds: 2 });
    assert_eq!(d.after_failure(2, "boom"), RetryStep::Retry { failures: 3, backoff_seconds: 4 });
    assert_eq!(
        d.after_failure(3, "boom"),
        RetryStep::GiveUp("Webhook failed after 3 retries: boom".to_string())
    );
    let d = d.with_retry_max(0);
    assert_eq!(
        d.after_failure(0, "x"),
        RetryStep::GiveUp("Webhook failed after 0 retries: x".to_string())
    );
}

#[test]
fn payload_values_are_structured() {
    let d = WebhookDispatcher::new("u".to_string()).with_preset(WebhookPreset::Slack);
    match d.format_payload("T", "B") {
        Json::Object(members) => {
            assert_eq!(members.len(), 1);
            assert_eq!(members[0].0, "text");
            assert_eq!(members[0].1, Json::Str("*T*\nB".to_string()));
        }
        other => panic!("expected an object, got {other:?}"),
    }
}
