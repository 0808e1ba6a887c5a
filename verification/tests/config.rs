use hook_notify::config::{Config, StatusOverride, DEFAULT_VOLUME_BITS};
use hook_notify::types::Priority;

#[test]
fn default_config_is_valid() {
    let cfg = Config::default();

    assert!(cfg.desktop.enabled);
    assert!(cfg.desktop.click_to_focus);
    assert_eq!(cfg.desktop.terminal_bundle_id, "");
    assert_eq!(cfg.desktop.app_icon, "");
    assert_eq!(cfg.desktop.timeout, 5);

    assert!(cfg.sound.enabled);
    assert!((f64::from_bits(cfg.sound.volume_bits) - 0.8).abs() < f64::EPSILON);
    assert_eq!(cfg.sound.device, "");

    assert!(cfg.terminal_bell.enabled);

    assert!(!cfg.webhook.enabled);
    assert_eq!(cfg.webhook.preset, "slack");
    assert_eq!(cfg.webhook.url, "");
    assert_eq!(cfg.webhook.retry_max, 3);
    assert_eq!(cfg.webhook.timeout_seconds, 10);

    assert!(cfg.activity.enabled);
    assert_eq!(cfg.activity.idle_threshold_seconds, 30);
    assert!(cfg.activity.suppress_when_focused);

    assert_eq!(cfg.suppression.cooldown_seconds, 7);
    assert_eq!(cfg.suppression.task_to_question_cooldown, 12);
    assert_eq!(cfg.suppression.content_dedup_seconds, 180);
    assert!(cfg.suppression.filters.is_empty());

    assert_eq!(cfg.team.mode, "always");
    assert!(!cfg.team.notify_on_subagent);
    assert!(cfg.team.suppress_for_subagents);

    assert!(!cfg.debug.enabled);
    assert_eq!(cfg.debug.log_file, "");

    assert!(cfg.priority_overrides.is_empty());
    assert!(cfg.priority_channels.is_empty());
    assert!(cfg.status_overrides.is_empty());
}

#[test]
fn default_volume_is_point_eight() {
    assert_eq!(f64::from_bits(DEFAULT_VOLUME_BITS), 0.8);
}

#[test]
fn merge_configs() {
    let base = Config::default();

    let mut overlay = Config::default();
    overlay.desktop.enabled = false;
    overlay.debug.enabled = true;
    overlay.debug.log_file = "/tmp/test.log".to_string();

    let merged = base.merge(overlay).expect("merge should succeed");

    assert!(!merged.desktop.enabled);
    assert!(merged.debug.enabled);
    assert_eq!(merged.debug.log_file, "/tmp/test.log");

    assert!(merged.sound.enabled);
    assert_eq!(merged.suppression.cooldown_seconds, 7);
}

#[test]
fn merge_maps_key_by_key() {
    let mut base = Config::default();
    base.priority_overrides = vec![("question".to_string(), Priority::Low), ("api_error".to_string(), Priority::Normal)];
    base.priority_channels = vec![("urgent".to_string(), vec![("sound".to_string(), false), ("desktop".to_string(), true)])];
    base.status_overrides = vec![(
        "api_error".to_string(),
        StatusOverride { enabled: Some(true), sound: Some("a.wav".to_string()), title: None },
    )];
    base.webhook.headers = vec![("X-Key".to_string(), "old".to_string())];

    let mut over = Config::default();
    over.priority_overrides = vec![("question".to_string(), Priority::Urgent), ("plan_ready".to_string(), Priority::Low)];
    over.priority_channels = vec![
        ("urgent".to_string(), vec![("sound".to_string(), true)]),
        ("low".to_string(), vec![("webhook".to_string(), true)]),
    ];
    over.status_overrides = vec![(
        "api_error".to_string(),
        StatusOverride { enabled: None, sound: None, title: Some("Oops".to_string()) },
    )];
    over.webhook.headers = vec![("X-Key".to_string(), "new".to_string()), ("Y".to_string(), "1".to_string())];

    let m = base.merge(over).unwrap();
    assert_eq!(
        m.priority_overrides,
        vec![
            ("question".to_string(), Priority::Urgent),
            ("api_error".to_string(), Priority::Normal),
            ("plan_ready".to_string(), Priority::Low),
        ]
    );
    assert_eq!(
        m.priority_channels,
        vec![
            ("urgent".to_string(), vec![("sound".to_string(), true), ("desktop".to_string(), true)]),
            ("low".to_string(), vec![("webhook".to_string(), true)]),
        ]
    );
    assert_eq!(
        m.status_overrides,
        vec![(
            "api_error".to_string(),
            StatusOverride { enabled: Some(true), sound: Some("a.wav".to_string()), title: Some("Oops".to_string()) },
        )]
    );
    assert_eq!(
        m.webhook.headers,
        vec![("X-Key".to_string(), "new".to_string()), ("Y".to_string(), "1".to_string())]
    );
}

#[test]
fn merged_maps_keep_names_unique() {
    let mut base = Config::default();
    base.priority_overrides = vec![("a".to_string(), Priority::Low), ("b".to_string(), Priority::Low)];
    let mut over = Config::default();
    over.priority_overrides = vec![("b".to_string(), Priority::Urgent), ("c".to_string(), Priority::Normal)];
    let m = base.merge(over).unwrap();
    let mut names: Vec<&str> = m.priority_overrides.iter().map(|(k, _)| k.as_str()).collect();
    names.sort();
    names.dedup();
    assert_eq!(names.len(), m.priority_overrides.len());
    assert_eq!(m.priority_overrides.len(), 3);
}
