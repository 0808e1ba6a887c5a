use hook_notify::priority::{overrides_are_unique, PriorityEngine};
use hook_notify::types::{Channel, Priority, Status};

fn engine_default() -> PriorityEngine {
    PriorityEngine::new(Vec::new(), Vec::new())
}

#[test]
fn default_priorities() {
    let e = engine_default();

    assert_eq!(e.assess(&Status::ApiError), Priority::Urgent);
    assert_eq!(e.assess(&Status::SessionLimit), Priority::Urgent);
    assert_eq!(e.assess(&Status::Question), Priority::Urgent);

    assert_eq!(e.assess(&Status::TaskComplete), Priority::Normal);
    assert_eq!(e.assess(&Status::PlanReady), Priority::Normal);
    assert_eq!(e.assess(&Status::ApiOverloaded), Priority::Normal);

    assert_eq!(e.assess(&Status::ReviewComplete), Priority::Low);
}

#[test]
fn priority_priority_override() {
    let overrides = vec![
        ("review_complete".to_string(), Priority::Normal),
        ("question".to_string(), Priority::Low),
    ];

    let e = PriorityEngine::new(overrides, Vec::new());

    // Overridden
    assert_eq!(e.assess(&Status::ReviewComplete), Priority::Normal);
    assert_eq!(e.assess(&Status::Question), Priority::Low);

    // Unchanged
    assert_eq!(e.assess(&Status::ApiError), Priority::Urgent);
    assert_eq!(e.assess(&Status::TaskComplete), Priority::Normal);
}

#[test]
fn channels_for_urgent() {
    let e = engine_default();
    let channels = e.channels_for(&Priority::Urgent);

    assert!(channels.contains(&Channel::Desktop));
    assert!(channels.contains(&Channel::Sound));
    assert!(channels.contains(&Channel::TerminalBell));
    assert!(channels.contains(&Channel::Webhook));
    assert_eq!(channels.len(), 4);
}

#[test]
fn channels_for_low() {
    let e = engine_default();
    let channels = e.channels_for(&Priority::Low);

    assert_eq!(channels, vec![Channel::Desktop]);
}

#[test]
fn channel_override() {
    // Disable sound for urgent.
    let ch_overrides = vec![(
        "urgent".to_string(),
        vec![("sound".to_string(), false)],
    )];

    let e = PriorityEngine::new(Vec::new(), ch_overrides);
    let channels = e.channels_for(&Priority::Urgent);

    assert!(channels.contains(&Channel::Desktop));
    assert!(!channels.contains(&Channel::Sound));
    assert!(channels.contains(&Channel::TerminalBell));
    assert!(channels.contains(&Channel::Webhook));
    assert_eq!(channels.len(), 3);
}

#[test]
fn channel_override_adds_missing_channel_once() {
    let ch_overrides = vec![(
        "low".to_string(),
        vec![("Sound".to_string(), true), ("desktop".to_string(), true)],
    )];
    let e = PriorityEngine::new(Vec::new(), ch_overrides);
    assert_eq!(e.channels_for(&Priority::Low), vec![Channel::Desktop, Channel::Sound]);
}

#[test]
fn channel_override_ignores_unknown_names() {
    let ch_overrides = vec![("normal".to_string(), vec![("pager".to_string(), true)])];
    let e = PriorityEngine::new(Vec::new(), ch_overrides);
    assert_eq!(
        e.channels_for(&Priority::Normal),
        vec![Channel::Desktop, Channel::Sound, Channel::Webhook]
    );
}

#[test]
fn only_urgent_bypasses_checks() {
    let e = engine_default();
    assert!(e.bypasses_cooldown(&Priority::Urgent));
    assert!(e.bypasses_idle_check(&Priority::Urgent));
    assert!(!e.bypasses_cooldown(&Priority::Normal));
    assert!(!e.bypasses_idle_check(&Priority::Low));
}

#[test]
fn override_maps_must_name_each_entry_once() {
    let ok = vec![("question".to_string(), Priority::Low), ("api_error".to_string(), Priority::Normal)];
    let dup = vec![("question".to_string(), Priority::Low), ("question".to_string(), Priority::Normal)];
    let inner_dup = vec![("low".to_string(), vec![("sound".to_string(), true), ("sound".to_string(), false)])];
    assert!(overrides_are_unique(&ok, &Vec::new()));
    assert!(!overrides_are_unique(&dup, &Vec::new()));
    assert!(!overrides_are_unique(&ok, &inner_dup));
}

#[test]
fn agreeing_overrides_decide_membership() {
    // "bell" and "terminal_bell" both name the terminal bell and agree.
    let ch_overrides = vec![(
        "low".to_string(),
        vec![("bell".to_string(), true), ("Terminal_Bell".to_string(), true), ("desktop".to_string(), false)],
    )];
    let e = PriorityEngine::new(Vec::new(), ch_overrides);
    let chs = e.channels_for(&Priority::Low);
    assert!(chs.contains(&Channel::TerminalBell));
    assert!(!chs.contains(&Channel::Desktop));
    assert!(!chs.contains(&Channel::Sound));
}
