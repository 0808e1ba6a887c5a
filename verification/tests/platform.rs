use hook_notify::platform::{
    applescript_notification, escape_applescript, idle_seconds_from_ioreg,
    idle_seconds_from_xprintidle, linux_notification_body, linux_terminal_focused,
    mac_terminal_focused, timeout_millis, DesktopNotifier, NoopActivityDetector, NoopNotifier,
    UserActivityDetector,
};

#[test]
fn noop_activity_returns_defaults() {
    let detector = NoopActivityDetector;
    assert_eq!(detector.idle_seconds(), 0);
    assert!(!detector.is_terminal_focused());
}

#[test]
fn noop_notifier_returns_ok() {
    let notifier = NoopNotifier;
    let result = notifier.send("title", "body", None, None, None);
    assert!(result.is_ok());
    assert!(!notifier.supports_click_action());
}

#[test]
fn applescript_escaping() {
    assert_eq!(escape_applescript(r#"say "hi" \ bye"#), r#"say \"hi\" \\ bye"#);
    assert_eq!(escape_applescript("plain"), "plain");
}

#[test]
fn applescript_script_text() {
    assert_eq!(
        applescript_notification("T", "B \"q\"", None),
        r#"display notification "B \"q\"" with title "T""#
    );
    assert_eq!(
        applescript_notification("T", "B", Some("S")),
        r#"display notification "B" with title "T" subtitle "S""#
    );
}

#[test]
fn linux_body_and_timeout() {
    assert_eq!(linux_notification_body("body", Some("sub")), "sub\nbody");
    assert_eq!(linux_notification_body("body", None), "body");
    assert_eq!(timeout_millis(5), 5000);
    assert_eq!(timeout_millis(4_294_968), 704);
}

#[test]
fn xprintidle_output() {
    assert_eq!(idle_seconds_from_xprintidle("12345\n"), 12);
    assert_eq!(idle_seconds_from_xprintidle("  999 "), 0);
    assert_eq!(idle_seconds_from_xprintidle("+2000"), 2);
    assert_eq!(idle_seconds_from_xprintidle("oops"), 0);
    assert_eq!(idle_seconds_from_xprintidle(""), 0);
    assert_eq!(idle_seconds_from_xprintidle("99999999999999999999999"), 0);
}

#[test]
fn terminal_window_names() {
    assert!(linux_terminal_focused("user@host: ~ - GNOME-Terminal\n"));
    assert!(linux_terminal_focused("kitty"));
    assert!(!linux_terminal_focused("Firefox"));
    assert!(mac_terminal_focused("iTerm2\n"));
    assert!(mac_terminal_focused("Ghostty"));
    assert!(!mac_terminal_focused("iTerm2 helper"));
    assert!(!mac_terminal_focused("Safari"));
}

#[test]
fn ioreg_idle_time() {
    let out = "+-o IOHIDSystem\n    | {\n    |   \"HIDIdleTime\" = 5000000000\n    | }\n";
    assert_eq!(idle_seconds_from_ioreg(out), 5);
    let out = "  \"HIDIdleTime\" = x\n  \"HIDIdleTime\" = 3500000000";
    assert_eq!(idle_seconds_from_ioreg(out), 3);
    assert_eq!(idle_seconds_from_ioreg("nothing here\n"), 0);
    assert_eq!(idle_seconds_from_ioreg(""), 0);
}
