use hook_notify::types::{Channel, Notification, ParseChannelError, Priority, Status};

#[test]
fn status_display() {
    assert_eq!(Status::TaskComplete.as_str(), "task_complete");
    assert_eq!(Status::ReviewComplete.as_str(), "review_complete");
    assert_eq!(Status::Question.as_str(), "question");
    assert_eq!(Status::PlanReady.as_str(), "plan_ready");
    assert_eq!(Status::SessionLimit.as_str(), "session_limit");
    assert_eq!(Status::ApiError.as_str(), "api_error");
    assert_eq!(Status::ApiOverloaded.as_str(), "api_overloaded");
}

#[test]
fn priority_ordering() {
    assert!(Priority::Urgent > Priority::Normal);
    assert!(Priority::Normal > Priority::Low);
    assert!(Priority::Urgent > Priority::Low);
    assert!(Priority::Low < Priority::Urgent);
    assert_eq!(Priority::Normal, Priority::Normal);
}

#[test]
fn channel_from_str() {
    assert_eq!("desktop".parse::<Channel>().unwrap(), Channel::Desktop);
    assert_eq!("sound".parse::<Channel>().unwrap(), Channel::Sound);
    assert_eq!("terminal_bell".parse::<Channel>().unwrap(), Channel::TerminalBell);
    assert_eq!("terminalbell".parse::<Channel>().unwrap(), Channel::TerminalBell);
    assert_eq!("bell".parse::<Channel>().unwrap(), Channel::TerminalBell);
    assert_eq!("webhook".parse::<Channel>().unwrap(), Channel::Webhook);

    assert!("invalid_channel".parse::<Channel>().is_err());
    assert!("".parse::<Channel>().is_err());
}

#[test]
fn notification_builder() {
    let n = Notification::new("Hello", "World");
    assert_eq!(n.title, "Hello");
    assert_eq!(n.body, "World");
    assert_eq!(n.priority, Priority::Normal);
    assert!(n.subtitle.is_none());
    assert!(n.thread_id.is_none());

    let n2 = n.with_subtitle("Sub").with_priority(Priority::Urgent).with_thread_id("thread-1");
    assert_eq!(n2.subtitle.as_deref(), Some("Sub"));
    assert_eq!(n2.priority, Priority::Urgent);
    assert_eq!(n2.thread_id.as_deref(), Some("thread-1"));
}

#[test]
fn channel_names_ignore_case_and_errors_say_which() {
    assert_eq!(Channel::from_name("DeskTop"), Ok(Channel::Desktop));
    let e = Channel::from_name("Pager").unwrap_err();
    assert_eq!(e, ParseChannelError("pager".to_string()));
    assert_eq!(e.message(), "unknown channel: pager");
}

#[test]
fn status_titles_and_icons() {
    assert_eq!(Status::Question.default_title(), "Question");
    assert_eq!(Status::PlanReady.default_title(), "Plan Ready");
    assert_eq!(Status::ApiOverloaded.default_title(), "API Overloaded");
    assert_eq!(Status::TaskComplete.default_icon(), "\u{2705}");
    assert_eq!(Status::ApiError.default_icon(), "\u{274c}");
    assert_eq!(Priority::Urgent.rank(), 2);
    assert_eq!(Priority::Low.rank(), 0);
}
