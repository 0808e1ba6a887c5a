//! Shared types: statuses, priorities, channels, notifications and decisions.
use vstd::prelude::*;

use crate::text::{str_eq, to_lowercase, lowercase};

verus! {

// ─── Status ──────────────────────────────────────────────────────────────────

/// What happened in the session that may deserve a notification.
#[derive(Debug, Clone, Copy, PartialEq, Eq, Hash, Structural)]
pub enum Status {
    TaskComplete,
    ReviewComplete,
    Question,
    PlanReady,
    SessionLimit,
    ApiError,
    ApiOverloaded,
}

/// The snake-case name of a status.
pub open spec fn status_name(s: Status) -> Seq<char> {
    match s {
        Status::TaskComplete => "task_complete"@,
        Status::ReviewComplete => "review_complete"@,
        Status::Question => "question"@,
        Status::PlanReady => "plan_ready"@,
        Status::SessionLimit => "session_limit"@,
        Status::ApiError => "api_error"@,
        Status::ApiOverloaded => "api_overloaded"@,
    }
}

/// The human-readable title of a status.
pub open spec fn status_title(s: Status) -> Seq<char> {
    match s {
        Status::TaskComplete => "Task Complete"@,
        Status::ReviewComplete => "Review Complete"@,
        Status::Question => "Question"@,
        Status::PlanReady => "Plan Ready"@,
        Status::SessionLimit => "Session Limit"@,
        Status::ApiError => "API Error"@,
        Status::ApiOverloaded => "API Overloaded"@,
    }
}

/// The icon (an emoji) shown before the title of a status.
pub open spec fn status_icon(s: Status) -> Seq<char> {
    match s {
        Status::TaskComplete => "✅"@,
        Status::ReviewComplete => "👀"@,
        Status::Question => "❓"@,
        Status::PlanReady => "📋"@,
        Status::SessionLimit => "⏱️"@,
        Status::ApiError => "❌"@,
        Status::ApiOverloaded => "🔥"@,
    }
}

impl Status {
    /// The snake-case name, as used in configuration files.
    pub fn as_str(&self) -> (r: &'static str)
        ensures
            r@ == status_name(*self),
    {
        match self {
            Status::TaskComplete => "task_complete",
            Status::ReviewComplete => "review_complete",
            Status::Question => "question",
            Status::PlanReady => "plan_ready",
            Status::SessionLimit => "session_limit",
            Status::ApiError => "api_error",
            Status::ApiOverloaded => "api_overloaded",
        }
    }

    /// The default notification title.
    pub fn default_title(&self) -> (r: &'static str)
        ensures
            r@ == status_title(*self),
    {
        match self {
            Status::TaskComplete => "Task Complete",
            Status::ReviewComplete => "Review Complete",
            Status::Question => "Question",
            Status::PlanReady => "Plan Ready",
            Status::SessionLimit => "Session Limit",
            Status::ApiError => "API Error",
            Status::ApiOverloaded => "API Overloaded",
        }
    }

    /// The default icon.
    pub fn default_icon(&self) -> (r: &'static str)
        ensures
            r@ == status_icon(*self),
    {
        match self {
            Status::TaskComplete => "✅",
            Status::ReviewComplete => "👀",
            Status::Question => "❓",
            Status::PlanReady => "📋",
            Status::SessionLimit => "⏱️",
            Status::ApiError => "❌",
            Status::ApiOverloaded => "🔥",
        }
    }
}

// ─── Priority ────────────────────────────────────────────────────────────────

/// How urgently the user should be told.
#[derive(Debug, Clone, Copy, PartialEq, Eq, Hash, Structural)]
pub enum Priority {
    Low,
    Normal,
    Urgent,
}

/// The position of a priority in the order `Low < Normal < Urgent`.
pub open spec fn priority_rank(p: Priority) -> nat {
    match p {
        Priority::Low => 0,
        Priority::Normal => 1,
        Priority::Urgent => 2,
    }
}

/// The snake-case name of a priority.
pub open spec fn priority_name(p: Priority) -> Seq<char> {
    match p {
        Priority::Low => "low"@,
        Priority::Normal => "normal"@,
        Priority::Urgent => "urgent"@,
    }
}

impl Priority {
    /// The position of this priority in the order `Low < Normal < Urgent`.
    pub fn rank(&self) -> (r: u8)
        ensures
            r == priority_rank(*self),
    {
        match self {
            Priority::Low => 0,
            Priority::Normal => 1,
            Priority::Urgent => 2,
        }
    }
}

/// The comparison of two priorities by rank.
pub open spec fn compare_priorities(a: Priority, b: Priority) -> Option<core::cmp::Ordering> {
    if priority_rank(a) < priority_rank(b) {
        Some(core::cmp::Ordering::Less)
    } else if priority_rank(a) == priority_rank(b) {
        Some(core::cmp::Ordering::Equal)
    } else {
        Some(core::cmp::Ordering::Greater)
    }
}

impl PartialOrd for Priority {
    fn partial_cmp(&self, other: &Self) -> (r: Option<core::cmp::Ordering>) {
        let a = self.rank();
        let b = other.rank();
        if a < b {
            Some(core::cmp::Ordering::Less)
        } else if a == b {
            Some(core::cmp::Ordering::Equal)
        } else {
            Some(core::cmp::Ordering::Greater)
        }
    }
}

impl vstd::std_specs::cmp::PartialOrdSpecImpl for Priority {
    open spec fn obeys_partial_cmp_spec() -> bool {
        true
    }

    open spec fn partial_cmp_spec(&self, other: &Self) -> Option<core::cmp::Ordering> {
        compare_priorities(*self, *other)
    }
}

/// Priorities are totally ordered by rank: two priorities compare equal
/// exactly when they are the same, and the order is `Low < Normal < Urgent`.
pub proof fn lemma_priority_total_order(a: Priority, b: Priority, c: Priority)
    ensures
        compare_priorities(a, b) is Some,
        compare_priorities(a, b) == Some(core::cmp::Ordering::Equal) <==> a == b,
        compare_priorities(a, b) == Some(core::cmp::Ordering::Less) <==> compare_priorities(b, a)
            == Some(core::cmp::Ordering::Greater),
        compare_priorities(a, b) == Some(core::cmp::Ordering::Less) && compare_priorities(b, c)
            == Some(core::cmp::Ordering::Less) ==> compare_priorities(a, c) == Some(
            core::cmp::Ordering::Less,
        ),
        compare_priorities(Priority::Low, Priority::Normal) == Some(core::cmp::Ordering::Less),
        compare_priorities(Priority::Normal, Priority::Urgent) == Some(core::cmp::Ordering::Less),
{
}

// ─── Channel ─────────────────────────────────────────────────────────────────

/// A way of reaching the user.
#[derive(Debug, Clone, Copy, PartialEq, Eq, Hash, Structural)]
pub enum Channel {
    Desktop,
    Sound,
    TerminalBell,
    Webhook,
}

/// The channel that a lower-case name denotes.
pub open spec fn channel_of_name(l: Seq<char>) -> Option<Channel> {
    if l == "desktop"@ {
        Some(Channel::Desktop)
    } else if l == "sound"@ {
        Some(Channel::Sound)
    } else if l == "terminal_bell"@ || l == "terminalbell"@ || l == "bell"@ {
        Some(Channel::TerminalBell)
    } else if l == "webhook"@ {
        Some(Channel::Webhook)
    } else {
        None
    }
}

/// The channel named by a lower-case name, if any.
pub fn channel_named(l: &str) -> (r: Option<Channel>)
    ensures
        r == channel_of_name(l@),
{
    if str_eq(l, "desktop") {
        Some(Channel::Desktop)
    } else if str_eq(l, "sound") {
        Some(Channel::Sound)
    } else if str_eq(l, "terminal_bell") || str_eq(l, "terminalbell") || str_eq(l, "bell") {
        Some(Channel::TerminalBell)
    } else if str_eq(l, "webhook") {
        Some(Channel::Webhook)
    } else {
        None
    }
}

/// A channel name that is not known; holds the lower-cased name.
#[derive(Debug, PartialEq, Eq)]
pub struct ParseChannelError(pub String);

impl ParseChannelError {
    /// The text that describes the error: `unknown channel: <name>`.
    pub fn message(&self) -> (r: String)
        ensures
            r@ == "unknown channel: "@ + self.0@,
    {
        let mut v = crate::text::chars_of("unknown channel: ");
        crate::text::push_str(&mut v, self.0.as_str());
        crate::text::string_of(&v)
    }
}

impl Channel {
    /// Parses a channel name, ignoring case: `desktop`, `sound`,
    /// `terminal_bell` (also `terminalbell` and `bell`) or `webhook`.
    pub fn from_name(s: &str) -> (r: Result<Channel, ParseChannelError>)
        ensures
            r matches Ok(c) ==> channel_of_name(lowercase(s@)) == Some(c),
            r matches Err(e) ==> channel_of_name(lowercase(s@)) is None && e.0@ == lowercase(s@),
    {
        let l = to_lowercase(s);
        match channel_named(l.as_str()) {
            Some(c) => Ok(c),
            None => Err(ParseChannelError(l)),
        }
    }
}

impl core::str::FromStr for Channel {
    type Err = ParseChannelError;

    fn from_str(s: &str) -> (r: Result<Self, Self::Err>)
        ensures
            r matches Ok(c) ==> channel_of_name(lowercase(s@)) == Some(c),
            r matches Err(e) ==> channel_of_name(lowercase(s@)) is None && e.0@ == lowercase(s@),
    {
        Channel::from_name(s)
    }
}

// ─── ClickAction ─────────────────────────────────────────────────────────────

/// What clicking a notification does.
#[derive(Debug, Clone, PartialEq, Eq)]
pub enum ClickAction {
    FocusTerminal { bundle_id: String },
    RunCommand { command: String },
}

/// A click action as plain text values.
pub enum ClickActionView {
    FocusTerminal { bundle_id: Seq<char> },
    RunCommand { command: Seq<char> },
}

impl View for ClickAction {
    type V = ClickActionView;

    open spec fn view(&self) -> ClickActionView {
        match self {
            ClickAction::FocusTerminal { bundle_id } => ClickActionView::FocusTerminal {
                bundle_id: bundle_id@,
            },
            ClickAction::RunCommand { command } => ClickActionView::RunCommand {
                command: command@,
            },
        }
    }
}

// ─── Notification ────────────────────────────────────────────────────────────

/// A desktop notification.
#[derive(Debug, Clone, PartialEq, Eq)]
pub struct Notification {
    pub title: String,
    pub body: String,
    pub subtitle: Option<String>,
    /// Path of the icon file.
    pub icon: Option<String>,
    pub priority: Priority,
    pub click_action: Option<ClickAction>,
    pub thread_id: Option<String>,
    pub timeout: Option<u64>,
}

/// The text of an optional string.
pub open spec fn opt_view(o: Option<String>) -> Option<Seq<char>> {
    match o {
        Some(s) => Some(s@),
        None => None,
    }
}

/// A notification as plain text values.
pub struct NotificationView {
    pub title: Seq<char>,
    pub body: Seq<char>,
    pub subtitle: Option<Seq<char>>,
    pub icon: Option<Seq<char>>,
    pub priority: Priority,
    pub click_action: Option<ClickActionView>,
    pub thread_id: Option<Seq<char>>,
    pub timeout: Option<u64>,
}

impl View for Notification {
    type V = NotificationView;

    open spec fn view(&self) -> NotificationView {
        NotificationView {
            title: self.title@,
            body: self.body@,
            subtitle: opt_view(self.subtitle),
            icon: opt_view(self.icon),
            priority: self.priority,
            click_action: match self.click_action {
                Some(a) => Some(a@),
                None => None,
            },
            thread_id: opt_view(self.thread_id),
            timeout: self.timeout,
        }
    }
}

/// A fresh notification with the given title and body, `Normal` priority
/// and nothing else set.
pub open spec fn new_notification_view(title: Seq<char>, body: Seq<char>) -> NotificationView {
    NotificationView {
        title,
        body,
        subtitle: None,
        icon: None,
        priority: Priority::Normal,
        click_action: None,
        thread_id: None,
        timeout: None,
    }
}

impl Notification {
    /// A notification with the given title and body at `Normal` priority.
    pub fn new(title: &str, body: &str) -> (r: Notification)
        ensures
            r@ == new_notification_view(title@, body@),
    {
        Notification {
            title: crate::text::owned(title),
            body: crate::text::owned(body),
            subtitle: None,
            icon: None,
            priority: Priority::Normal,
            click_action: None,
            thread_id: None,
            timeout: None,
        }
    }

    /// The same notification with a subtitle.
    pub fn with_subtitle(self, subtitle: &str) -> (r: Notification)
        ensures
            r@ == (NotificationView { subtitle: Some(subtitle@), ..self@ }),
    {
        Notification { subtitle: Some(crate::text::owned(subtitle)), ..self }
    }

    /// The same notification with another priority.
    pub fn with_priority(self, priority: Priority) -> (r: Notification)
        ensures
            r@ == (NotificationView { priority, ..self@ }),
    {
        Notification { priority, ..self }
    }

    /// The same notification grouped under a thread id.
    pub fn with_thread_id(self, thread_id: &str) -> (r: Notification)
        ensures
            r@ == (NotificationView { thread_id: Some(thread_id@), ..self@ }),
    {
        Notification { thread_id: Some(crate::text::owned(thread_id)), ..self }
    }
}

// ─── NotifyEvent ─────────────────────────────────────────────────────────────

/// A notification together with what caused it.
#[derive(Debug, Clone, PartialEq, Eq)]
pub struct NotifyEvent {
    pub status: Status,
    pub priority: Priority,
    pub notification: Notification,
    pub session_id: Option<String>,
}

// ─── Decision ────────────────────────────────────────────────────────────────

/// What to do about an event.
#[derive(Debug, Clone, PartialEq, Eq)]
pub enum Decision {
    Notify { channels: Vec<Channel>, priority: Priority, notification: Notification },
    Suppress { reason: String },
    Downgrade {
        from: Priority,
        to: Priority,
        reason: String,
        channels: Vec<Channel>,
        notification: Notification,
    },
}

/// A decision as plain values.
pub enum DecisionView {
    Notify { channels: Seq<Channel>, priority: Priority, notification: NotificationView },
    Suppress { reason: Seq<char> },
    Downgrade {
        from: Priority,
        to: Priority,
        reason: Seq<char>,
        channels: Seq<Channel>,
        notification: NotificationView,
    },
}

impl View for Decision {
    type V = DecisionView;

    open spec fn view(&self) -> DecisionView {
        match self {
            Decision::Notify { channels, priority, notification } => DecisionView::Notify {
                channels: channels@,
                priority: *priority,
                notification: notification@,
            },
            Decision::Suppress { reason } => DecisionView::Suppress { reason: reason@ },
            Decision::Downgrade { from, to, reason, channels, notification } =>
                DecisionView::Downgrade {
                from: *from,
                to: *to,
                reason: reason@,
                channels: channels@,
                notification: notification@,
            },
        }
    }
}

} // verus!
