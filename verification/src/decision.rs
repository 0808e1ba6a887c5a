//! The decision engine: priority, suppression and user activity combined
//! into one decision per event.
use vstd::prelude::*;

use crate::config::Config;
use crate::priority::PriorityEngine;
use crate::state::{current_unix_secs, SessionState};
use crate::suppression::{suppression_spec, SuppressionEngine};
use crate::text::{chars_of, push_str, string_of};
use crate::types::{
    status_icon, status_title, Channel, Decision, DecisionView, Notification, NotificationView,
    Priority, Status,
};

verus! {

/// What the engine learns about the user at decision time. Implemented by
/// the platform layer, and by test doubles.
pub trait UserActivity {
    /// Seconds since the last observed user input.
    fn idle_seconds(&self) -> u64;

    /// Whether the session's terminal window is the focused application.
    fn is_terminal_focused(&self) -> bool;
}

// ─── Specification ───────────────────────────────────────────────────────────

/// The notification title of a status: its icon, a space, its title.
pub open spec fn notification_title(s: Status) -> Seq<char> {
    status_icon(s) + " "@ + status_title(s)
}

/// The notification built for a status and summary at a priority.
pub open spec fn notification_for(s: Status, summary: Seq<char>, p: Priority) -> NotificationView {
    NotificationView {
        title: notification_title(s),
        body: summary,
        subtitle: None,
        icon: None,
        priority: p,
        click_action: None,
        thread_id: None,
        timeout: None,
    }
}

/// The reason given for a downgrade.
pub open spec fn downgrade_reason() -> Seq<char> {
    "terminal focused and user not idle"@
}

/// The channels used after a downgrade: the terminal bell, or the desktop
/// when the bell is disabled.
pub open spec fn downgrade_channels(c: Config) -> Seq<Channel> {
    if c.terminal_bell.enabled {
        seq![Channel::TerminalBell]
    } else {
        seq![Channel::Desktop]
    }
}

/// The decision for an event, given the user's idle time, whether the
/// terminal is focused, and the current Unix time.
///
/// Suppression comes first (its cooldowns are bypassed at `Urgent`
/// priority). Otherwise, when activity detection and focus suppression are
/// enabled, the priority is not `Urgent`, the terminal is focused and the
/// user is not idle, the event is downgraded to `Low`; else it is notified
/// on the channels of its priority.
pub open spec fn decision_spec(
    c: Config,
    pe: PriorityEngine,
    s: Status,
    summary: Seq<char>,
    idle: u64,
    focused: bool,
    st: SessionState,
    now: u64,
) -> DecisionView {
    let p = pe.assess_spec(s);
    let n = notification_for(s, summary, p);
    match suppression_spec(c.suppression, s, summary, st, p == Priority::Urgent, now) {
        Some(reason) => DecisionView::Suppress { reason },
        None => if c.activity.enabled && c.activity.suppress_when_focused && p != Priority::Urgent
            && focused && !(idle >= c.activity.idle_threshold_seconds) {
            DecisionView::Downgrade {
                from: p,
                to: Priority::Low,
                reason: downgrade_reason(),
                channels: downgrade_channels(c),
                notification: notification_for(s, summary, Priority::Low),
            }
        } else {
            DecisionView::Notify { channels: pe.channels_spec(p), priority: p, notification: n }
        },
    }
}

// ─── DecisionEngine ──────────────────────────────────────────────────────────

/// Turns a detected status and its summary into a decision.
pub struct DecisionEngine<'a> {
    config: &'a Config,
    priority_engine: &'a PriorityEngine,
}

impl<'a> DecisionEngine<'a> {
    /// The configuration that the engine applies.
    pub closed spec fn config_spec(&self) -> Config {
        *self.config
    }

    /// The priority engine that the engine consults.
    pub closed spec fn priority_spec(&self) -> PriorityEngine {
        *self.priority_engine
    }

    /// An engine over the given configuration and priority engine.
    pub fn new(config: &'a Config, priority_engine: &'a PriorityEngine) -> (r: Self)
        ensures
            r.config_spec() == *config,
            r.priority_spec() == *priority_engine,
    {
        DecisionEngine { config, priority_engine }
    }

    /// The decision for an event at Unix time `now`, for a user idle for
    /// `idle_seconds` and a terminal that is focused or not.
    pub fn decide_at(
        &self,
        status: Status,
        summary: &str,
        idle_seconds: u64,
        terminal_focused: bool,
        state: &SessionState,
        now: u64,
    ) -> (d: Decision)
        ensures
            d@ == decision_spec(
                self.config_spec(),
                self.priority_spec(),
                status,
                summary@,
                idle_seconds,
                terminal_focused,
                *state,
                now,
            ),
    {
        let priority = self.priority_engine.assess(&status);
        let notification = build_notification(status, summary, priority);
        let bypass_cooldown = self.priority_engine.bypasses_cooldown(&priority);
        let suppression_engine = SuppressionEngine::new(&self.config.suppression);
        if let Some(reason) = suppression_engine.check_at(
            &status,
            summary,
            state,
            bypass_cooldown,
            now,
        ) {
            return Decision::Suppress { reason };
        }
        self.after_suppression(status, summary, priority, notification, idle_seconds, terminal_focused)
    }

    /// The decision for an event now, asking `activity` about the user.
    ///
    /// The user is asked about only when the event is not suppressed, and
    /// about focus only when a downgrade is possible.
    pub fn decide<A: UserActivity>(
        &self,
        status: Status,
        summary: &str,
        activity: &A,
        state: &SessionState,
    ) -> (d: Decision)
        ensures
            exists|idle: u64, focused: bool, now: u64|
                d@ == decision_spec(
                    self.config_spec(),
                    self.priority_spec(),
                    status,
                    summary@,
                    idle,
                    focused,
                    *state,
                    now,
                ),
            exists|idle: u64, focused: bool, now: u64|
                {
                    &&& d@ == decision_spec(
                        self.config_spec(),
                        self.priority_spec(),
                        status,
                        summary@,
                        idle,
                        focused,
                        *state,
                        now,
                    )
                    &&& !(d is Suppress) ==> call_ensures(A::idle_seconds, (activity,), idle)
                    &&& (!(d is Suppress) && self.config_spec().activity.enabled
                        && self.config_spec().activity.suppress_when_focused
                        && self.priority_spec().assess_spec(status) != Priority::Urgent)
                        ==> call_ensures(A::is_terminal_focused, (activity,), focused)
                },
    {
        let priority = self.priority_engine.assess(&status);
        let bypass_cooldown = self.priority_engine.bypasses_cooldown(&priority);
        let suppression_engine = SuppressionEngine::new(&self.config.suppression);
        let now = current_unix_secs();
        // The user is asked about only once suppression has let the event
        // through, and about focus only when a downgrade is possible.
        if let Some(reason) = suppression_engine.check_at(
            &status,
            summary,
            state,
            bypass_cooldown,
            now,
        ) {
            let d = Decision::Suppress { reason };
            assert(d@ == decision_spec(
                self.config_spec(),
                self.priority_spec(),
                status,
                summary@,
                0,
                false,
                *state,
                now,
            ));
            return d;
        }
        let idle = activity.idle_seconds();
        let activity_cfg = &self.config.activity;
        let may_downgrade = activity_cfg.enabled && activity_cfg.suppress_when_focused
            && !self.priority_engine.bypasses_idle_check(&priority);
        let focused = if may_downgrade {
            activity.is_terminal_focused()
        } else {
            false
        };
        self.decide_at(status, summary, idle, focused, state, now)
    }

    /// The downgrade-or-notify step, once suppression has let the event through.
    fn after_suppression(
        &self,
        status: Status,
        summary: &str,
        priority: Priority,
        notification: Notification,
        idle_seconds: u64,
        terminal_focused: bool,
    ) -> (d: Decision)
        requires
            priority == self.priority_spec().assess_spec(status),
            notification@ == notification_for(status, summary@, priority),
        ensures
            ({
                let c = self.config_spec();
                let pe = self.priority_spec();
                if c.activity.enabled && c.activity.suppress_when_focused && priority
                    != Priority::Urgent && terminal_focused && !(idle_seconds
                    >= c.activity.idle_threshold_seconds) {
                    d@ == DecisionView::Downgrade {
                        from: priority,
                        to: Priority::Low,
                        reason: downgrade_reason(),
                        channels: downgrade_channels(c),
                        notification: notification_for(status, summary@, Priority::Low),
                    }
                } else {
                    d@ == DecisionView::Notify {
                        channels: pe.channels_spec(priority),
                        priority,
                        notification: notification_for(status, summary@, priority),
                    }
                }
            }),
    {
        let activity_cfg = &self.config.activity;
        let user_is_idle = idle_seconds >= activity_cfg.idle_threshold_seconds;
        let bypasses_idle = self.priority_engine.bypasses_idle_check(&priority);
        if activity_cfg.enabled && activity_cfg.suppress_when_focused && !bypasses_idle
            && terminal_focused && !user_is_idle {
            let mut channels: Vec<Channel> = Vec::new();
            if self.config.terminal_bell.enabled {
                channels.push(Channel::TerminalBell);
            } else {
                channels.push(Channel::Desktop);
            }
            assert(channels@ =~= downgrade_channels(self.config_spec()));
            let downgraded = notification.with_priority(Priority::Low);
            return Decision::Downgrade {
                from: priority,
                to: Priority::Low,
                reason: crate::text::owned("terminal focused and user not idle"),
                channels,
                notification: downgraded,
            };
        }
        let channels = self.priority_engine.channels_for(&priority);
        Decision::Notify { channels, priority, notification }
    }
}

/// The notification for a status and summary at a priority.
fn build_notification(status: Status, summary: &str, priority: Priority) -> (n: Notification)
    ensures
        n@ == notification_for(status, summary@, priority),
{
    let mut title = chars_of(status.default_icon());
    push_str(&mut title, " ");
    push_str(&mut title, status.default_title());
    let t = string_of(&title);
    Notification::new(t.as_str(), summary).with_priority(priority)
}

/// Laws of the decision engine: an `Urgent` event is never downgraded; a
/// downgrade always goes to `Low` on the bell or the desktop alone, never
/// with sound; a suppressed event is exactly one that the suppression rules
/// drop; with activity detection disabled nothing is downgraded.
pub proof fn lemma_decision_laws(
    c: Config,
    pe: PriorityEngine,
    s: Status,
    summary: Seq<char>,
    idle: u64,
    focused: bool,
    st: SessionState,
    now: u64,
)
    ensures
        ({
            let d = decision_spec(c, pe, s, summary, idle, focused, st, now);
            let p = pe.assess_spec(s);
            &&& p == Priority::Urgent ==> !(d is Downgrade)
            &&& (d matches DecisionView::Downgrade { to, channels, .. } ==> to == Priority::Low
                && channels.len() == 1 && !channels.contains(Channel::Sound))
            &&& (d is Suppress <==> suppression_spec(
                c.suppression,
                s,
                summary,
                st,
                p == Priority::Urgent,
                now,
            ) is Some)
            &&& !c.activity.enabled ==> !(d is Downgrade)
        }),
{
    let ch = downgrade_channels(c);
    if c.terminal_bell.enabled {
        assert(ch[0] == Channel::TerminalBell);
    } else {
        assert(ch[0] == Channel::Desktop);
    }
    assert(!ch.contains(Channel::Sound));
}


/// The user's presence decides a downgrade: a user idle for at least the
/// configured threshold, or whose terminal is not focused, is never
/// downgraded, whatever the status, summary, history and time; and a
/// focused, active user is downgraded exactly for an event that gets
/// through suppression at a priority below `Urgent`, when activity
/// detection and focus suppression are enabled.
pub proof fn lemma_presence_decides_downgrade(
    c: Config,
    pe: PriorityEngine,
    s: Status,
    summary: Seq<char>,
    idle: u64,
    focused: bool,
    st: SessionState,
    now: u64,
)
    ensures
        idle >= c.activity.idle_threshold_seconds ==> !(decision_spec(c, pe, s, summary, idle, focused, st, now) is Downgrade),
        !focused ==> !(decision_spec(c, pe, s, summary, idle, focused, st, now) is Downgrade),
        (focused && idle < c.activity.idle_threshold_seconds && c.activity.enabled
            && c.activity.suppress_when_focused && pe.assess_spec(s) != Priority::Urgent
            && suppression_spec(c.suppression, s, summary, st, false, now) is None)
            ==> decision_spec(c, pe, s, summary, idle, focused, st, now) is Downgrade,
{
}

} // verus!
