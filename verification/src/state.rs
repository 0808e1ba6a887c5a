//! Per-session state that the suppression rules consult.
use vstd::prelude::*;

use crate::text::{chars_of, push_str, str_eq, string_of, owned};

verus! {

/// What the library remembers about a session between hook events.
#[derive(Debug, Clone)]
pub struct SessionState {
    /// Unix time (seconds) of the last notification sent.
    pub last_notification_time: Option<u64>,
    /// Status name of the last notification (e.g. `task_complete`).
    pub last_notification_status: Option<String>,
    /// Body of the last notification.
    pub last_notification_content: Option<String>,
    /// Unix time (seconds) of the last `task_complete` notification.
    pub last_task_complete_time: Option<u64>,
}

/// Nothing remembered yet.
pub open spec fn is_empty_state(s: SessionState) -> bool {
    &&& s.last_notification_time is None
    &&& s.last_notification_status is None
    &&& s.last_notification_content is None
    &&& s.last_task_complete_time is None
}

/// The state after a notification with the given status name and body was
/// sent at time `now`.
pub open spec fn updated_state(
    old: SessionState,
    new: SessionState,
    status: Seq<char>,
    content: Seq<char>,
    now: u64,
) -> bool {
    &&& new.last_notification_time == Some(now)
    &&& new.last_notification_status matches Some(s) && s@ == status
    &&& new.last_notification_content matches Some(c) && c@ == content
    &&& new.last_task_complete_time == if status == "task_complete"@ {
        Some(now)
    } else {
        old.last_task_complete_time
    }
}

impl Default for SessionState {
    fn default() -> (r: Self)
        ensures
            is_empty_state(r),
    {
        SessionState {
            last_notification_time: None,
            last_notification_status: None,
            last_notification_content: None,
            last_task_complete_time: None,
        }
    }
}

impl SessionState {
    /// An empty state.
    pub fn new() -> (r: Self)
        ensures
            is_empty_state(r),
    {
        SessionState::default()
    }

    /// Where the state file of a session lives:
    /// `/tmp/hook-notify-state-<session id>.json`.
    pub fn state_path(session_id: &str) -> (r: String)
        ensures
            r@ == "/tmp/hook-notify-state-"@ + session_id@ + ".json"@,
    {
        let mut v = chars_of("/tmp/hook-notify-state-");
        push_str(&mut v, session_id);
        push_str(&mut v, ".json");
        string_of(&v)
    }

    /// Records a notification with the given status name and body, sent at
    /// Unix time `now`.
    pub fn update_after_notification_at(&mut self, status: &str, content: &str, now: u64)
        ensures
            updated_state(*old(self), *final(self), status@, content@, now),
    {
        self.last_notification_time = Some(now);
        self.last_notification_status = Some(owned(status));
        self.last_notification_content = Some(owned(content));
        if str_eq(status, "task_complete") {
            self.last_task_complete_time = Some(now);
        }
    }

    /// Records a notification with the given status name and body, sent
    /// now. A `task_complete` notification also sets the task time, to the
    /// same instant.
    pub fn update_after_notification(&mut self, status: &str, content: &str)
        ensures
            exists|now: u64| updated_state(*old(self), *final(self), status@, content@, now),
            final(self).last_notification_time is Some,
            status@ == "task_complete"@ ==> final(self).last_task_complete_time
                == final(self).last_notification_time,
    {
        let now = current_unix_secs();
        self.update_after_notification_at(status, content, now);
    }
}

/// The current time as Unix seconds: std's `SystemTime::now()` measured
/// from `UNIX_EPOCH` (0 if the clock is before the epoch). Nothing is
/// promised of the value: it is whatever the system clock says.
#[verifier::external_body]
pub fn current_unix_secs() -> u64 {
    std::time::SystemTime::now()
        .duration_since(std::time::UNIX_EPOCH)
        .unwrap_or_default()
        .as_secs()
}

} // verus!
