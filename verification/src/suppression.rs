//! Suppression rules: filters, cooldowns and content de-duplication.
use vstd::prelude::*;

use crate::config::{SuppressionConfig, SuppressionFilter};
use crate::state::{current_unix_secs, SessionState};
use crate::text::{chars_of, decimal, push_decimal, push_str, str_eq, string_of};
use crate::types::{opt_view, status_name, Status};

verus! {

// ─── Specification ───────────────────────────────────────────────────────────

/// A filter names exactly this status.
pub open spec fn filter_names(f: SuppressionFilter, s: Status) -> bool {
    f.status matches Some(x) && x@ == status_name(s)
}

/// Some filter names this status.
pub open spec fn filtered(fs: Seq<SuppressionFilter>, s: Status) -> bool {
    exists|i: int| 0 <= i < fs.len() && filter_names(#[trigger] fs[i], s)
}

/// Seconds from `t` to `now`, 0 when `t` is later.
pub open spec fn elapsed(now: u64, t: u64) -> u64 {
    if now >= t {
        (now - t) as u64
    } else {
        0
    }
}

/// `<prefix><elapsed>s < <limit>s)`.
pub open spec fn timed_reason_spec(prefix: Seq<char>, e: u64, limit: u64) -> Seq<char> {
    prefix + decimal(e as nat) + "s < "@ + decimal(limit as nat) + "s)"@
}

/// The reason given when a filter drops a status.
pub open spec fn filter_reason(s: Status) -> Seq<char> {
    "filter rule matched status '"@ + status_name(s) + "'"@
}

/// The time-based rules, in order: the task-to-question cascade, the
/// general question cooldown, then content de-duplication.
pub open spec fn timed_suppression(
    c: SuppressionConfig,
    s: Status,
    content: Seq<char>,
    st: SessionState,
    now: u64,
) -> Option<Seq<char>> {
    if s == Status::Question && st.last_task_complete_time is Some && elapsed(
        now,
        st.last_task_complete_time->0,
    ) < c.task_to_question_cooldown {
        Some(
            timed_reason_spec(
                "task-to-question cascade cooldown ("@,
                elapsed(now, st.last_task_complete_time->0),
                c.task_to_question_cooldown,
            ),
        )
    } else if s == Status::Question && st.last_notification_time is Some && elapsed(
        now,
        st.last_notification_time->0,
    ) < c.cooldown_seconds {
        Some(
            timed_reason_spec(
                "cooldown ("@,
                elapsed(now, st.last_notification_time->0),
                c.cooldown_seconds,
            ),
        )
    } else if opt_view(st.last_notification_content) == Some(content)
        && st.last_notification_time is Some && elapsed(now, st.last_notification_time->0)
        < c.content_dedup_seconds {
        Some(
            timed_reason_spec(
                "duplicate content within dedup window ("@,
                elapsed(now, st.last_notification_time->0),
                c.content_dedup_seconds,
            ),
        )
    } else {
        None
    }
}

/// Why a notification is dropped at Unix time `now`, or `None` when it is
/// let through. Filters always apply; the time-based rules only without
/// `bypass`.
pub open spec fn suppression_spec(
    c: SuppressionConfig,
    s: Status,
    content: Seq<char>,
    st: SessionState,
    bypass: bool,
    now: u64,
) -> Option<Seq<char>> {
    if filtered(c.filters@, s) {
        Some(filter_reason(s))
    } else if bypass {
        None
    } else {
        timed_suppression(c, s, content, st, now)
    }
}

// ─── SuppressionEngine ───────────────────────────────────────────────────────

/// Decides whether a notification is dropped, from the configuration, the
/// session history and whether cooldowns are bypassed.
pub struct SuppressionEngine<'a> {
    config: &'a SuppressionConfig,
}

impl<'a> SuppressionEngine<'a> {
    /// The configuration that this engine applies.
    pub closed spec fn config_spec(&self) -> SuppressionConfig {
        *self.config
    }

    /// An engine applying `config`.
    pub fn new(config: &'a SuppressionConfig) -> (r: Self)
        ensures
            r.config_spec() == *config,
    {
        SuppressionEngine { config }
    }

    /// Why a notification is dropped at Unix time `now`, or `None` when it
    /// is let through.
    pub fn check_at(
        &self,
        status: &Status,
        content: &str,
        state: &SessionState,
        bypass_cooldown: bool,
        now: u64,
    ) -> (r: Option<String>)
        ensures
            opt_view(r) == suppression_spec(
                self.config_spec(),
                *status,
                content@,
                *state,
                bypass_cooldown,
                now,
            ),
    {
        if let Some(reason) = self.check_filters(status) {
            return Some(reason);
        }
        if bypass_cooldown {
            return None;
        }
        let c = self.config;
        if *status == Status::Question {
            if let Some(task_time) = state.last_task_complete_time {
                let e = saturating_elapsed(now, task_time);
                if e < c.task_to_question_cooldown {
                    return Some(
                        timed_reason(
                            "task-to-question cascade cooldown (",
                            e,
                            c.task_to_question_cooldown,
                        ),
                    );
                }
            }
        }
        if *status == Status::Question {
            if let Some(last_time) = state.last_notification_time {
                let e = saturating_elapsed(now, last_time);
                if e < c.cooldown_seconds {
                    return Some(timed_reason("cooldown (", e, c.cooldown_seconds));
                }
            }
        }
        if let Some(last_content) = &state.last_notification_content {
            if str_eq(last_content.as_str(), content) {
                if let Some(last_time) = state.last_notification_time {
                    let e = saturating_elapsed(now, last_time);
                    if e < c.content_dedup_seconds {
                        return Some(
                            timed_reason(
                                "duplicate content within dedup window (",
                                e,
                                c.content_dedup_seconds,
                            ),
                        );
                    }
                }
            }
        }
        None
    }

    /// Why a notification is dropped now, or `None` when it is let through.
    ///
    /// Evaluation order: filters (always, even with `bypass_cooldown`); with
    /// `bypass_cooldown` nothing else; otherwise the task-to-question
    /// cascade, the question cooldown, and content de-duplication, each
    /// measured against the current time.
    pub fn check(
        &self,
        status: &Status,
        content: &str,
        state: &SessionState,
        bypass_cooldown: bool,
    ) -> (r: Option<String>)
        ensures
            exists|now: u64|
                opt_view(r) == suppression_spec(
                    self.config_spec(),
                    *status,
                    content@,
                    *state,
                    bypass_cooldown,
                    now,
                ),
            filtered(self.config_spec().filters@, *status) ==> opt_view(r) == Some(
                filter_reason(*status),
            ),
            !filtered(self.config_spec().filters@, *status) && bypass_cooldown ==> r is None,
    {
        let now = current_unix_secs();
        self.check_at(status, content, state, bypass_cooldown, now)
    }

    /// The reason a filter rule drops this status, if one does.
    pub fn check_filters(&self, status: &Status) -> (r: Option<String>)
        ensures
            filtered(self.config_spec().filters@, *status) ==> opt_view(r) == Some(
                filter_reason(*status),
            ),
            !filtered(self.config_spec().filters@, *status) ==> r is None,
    {
        let fs = &self.config.filters;
        let mut i: usize = 0;
        while i < fs.len()
            invariant
                i <= fs.len(),
                fs@ == self.config_spec().filters@,
                forall|k: int| 0 <= k < i ==> !filter_names(#[trigger] fs@[k], *status),
            decreases fs.len() - i,
        {
            if filter_matches_status(&fs[i], status) {
                assert(filter_names(fs@[i as int], *status));
                assert(self.config_spec().filters@[i as int] == fs@[i as int]);
                assert(filtered(self.config_spec().filters@, *status));
                let mut v = chars_of("filter rule matched status '");
                push_str(&mut v, status.as_str());
                push_str(&mut v, "'");
                return Some(string_of(&v));
            }
            i = i + 1;
        }
        None
    }
}

// ─── Helpers ─────────────────────────────────────────────────────────────────

fn filter_matches_status(filter: &SuppressionFilter, status: &Status) -> (r: bool)
    ensures
        r == filter_names(*filter, *status),
{
    match &filter.status {
        Some(fs) => str_eq(fs.as_str(), status.as_str()),
        None => false,
    }
}

fn saturating_elapsed(now: u64, t: u64) -> (r: u64)
    ensures
        r == elapsed(now, t),
{
    if now >= t {
        now - t
    } else {
        0
    }
}

fn timed_reason(prefix: &str, e: u64, limit: u64) -> (r: String)
    ensures
        r@ == timed_reason_spec(prefix@, e, limit),
{
    let mut v = chars_of(prefix);
    push_decimal(&mut v, e);
    push_str(&mut v, "s < ");
    push_decimal(&mut v, limit);
    push_str(&mut v, "s)");
    string_of(&v)
}

/// The laws of the suppression rules: filters apply whatever the bypass
/// flag says; with the bypass flag no time-based rule applies; and with no
/// filters and an empty history nothing is dropped.
pub proof fn lemma_suppression_laws(
    c: SuppressionConfig,
    s: Status,
    content: Seq<char>,
    st: SessionState,
    now: u64,
)
    ensures
        filtered(c.filters@, s) ==> suppression_spec(c, s, content, st, true, now) == Some(
            filter_reason(s),
        ),
        !filtered(c.filters@, s) ==> suppression_spec(c, s, content, st, true, now) is None,
        c.filters@.len() == 0 && crate::state::is_empty_state(st) ==> suppression_spec(
            c,
            s,
            content,
            st,
            false,
            now,
        ) is None,
{
}

/// Only a question is held back by the cascade and general cooldowns. For
/// any other status the time since the last notification matters only when
/// the content repeats the last one: such a status is dropped exactly when a
/// filter names it, or (without the bypass flag) when the same content was
/// sent within the de-duplication window. So with no filter and new content
/// it is let through at every time, and two times give the same answer.
pub proof fn lemma_only_questions_cool_down(
    c: SuppressionConfig,
    s: Status,
    content: Seq<char>,
    st: SessionState,
    bypass: bool,
    now: u64,
    later: u64,
)
    requires
        s != Status::Question,
    ensures
        suppression_spec(c, s, content, st, bypass, now) is Some <==> (filtered(c.filters@, s)
            || (!bypass && opt_view(st.last_notification_content) == Some(content)
            && st.last_notification_time is Some && (if now >= st.last_notification_time->0 {
            now - st.last_notification_time->0
        } else {
            0
        }) < c.content_dedup_seconds)),
        !filtered(c.filters@, s) && opt_view(st.last_notification_content) != Some(content)
            ==> suppression_spec(c, s, content, st, bypass, now) is None,
        !filtered(c.filters@, s) && opt_view(st.last_notification_content) != Some(content)
            ==> suppression_spec(c, s, content, st, bypass, now) == suppression_spec(
            c,
            s,
            content,
            st,
            bypass,
            later,
        ),
{
}

} // verus!
