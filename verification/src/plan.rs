//! What one hook event leads to: the status and summary read from the
//! transcript, the decision, the channels to deliver on with their
//! settings, and the session state afterwards.
use vstd::prelude::*;

use crate::analyzer::{detect_status, detect_status_spec, Message};
use crate::config::Config;
use crate::decision::{decision_spec, DecisionEngine, UserActivity};
use crate::hook::HookInput;
use crate::priority::PriorityEngine;
use crate::state::{updated_state, SessionState};
use crate::summary::{extract_summary, summary_spec};
use crate::text::{join_path, lowercase, path_join};
use crate::types::{status_name, Channel, Decision};
use crate::webhook::{header_set, headers_view, preset_named, WebhookDispatcher, WebhookPreset};

verus! {

// ─── Channels to deliver on ──────────────────────────────────────────────────

/// How to deliver on one channel.
pub enum DispatcherPlan {
    /// A desktop banner with this icon and timeout (milliseconds).
    Desktop { icon: Option<String>, timeout_ms: Option<u32> },
    /// A sound from this directory, at this volume (the bits of an
    /// IEEE-754 double).
    Sound { sounds_dir: String, volume_bits: u64 },
    /// The terminal bell.
    TerminalBell,
    /// A webhook.
    Webhook(WebhookDispatcher),
}

/// Whether the configuration enables a channel (a webhook also needs a
/// URL).
pub open spec fn channel_enabled(c: Config, ch: Channel) -> bool {
    match ch {
        Channel::Desktop => c.desktop.enabled,
        Channel::Sound => c.sound.enabled,
        Channel::TerminalBell => c.terminal_bell.enabled,
        Channel::Webhook => c.webhook.enabled && c.webhook.url@.len() > 0,
    }
}

/// The channels that are delivered on, in the given order.
pub open spec fn enabled_channels(c: Config, chs: Seq<Channel>) -> Seq<Channel>
    decreases chs.len(),
{
    if chs.len() == 0 {
        Seq::empty()
    } else {
        let r = enabled_channels(c, chs.drop_last());
        if channel_enabled(c, chs.last()) {
            r.push(chs.last())
        } else {
            r
        }
    }
}

/// The configured headers set one after the other onto `h`.
pub open spec fn headers_from(h: Seq<(Seq<char>, Seq<char>)>, es: Seq<(String, String)>) -> Seq<
    (Seq<char>, Seq<char>),
>
    decreases es.len(),
{
    if es.len() == 0 {
        h
    } else {
        header_set(headers_from(h, es.drop_last()), es.last().0@, es.last().1@)
    }
}

/// The webhook endpoint that the configuration describes.
pub open spec fn webhook_planned(c: Config, d: WebhookDispatcher) -> bool {
    &&& d.url == c.webhook.url
    &&& d.preset == preset_named(lowercase(c.webhook.preset@))
    &&& d.retry_max == c.webhook.retry_max
    &&& d.timeout_seconds == c.webhook.timeout_seconds
    &&& d.chat_id == if c.webhook.chat_id@.len() == 0 {
        None
    } else {
        Some(c.webhook.chat_id)
    }
    &&& d.template is None
    &&& headers_view(d.headers@) == headers_from(Seq::empty(), c.webhook.headers@)
}

/// `p` is how the configuration delivers on channel `ch`.
pub open spec fn plan_for(c: Config, plugin_root: Seq<char>, ch: Channel, p: DispatcherPlan) -> bool {
    match ch {
        Channel::Desktop => p matches DispatcherPlan::Desktop { icon, timeout_ms } && (match icon {
            Some(i) => c.desktop.app_icon@.len() > 0 && i@ == c.desktop.app_icon@,
            None => c.desktop.app_icon@.len() == 0,
        }) && timeout_ms == if c.desktop.timeout > 0 {
            Some((c.desktop.timeout * 1000) as u32)
        } else {
            None
        },
        Channel::Sound => p matches DispatcherPlan::Sound { sounds_dir, volume_bits } && sounds_dir@
            == path_join(plugin_root, "sounds"@) && volume_bits == c.sound.volume_bits,
        Channel::TerminalBell => p is TerminalBell,
        Channel::Webhook => p matches DispatcherPlan::Webhook(d) && webhook_planned(c, d),
    }
}

/// The desktop timeout in milliseconds fits in 64 bits whenever a desktop
/// banner is planned.
pub open spec fn desktop_timeout_fits(c: Config, chs: Seq<Channel>) -> bool {
    chs.contains(Channel::Desktop) && c.desktop.enabled ==> c.desktop.timeout * 1000 <= u64::MAX
}

fn webhook_plan(c: &Config) -> (d: WebhookDispatcher)
    ensures
        webhook_planned(*c, d),
{
    let preset = WebhookPreset::parse(c.webhook.preset.as_str());
    let mut d = WebhookDispatcher::new(c.webhook.url.clone()).with_preset(preset).with_retry_max(
        c.webhook.retry_max,
    ).with_timeout_seconds(c.webhook.timeout_seconds);
    if !c.webhook.chat_id.as_str().is_empty() {
        d = d.with_chat_id(c.webhook.chat_id.clone());
    }
    proof {
        assert(headers_view(d.headers@) =~= Seq::<(Seq<char>, Seq<char>)>::empty());
    }
    let hs = &c.webhook.headers;
    let mut i: usize = 0;
    while i < hs.len()
        invariant
            i <= hs.len(),
            hs == &c.webhook.headers,
            d.url == c.webhook.url,
            d.preset == preset_named(lowercase(c.webhook.preset@)),
            d.retry_max == c.webhook.retry_max,
            d.timeout_seconds == c.webhook.timeout_seconds,
            d.chat_id == if c.webhook.chat_id@.len() == 0 {
                None
            } else {
                Some(c.webhook.chat_id)
            },
            d.template is None,
            headers_view(d.headers@) == headers_from(Seq::empty(), hs@.take(i as int)),
        decreases hs.len() - i,
    {
        proof {
            assert(hs@.take(i as int + 1).drop_last() =~= hs@.take(i as int));
        }
        d = d.with_header(hs[i].0.clone(), hs[i].1.clone());
        i = i + 1;
    }
    assert(hs@.take(hs.len() as int) =~= hs@);
    d
}

/// The way of delivering on each enabled channel among `channels`, in
/// their order; disabled channels are skipped.
pub fn plan_dispatchers(config: &Config, plugin_root: &str, channels: &[Channel]) -> (r: Vec<
    DispatcherPlan,
>)
    requires
        desktop_timeout_fits(*config, channels@),
    ensures
        r@.len() == enabled_channels(*config, channels@).len(),
        forall|i: int|
            0 <= i < r@.len() ==> plan_for(
                *config,
                plugin_root@,
                #[trigger] enabled_channels(*config, channels@)[i],
                r@[i],
            ),
{
    let mut out: Vec<DispatcherPlan> = Vec::new();
    let mut k: usize = 0;
    while k < channels.len()
        invariant
            k <= channels.len(),
            desktop_timeout_fits(*config, channels@),
            out@.len() == enabled_channels(*config, channels@.take(k as int)).len(),
            forall|i: int|
                0 <= i < out@.len() ==> plan_for(
                    *config,
                    plugin_root@,
                    #[trigger] enabled_channels(*config, channels@.take(k as int))[i],
                    out@[i],
                ),
        decreases channels.len() - k,
    {
        let ch = channels[k];
        let ghost before = out@;
        let ghost prev = enabled_channels(*config, channels@.take(k as int));
        proof {
            assert(channels@.take(k as int + 1).drop_last() =~= channels@.take(k as int));
        }
        match ch {
            Channel::Desktop => {
                if config.desktop.enabled {
                    assert(channels@.contains(Channel::Desktop)) by {
                        assert(channels@[k as int] == Channel::Desktop);
                    }
                    let icon = if config.desktop.app_icon.as_str().is_empty() {
                        None
                    } else {
                        Some(config.desktop.app_icon.clone())
                    };
                    let timeout_ms = if config.desktop.timeout > 0 {
                        Some((config.desktop.timeout * 1000) as u32)
                    } else {
                        None
                    };
                    out.push(DispatcherPlan::Desktop { icon, timeout_ms });
                }
            },
            Channel::Sound => {
                if config.sound.enabled {
                    proof {
                        reveal_strlit("sounds");
                    }
                    let sounds_dir = join_path(plugin_root, "sounds");
                    out.push(DispatcherPlan::Sound { sounds_dir, volume_bits: config.sound.volume_bits });
                }
            },
            Channel::TerminalBell => {
                if config.terminal_bell.enabled {
                    out.push(DispatcherPlan::TerminalBell);
                }
            },
            Channel::Webhook => {
                if config.webhook.enabled && !config.webhook.url.as_str().is_empty() {
                    out.push(DispatcherPlan::Webhook(webhook_plan(config)));
                }
            },
        }
        proof {
            let now = enabled_channels(*config, channels@.take(k as int + 1));
            assert forall|i: int| 0 <= i < out@.len() implies plan_for(
                *config,
                plugin_root@,
                #[trigger] now[i],
                out@[i],
            ) by {
                if i < before.len() {
                    assert(now[i] == prev[i]);
                    assert(out@[i] == before[i]);
                }
            }
        }
        k = k + 1;
    }
    assert(channels@.take(channels.len() as int) =~= channels@);
    out
}

// ─── One hook event ──────────────────────────────────────────────────────────

/// The status, summary and decision for one hook event.
pub struct HookAssessment {
    pub status: crate::types::Status,
    pub summary: String,
    pub decision: Decision,
}

/// Reads the status and summary of an event from its transcript and
/// decides, consulting `activity` about the user and the clock for the
/// time.
pub fn assess_hook<A: UserActivity>(
    config: &Config,
    priority_engine: &PriorityEngine,
    input: &HookInput,
    messages: &[Message],
    state: &SessionState,
    activity: &A,
) -> (r: HookAssessment)
    ensures
        r.status == detect_status_spec(messages@, input.is_api_error_message, input.tool_name@),
        r.summary@ == summary_spec(r.status, messages@),
        exists|idle: u64, focused: bool, now: u64|
            r.decision@ == decision_spec(
                *config,
                *priority_engine,
                r.status,
                r.summary@,
                idle,
                focused,
                *state,
                now,
            ),
{
    let status = detect_status(messages, input);
    let summary = extract_summary(&status, messages);
    let engine = DecisionEngine::new(config, priority_engine);
    let decision = engine.decide(status, summary.as_str(), activity, state);
    HookAssessment { status, summary, decision }
}

/// The session state after an event: a delivered (or downgraded)
/// notification is recorded, a suppressed one is not.
pub fn record_outcome(state: &mut SessionState, outcome: &HookAssessment)
    ensures
        outcome.decision is Suppress ==> *final(state) == *old(state),
        !(outcome.decision is Suppress) ==> exists|now: u64|
            updated_state(
                *old(state),
                *final(state),
                status_name(outcome.status),
                outcome.summary@,
                now,
            ),
{
    match &outcome.decision {
        Decision::Suppress { .. } => {},
        _ => {
            state.update_after_notification(outcome.status.as_str(), outcome.summary.as_str());
        },
    }
}

} // verus!
