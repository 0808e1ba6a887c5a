//! Configuration: one section per concern, each with its defaults.
//!
//! Maps of the configuration file are kept as association lists of
//! `(name, value)` pairs (see `crate::assoc`).
use vstd::prelude::*;

use crate::text::owned;
use crate::types::Priority;

verus! {

/// Desktop (banner) notifications.
#[derive(Debug, Clone, PartialEq)]
pub struct DesktopConfig {
    /// Enable desktop notifications.
    pub enabled: bool,
    /// Click the notification to focus the terminal window.
    pub click_to_focus: bool,
    /// Terminal application bundle id (e.g. `com.apple.Terminal`).
    pub terminal_bundle_id: String,
    /// Custom icon path (empty: system default).
    pub app_icon: String,
    /// Display duration in seconds (0: persistent).
    pub timeout: u64,
}

impl Default for DesktopConfig {
    fn default() -> (r: Self)
        ensures
            r.enabled,
            r.click_to_focus,
            r.terminal_bundle_id@ == Seq::<char>::empty(),
            r.app_icon@ == Seq::<char>::empty(),
            r.timeout == 5,
    {
        DesktopConfig {
            enabled: true,
            click_to_focus: true,
            terminal_bundle_id: String::new(),
            app_icon: String::new(),
            timeout: 5,
        }
    }
}

/// The bits of the IEEE-754 double-precision number 0.8.
pub const DEFAULT_VOLUME_BITS: u64 = 0x3FE9_9999_9999_999A;

/// Sound alerts.
#[derive(Debug, Clone, PartialEq)]
pub struct SoundConfig {
    /// Enable sound alerts.
    pub enabled: bool,
    /// Volume between 0 and 1, as the bits of an IEEE-754 double-precision
    /// number (the audio back end converts it).
    pub volume_bits: u64,
    /// Output device name (empty: system default).
    pub device: String,
}

impl Default for SoundConfig {
    fn default() -> (r: Self)
        ensures
            r.enabled,
            r.volume_bits == DEFAULT_VOLUME_BITS,
            r.device@ == Seq::<char>::empty(),
    {
        SoundConfig { enabled: true, volume_bits: DEFAULT_VOLUME_BITS, device: String::new() }
    }
}

/// The terminal bell.
#[derive(Debug, Clone, PartialEq)]
pub struct TerminalBellConfig {
    /// Ring the terminal bell on notification.
    pub enabled: bool,
}

impl Default for TerminalBellConfig {
    fn default() -> (r: Self)
        ensures
            r.enabled,
    {
        TerminalBellConfig { enabled: true }
    }
}

/// Webhook delivery.
#[derive(Debug, Clone, PartialEq)]
pub struct WebhookConfig {
    /// Enable webhook notifications.
    pub enabled: bool,
    /// Preset name (`slack`, `discord`, `telegram`, `lark`, anything else: custom).
    pub preset: String,
    /// Webhook URL (required when enabled).
    pub url: String,
    /// Chat or channel id (used by some services).
    pub chat_id: String,
    /// Additional HTTP headers.
    pub headers: Vec<(String, String)>,
    /// Custom payload template (empty: use the preset).
    pub template: String,
    /// Maximum number of retries after a failed attempt.
    pub retry_max: u32,
    /// Timeout of one request, in seconds.
    pub timeout_seconds: u64,
}

impl Default for WebhookConfig {
    fn default() -> (r: Self)
        ensures
            !r.enabled,
            r.preset@ == "slack"@,
            r.url@ == Seq::<char>::empty(),
            r.chat_id@ == Seq::<char>::empty(),
            r.headers@.len() == 0,
            r.template@ == Seq::<char>::empty(),
            r.retry_max == 3,
            r.timeout_seconds == 10,
    {
        WebhookConfig {
            enabled: false,
            preset: owned("slack"),
            url: String::new(),
            chat_id: String::new(),
            headers: Vec::new(),
            template: String::new(),
            retry_max: 3,
            timeout_seconds: 10,
        }
    }
}

/// Per-status overrides.
#[derive(Debug, Clone, PartialEq)]
pub struct StatusOverride {
    /// Override the enabled state of this status.
    pub enabled: Option<bool>,
    /// Override the sound file of this status.
    pub sound: Option<String>,
    /// Override the notification title of this status.
    pub title: Option<String>,
}

impl Default for StatusOverride {
    fn default() -> (r: Self)
        ensures
            r.enabled is None,
            r.sound is None,
            r.title is None,
    {
        StatusOverride { enabled: None, sound: None, title: None }
    }
}

/// Activity and focus detection.
#[derive(Debug, Clone, PartialEq)]
pub struct ActivityConfig {
    /// Enable activity / focus detection.
    pub enabled: bool,
    /// Seconds without input after which the user counts as idle.
    pub idle_threshold_seconds: u64,
    /// Tone notifications down while the terminal is focused.
    pub suppress_when_focused: bool,
}

impl Default for ActivityConfig {
    fn default() -> (r: Self)
        ensures
            r.enabled,
            r.idle_threshold_seconds == 30,
            r.suppress_when_focused,
    {
        ActivityConfig { enabled: true, idle_threshold_seconds: 30, suppress_when_focused: true }
    }
}

/// One suppression rule; a notification whose status matches is dropped.
#[derive(Debug, Clone, PartialEq)]
pub struct SuppressionFilter {
    /// Status name to match (snake case, e.g. `task_complete`).
    pub status: Option<String>,
    /// Git branch to match.
    pub git_branch: Option<String>,
    /// Project folder to match (substring).
    pub folder: Option<String>,
}

impl Default for SuppressionFilter {
    fn default() -> (r: Self)
        ensures
            r.status is None,
            r.git_branch is None,
            r.folder is None,
    {
        SuppressionFilter { status: None, git_branch: None, folder: None }
    }
}

/// Cooldowns and filters.
#[derive(Debug, Clone, PartialEq)]
pub struct SuppressionConfig {
    /// Seconds during which a question after any notification is dropped.
    pub cooldown_seconds: u64,
    /// Seconds during which a question after a completed task is dropped.
    pub task_to_question_cooldown: u64,
    /// Seconds during which a repeated body is dropped.
    pub content_dedup_seconds: u64,
    /// Filter rules; a notification is dropped when any rule matches.
    pub filters: Vec<SuppressionFilter>,
}

impl Default for SuppressionConfig {
    fn default() -> (r: Self)
        ensures
            r.cooldown_seconds == 7,
            r.task_to_question_cooldown == 12,
            r.content_dedup_seconds == 180,
            r.filters@.len() == 0,
    {
        SuppressionConfig {
            cooldown_seconds: 7,
            task_to_question_cooldown: 12,
            content_dedup_seconds: 180,
            filters: Vec::new(),
        }
    }
}

/// Team sessions.
#[derive(Debug, Clone, PartialEq)]
pub struct TeamConfig {
    /// Notification mode: `always`, `on_error` or `never`.
    pub mode: String,
    /// Notify on subagent events.
    pub notify_on_subagent: bool,
    /// Drop notifications that come from subagents.
    pub suppress_for_subagents: bool,
}

impl Default for TeamConfig {
    fn default() -> (r: Self)
        ensures
            r.mode@ == "always"@,
            !r.notify_on_subagent,
            r.suppress_for_subagents,
    {
        TeamConfig { mode: owned("always"), notify_on_subagent: false, suppress_for_subagents: true }
    }
}

/// Debug logging.
#[derive(Debug, Clone, PartialEq)]
pub struct DebugConfig {
    /// Enable debug logging.
    pub enabled: bool,
    /// Log file path (empty: the default location).
    pub log_file: String,
}

impl Default for DebugConfig {
    fn default() -> (r: Self)
        ensures
            !r.enabled,
            r.log_file@ == Seq::<char>::empty(),
    {
        DebugConfig { enabled: false, log_file: String::new() }
    }
}

/// The whole configuration.
#[derive(Debug, Clone, PartialEq)]
pub struct Config {
    pub desktop: DesktopConfig,
    pub sound: SoundConfig,
    pub terminal_bell: TerminalBellConfig,
    pub webhook: WebhookConfig,
    pub activity: ActivityConfig,
    pub suppression: SuppressionConfig,
    pub team: TeamConfig,
    pub debug: DebugConfig,
    /// Priority overrides keyed by status name.
    pub priority_overrides: Vec<(String, Priority)>,
    /// Channel overrides keyed by priority name, then by channel name.
    pub priority_channels: Vec<(String, Vec<(String, bool)>)>,
    /// Per-status overrides keyed by status name.
    pub status_overrides: Vec<(String, StatusOverride)>,
}

/// The defaults of every section.
pub open spec fn is_default_config(c: Config) -> bool {
    &&& c.desktop.enabled && c.desktop.click_to_focus
    &&& c.desktop.terminal_bundle_id@.len() == 0 && c.desktop.app_icon@.len() == 0
    &&& c.desktop.timeout == 5
    &&& c.sound.enabled && c.sound.volume_bits == DEFAULT_VOLUME_BITS && c.sound.device@.len() == 0
    &&& c.terminal_bell.enabled
    &&& !c.webhook.enabled && c.webhook.preset@ == "slack"@ && c.webhook.url@.len() == 0
    &&& c.webhook.chat_id@.len() == 0 && c.webhook.headers@.len() == 0
    &&& c.webhook.template@.len() == 0
    &&& c.webhook.retry_max == 3 && c.webhook.timeout_seconds == 10
    &&& c.activity.enabled && c.activity.idle_threshold_seconds == 30
    &&& c.activity.suppress_when_focused
    &&& c.suppression.cooldown_seconds == 7 && c.suppression.task_to_question_cooldown == 12
    &&& c.suppression.content_dedup_seconds == 180 && c.suppression.filters@.len() == 0
    &&& c.team.mode@ == "always"@ && !c.team.notify_on_subagent && c.team.suppress_for_subagents
    &&& !c.debug.enabled && c.debug.log_file@.len() == 0
    &&& c.priority_overrides@.len() == 0
    &&& c.priority_channels@.len() == 0
    &&& c.status_overrides@.len() == 0
}

impl Default for Config {
    fn default() -> (r: Self)
        ensures
            is_default_config(r),
    {
        Config {
            desktop: DesktopConfig::default(),
            sound: SoundConfig::default(),
            terminal_bell: TerminalBellConfig::default(),
            webhook: WebhookConfig::default(),
            activity: ActivityConfig::default(),
            suppression: SuppressionConfig::default(),
            team: TeamConfig::default(),
            debug: DebugConfig::default(),
            priority_overrides: Vec::new(),
            priority_channels: Vec::new(),
            status_overrides: Vec::new(),
        }
    }
}

} // verus!
