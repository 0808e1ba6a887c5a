//! Priority assessment and the channels that each priority uses.
use vstd::prelude::*;

use crate::assoc::{find_key, lookup, names_unique, unique_names};
use crate::text::{lowercase, to_lowercase};
use crate::types::{channel_named, channel_of_name, priority_name, status_name, Channel, Priority, Status};

verus! {

// ─── Specification ───────────────────────────────────────────────────────────

/// The priority of a status when no override applies.
pub open spec fn default_priority_spec(s: Status) -> Priority {
    match s {
        Status::ApiError | Status::SessionLimit | Status::Question => Priority::Urgent,
        Status::TaskComplete | Status::PlanReady | Status::ApiOverloaded => Priority::Normal,
        Status::ReviewComplete => Priority::Low,
    }
}

/// The channels of a priority when no override applies.
pub open spec fn default_channels_spec(p: Priority) -> Seq<Channel> {
    match p {
        Priority::Urgent => seq![
            Channel::Desktop,
            Channel::Sound,
            Channel::TerminalBell,
            Channel::Webhook,
        ],
        Priority::Normal => seq![Channel::Desktop, Channel::Sound, Channel::Webhook],
        Priority::Low => seq![Channel::Desktop],
    }
}

/// `s` from index `i` on, without the entries equal to `x`.
pub open spec fn without_from(s: Seq<Channel>, x: Channel, i: int) -> Seq<Channel>
    decreases s.len() - i,
{
    if i < 0 || i >= s.len() {
        Seq::empty()
    } else if s[i] == x {
        without_from(s, x, i + 1)
    } else {
        seq![s[i]] + without_from(s, x, i + 1)
    }
}

/// One channel override: a known channel name that is enabled is added at
/// the end if missing; one that is disabled is removed; unknown names are
/// ignored. Names are matched ignoring case.
pub open spec fn apply_channel_override(chs: Seq<Channel>, name: Seq<char>, enabled: bool) -> Seq<Channel> {
    match channel_of_name(lowercase(name)) {
        Some(ch) => if enabled {
            if chs.contains(ch) {
                chs
            } else {
                chs.push(ch)
            }
        } else {
            without_from(chs, ch, 0)
        },
        None => chs,
    }
}

/// The overrides from index `i` on, applied in order.
pub open spec fn apply_overrides_from(chs: Seq<Channel>, ovs: Seq<(String, bool)>, i: int) -> Seq<Channel>
    decreases ovs.len() - i,
{
    if i < 0 || i >= ovs.len() {
        chs
    } else {
        apply_overrides_from(apply_channel_override(chs, ovs[i].0@, ovs[i].1), ovs, i + 1)
    }
}

// ─── PriorityEngine ──────────────────────────────────────────────────────────

/// The overrides are maps: no status is named twice, no priority is named
/// twice, and no channel is named twice under one priority.
pub open spec fn overrides_unique(
    overrides: Seq<(String, Priority)>,
    channel_overrides: Seq<(String, Vec<(String, bool)>)>,
) -> bool {
    &&& unique_names(overrides)
    &&& unique_names(channel_overrides)
    &&& forall|i: int| 0 <= i < channel_overrides.len() ==> unique_names(#[trigger] channel_overrides[i].1@)
}

/// Whether the overrides are maps (see `overrides_unique`).
pub fn overrides_are_unique(
    overrides: &Vec<(String, Priority)>,
    channel_overrides: &Vec<(String, Vec<(String, bool)>)>,
) -> (r: bool)
    ensures
        r == overrides_unique(overrides@, channel_overrides@),
{
    if !names_unique(overrides) || !names_unique(channel_overrides) {
        return false;
    }
    let mut i: usize = 0;
    while i < channel_overrides.len()
        invariant
            i <= channel_overrides.len(),
            unique_names(overrides@),
            unique_names(channel_overrides@),
            forall|k: int| 0 <= k < i ==> unique_names(#[trigger] channel_overrides@[k].1@),
        decreases channel_overrides.len() - i,
    {
        if !names_unique(&channel_overrides[i].1) {
            return false;
        }
        i = i + 1;
    }
    true
}

/// Maps statuses to priorities and priorities to channels, with
/// user-configured overrides.
pub struct PriorityEngine {
    /// Per-status priority overrides keyed by status name.
    overrides: Vec<(String, Priority)>,
    /// Per-priority channel overrides: outer name is a priority name
    /// (e.g. `urgent`), inner name a channel name, value the enabled flag.
    channel_overrides: Vec<(String, Vec<(String, bool)>)>,
}

impl PriorityEngine {
    /// The per-status priority overrides.
    pub closed spec fn overrides_spec(&self) -> Seq<(String, Priority)> {
        self.overrides@
    }

    /// The per-priority channel overrides.
    pub closed spec fn channel_overrides_spec(&self) -> Seq<(String, Vec<(String, bool)>)> {
        self.channel_overrides@
    }

    /// The priority that this engine assigns to a status.
    pub open spec fn assess_spec(&self, s: Status) -> Priority {
        match lookup(self.overrides_spec(), status_name(s)) {
            Some(p) => p,
            None => default_priority_spec(s),
        }
    }

    /// The channels that this engine uses for a priority.
    pub open spec fn channels_spec(&self, p: Priority) -> Seq<Channel> {
        match lookup(self.channel_overrides_spec(), priority_name(p)) {
            Some(ovs) => apply_overrides_from(default_channels_spec(p), ovs@, 0),
            None => default_channels_spec(p),
        }
    }

    /// The engine's overrides are maps.
    pub open spec fn well_formed(&self) -> bool {
        overrides_unique(self.overrides_spec(), self.channel_overrides_spec())
    }

    /// An engine with the given overrides, which are maps.
    pub fn new(
        overrides: Vec<(String, Priority)>,
        channel_overrides: Vec<(String, Vec<(String, bool)>)>,
    ) -> (r: PriorityEngine)
        requires
            overrides_unique(overrides@, channel_overrides@),
        ensures
            r.well_formed(),
            r.overrides_spec() == overrides@,
            r.channel_overrides_spec() == channel_overrides@,
    {
        PriorityEngine { overrides, channel_overrides }
    }

    /// The priority for a status: its override if one is configured, else
    /// the default.
    pub fn assess(&self, status: &Status) -> (r: Priority)
        ensures
            r == self.assess_spec(*status),
    {
        let i = find_key(&self.overrides, status.as_str());
        if i < self.overrides.len() {
            self.overrides[i].1
        } else {
            default_priority(status)
        }
    }

    /// The channels for a priority, with the channel overrides applied.
    /// The result never names a channel twice.
    pub fn channels_for(&self, priority: &Priority) -> (r: Vec<Channel>)
        ensures
            r@ == self.channels_spec(*priority),
            r@.no_duplicates(),
    {
        let mut channels = default_channels(priority);
        let key = priority_key(priority);
        let i = find_key(&self.channel_overrides, key);
        proof {
            lemma_default_channels_distinct(*priority);
        }
        if i < self.channel_overrides.len() {
            let ovs = &self.channel_overrides[i].1;
            let mut k: usize = 0;
            while k < ovs.len()
                invariant
                    k <= ovs.len(),
                    channels@.no_duplicates(),
                    apply_overrides_from(default_channels_spec(*priority), ovs@, 0)
                        == apply_overrides_from(channels@, ovs@, k as int),
                decreases ovs.len() - k,
            {
                let ghost before = channels@;
                let (name, enabled) = (&ovs[k].0, ovs[k].1);
                match channel_from_key(name.as_str()) {
                    Some(ch) => {
                        if enabled {
                            if !contains_channel(&channels, ch) {
                                channels.push(ch);
                                proof {
                                    lemma_push_distinct(before, ch);
                                }
                            }
                        } else {
                            proof {
                                lemma_without_distinct(before, ch, 0);
                            }
                            channels = remove_channel(&channels, ch);
                        }
                    },
                    None => {},
                }
                assert(channels@ == apply_channel_override(before, ovs@[k as int].0@, ovs@[k as int].1));
                k = k + 1;
            }
        }
        channels
    }

    /// Whether a priority skips the idle check: only `Urgent` does.
    pub fn bypasses_idle_check(&self, priority: &Priority) -> (r: bool)
        ensures
            r == (*priority == Priority::Urgent),
    {
        *priority == Priority::Urgent
    }

    /// Whether a priority skips the cooldown rules: only `Urgent` does.
    pub fn bypasses_cooldown(&self, priority: &Priority) -> (r: bool)
        ensures
            r == (*priority == Priority::Urgent),
    {
        *priority == Priority::Urgent
    }
}

// ─── Helpers ─────────────────────────────────────────────────────────────────

fn default_priority(status: &Status) -> (r: Priority)
    ensures
        r == default_priority_spec(*status),
{
    match status {
        Status::ApiError | Status::SessionLimit | Status::Question => Priority::Urgent,
        Status::TaskComplete | Status::PlanReady | Status::ApiOverloaded => Priority::Normal,
        Status::ReviewComplete => Priority::Low,
    }
}

fn default_channels(priority: &Priority) -> (r: Vec<Channel>)
    ensures
        r@ == default_channels_spec(*priority),
{
    let mut v: Vec<Channel> = Vec::new();
    match priority {
        Priority::Urgent => {
            v.push(Channel::Desktop);
            v.push(Channel::Sound);
            v.push(Channel::TerminalBell);
            v.push(Channel::Webhook);
        },
        Priority::Normal => {
            v.push(Channel::Desktop);
            v.push(Channel::Sound);
            v.push(Channel::Webhook);
        },
        Priority::Low => {
            v.push(Channel::Desktop);
        },
    }
    assert(v@ =~= default_channels_spec(*priority));
    v
}

fn priority_key(priority: &Priority) -> (r: &'static str)
    ensures
        r@ == priority_name(*priority),
{
    match priority {
        Priority::Urgent => "urgent",
        Priority::Normal => "normal",
        Priority::Low => "low",
    }
}

/// The channel that a configuration key names, ignoring case.
fn channel_from_key(key: &str) -> (r: Option<Channel>)
    ensures
        r == channel_of_name(lowercase(key@)),
{
    let l = to_lowercase(key);
    channel_named(l.as_str())
}

fn contains_channel(chs: &Vec<Channel>, ch: Channel) -> (r: bool)
    ensures
        r == chs@.contains(ch),
{
    let mut i: usize = 0;
    while i < chs.len()
        invariant
            i <= chs.len(),
            forall|j: int| 0 <= j < i ==> chs@[j] != ch,
        decreases chs.len() - i,
    {
        if chs[i] == ch {
            assert(chs@[i as int] == ch);
            return true;
        }
        i = i + 1;
    }
    false
}

fn remove_channel(chs: &Vec<Channel>, ch: Channel) -> (r: Vec<Channel>)
    ensures
        r@ == without_from(chs@, ch, 0),
{
    let mut out: Vec<Channel> = Vec::new();
    let mut i: usize = 0;
    while i < chs.len()
        invariant
            i <= chs.len(),
            without_from(chs@, ch, 0) == out@ + without_from(chs@, ch, i as int),
        decreases chs.len() - i,
    {
        if chs[i] != ch {
            out.push(chs[i]);
        }
        i = i + 1;
    }
    out
}

proof fn lemma_default_channels_distinct(p: Priority)
    ensures
        default_channels_spec(p).no_duplicates(),
{
}

proof fn lemma_push_distinct(s: Seq<Channel>, x: Channel)
    requires
        s.no_duplicates(),
        !s.contains(x),
    ensures
        s.push(x).no_duplicates(),
{
    assert forall|i: int, j: int| 0 <= i < s.push(x).len() && 0 <= j < s.push(x).len() && i != j
        implies s.push(x)[i] != s.push(x)[j] by {
        if i == s.len() {
            assert(s.contains(s[j]));
        } else if j == s.len() {
            assert(s.contains(s[i]));
        }
    }
}

/// `without_from` keeps only entries of the input, none equal to `x`, and
/// keeps them distinct.
proof fn lemma_without_distinct(s: Seq<Channel>, x: Channel, i: int)
    requires
        s.no_duplicates(),
        0 <= i <= s.len(),
    ensures
        without_from(s, x, i).no_duplicates(),
        forall|c: Channel| #[trigger] without_from(s, x, i).contains(c) ==> c != x && exists|k: int|
            i <= k < s.len() && s[k] == c,
    decreases s.len() - i,
{
    if i < s.len() {
        lemma_without_distinct(s, x, i + 1);
        let t = without_from(s, x, i + 1);
        if s[i] != x {
            let r = seq![s[i]] + t;
            assert(r == without_from(s, x, i));
            assert forall|c: Channel| #[trigger] r.contains(c) implies c != x && exists|k: int|
                i <= k < s.len() && s[k] == c by {
                let m = choose|m: int| 0 <= m < r.len() && r[m] == c;
                if m > 0 {
                    assert(t[m - 1] == c);
                    assert(t.contains(c));
                }
            }
            assert forall|a: int, b: int| 0 <= a < r.len() && 0 <= b < r.len() && a != b implies r[a]
                != r[b] by {
                if a == 0 && b > 0 {
                    assert(t[b - 1] == r[b]);
                    assert(t.contains(r[b]));
                    let k = choose|k: int| i + 1 <= k < s.len() && s[k] == r[b];
                    assert(s[k] != s[i]);
                } else if b == 0 && a > 0 {
                    assert(t[a - 1] == r[a]);
                    assert(t.contains(r[a]));
                    let k = choose|k: int| i + 1 <= k < s.len() && s[k] == r[a];
                    assert(s[k] != s[i]);
                } else if a > 0 && b > 0 {
                    assert(r[a] == t[a - 1]);
                    assert(r[b] == t[b - 1]);
                }
            }
        }
    }
}


proof fn lemma_without_contains(s: Seq<Channel>, x: Channel, i: int, c: Channel)
    requires
        0 <= i <= s.len(),
    ensures
        without_from(s, x, i).contains(c) == (c != x && exists|k: int| i <= k < s.len() && s[k] == c),
    decreases s.len() - i,
{
    if i < s.len() {
        lemma_without_contains(s, x, i + 1, c);
        let t = without_from(s, x, i + 1);
        if s[i] != x {
            let u = seq![s[i]] + t;
            assert(without_from(s, x, i) == u);
            if u.contains(c) {
                let m = choose|m: int| 0 <= m < u.len() && u[m] == c;
                if m > 0 {
                    assert(t[m - 1] == c);
                }
            }
            if c != x && exists|k: int| i <= k < s.len() && s[k] == c {
                let k = choose|k: int| i <= k < s.len() && s[k] == c;
                if k == i {
                    assert(u[0] == c);
                } else {
                    assert(t.contains(c));
                    let m = choose|m: int| 0 <= m < t.len() && t[m] == c;
                    assert(u[m + 1] == c);
                }
            }
        } else {
            if c != x && exists|k: int| i <= k < s.len() && s[k] == c {
                let k = choose|k: int| i <= k < s.len() && s[k] == c;
                assert(k != i);
            }
        }
    }
}

/// Whether the override entry names channel `c` (in any spelling).
pub open spec fn names_channel(e: (String, bool), c: Channel) -> bool {
    channel_of_name(lowercase(e.0@)) == Some(c)
}

proof fn lemma_apply_membership(chs: Seq<Channel>, ovs: Seq<(String, bool)>, i: int, c: Channel, en: bool)
    requires
        0 <= i <= ovs.len(),
        forall|j: int| i <= j < ovs.len() && names_channel(#[trigger] ovs[j], c) ==> ovs[j].1 == en,
    ensures
        (exists|j: int| i <= j < ovs.len() && names_channel(#[trigger] ovs[j], c)) ==> apply_overrides_from(
            chs,
            ovs,
            i,
        ).contains(c) == en,
        !(exists|j: int| i <= j < ovs.len() && names_channel(#[trigger] ovs[j], c)) ==> apply_overrides_from(
            chs,
            ovs,
            i,
        ).contains(c) == chs.contains(c),
    decreases ovs.len() - i,
{
    if i < ovs.len() {
        let next = apply_channel_override(chs, ovs[i].0@, ovs[i].1);
        lemma_apply_membership(next, ovs, i + 1, c, en);
        // What one override does to the membership of `c`.
        match channel_of_name(lowercase(ovs[i].0@)) {
            Some(ch) => {
                if ovs[i].1 {
                    if !chs.contains(ch) {
                        assert(chs.push(ch)[chs.len() as int] == ch);
                        if chs.push(ch).contains(c) && c != ch {
                            let m = choose|m: int| 0 <= m < chs.push(ch).len() && chs.push(ch)[m] == c;
                            assert(chs[m] == c);
                        }
                        if chs.contains(c) {
                            let m = choose|m: int| 0 <= m < chs.len() && chs[m] == c;
                            assert(chs.push(ch)[m] == c);
                        }
                    }
                } else {
                    lemma_without_contains(chs, ch, 0, c);
                }
                assert(next.contains(c) == if ch == c {
                    ovs[i].1
                } else {
                    chs.contains(c)
                });
            },
            None => {},
        }
        if !names_channel(ovs[i], c) {
            if exists|j: int| i <= j < ovs.len() && names_channel(#[trigger] ovs[j], c) {
                let j = choose|j: int| i <= j < ovs.len() && names_channel(#[trigger] ovs[j], c);
                assert(i + 1 <= j);
            }
        } else if !(exists|j: int| i + 1 <= j < ovs.len() && names_channel(#[trigger] ovs[j], c)) {
            assert(names_channel(ovs[i], c));
        }
    }
}

/// Channel overrides decide membership: when the overrides of a priority
/// name a channel (in any spelling) and agree on its flag, the channel is
/// used exactly when the flag is set; when they do not name it, it is used
/// exactly when it is one of the priority's default channels.
pub proof fn lemma_channel_override_membership(pe: PriorityEngine, p: Priority, c: Channel, enabled: bool)
    requires
        lookup(pe.channel_overrides_spec(), priority_name(p)) matches Some(ovs) && forall|j: int|
            0 <= j < ovs@.len() && names_channel(#[trigger] ovs@[j], c) ==> ovs@[j].1 == enabled,
    ensures
        ({
            let ovs = lookup(pe.channel_overrides_spec(), priority_name(p))->0@;
            &&& (exists|j: int| 0 <= j < ovs.len() && names_channel(#[trigger] ovs[j], c))
                ==> pe.channels_spec(p).contains(c) == enabled
            &&& !(exists|j: int| 0 <= j < ovs.len() && names_channel(#[trigger] ovs[j], c))
                ==> pe.channels_spec(p).contains(c) == default_channels_spec(p).contains(c)
        }),
{
    let ovs = lookup(pe.channel_overrides_spec(), priority_name(p))->0@;
    lemma_apply_membership(default_channels_spec(p), ovs, 0, c, enabled);
}

} // verus!
