//! Sending one notification over several channels and tallying what each
//! channel answered.
use vstd::prelude::*;

use crate::platform::DesktopNotifier;
use crate::text::{contains_seq, lowercase, chars_of, contains_chars, has_char, to_lowercase};

verus! {

/// A channel that can deliver a notification.
pub trait Dispatcher {
    /// Delivers a notification; an error says why it could not.
    fn dispatch(&self, title: &str, body: &str) -> Result<(), String>;
}

/// What a round of deliveries came to.
#[derive(Debug, Clone)]
pub struct DispatchReport {
    pub successes: usize,
    pub failures: usize,
    /// The errors of the failed deliveries, in the order of the channels.
    pub errors: Vec<String>,
}

/// An outcome with its error as characters.
pub open spec fn outcome_view(x: Result<(), String>) -> Result<(), Seq<char>> {
    match x {
        Ok(_) => Ok(()),
        Err(e) => Err(e@),
    }
}

/// Outcomes with their errors as characters.
pub open spec fn outcomes_view(o: Seq<Result<(), String>>) -> Seq<Result<(), Seq<char>>> {
    o.map_values(|x: Result<(), String>| outcome_view(x))
}

/// How many of the outcomes are successes.
pub open spec fn success_count(o: Seq<Result<(), Seq<char>>>) -> nat
    decreases o.len(),
{
    if o.len() == 0 {
        0
    } else {
        success_count(o.drop_last()) + if o.last() is Ok {
            1nat
        } else {
            0nat
        }
    }
}

/// The errors among the outcomes, in order.
pub open spec fn error_texts(o: Seq<Result<(), Seq<char>>>) -> Seq<Seq<char>>
    decreases o.len(),
{
    if o.len() == 0 {
        Seq::empty()
    } else {
        match o.last() {
            Ok(_) => error_texts(o.drop_last()),
            Err(e) => error_texts(o.drop_last()).push(e),
        }
    }
}

/// The report tallies exactly the given outcomes.
pub open spec fn reports(r: DispatchReport, o: Seq<Result<(), Seq<char>>>) -> bool {
    &&& r.successes == success_count(o)
    &&& r.failures == error_texts(o).len()
    &&& r.errors@.map_values(|e: String| e@) == error_texts(o)
}

proof fn lemma_tally_bounds(o: Seq<Result<(), Seq<char>>>)
    ensures
        success_count(o) + error_texts(o).len() == o.len(),
    decreases o.len(),
{
    if o.len() > 0 {
        lemma_tally_bounds(o.drop_last());
    }
}

impl DispatchReport {
    /// An empty report.
    pub fn empty() -> (r: DispatchReport)
        ensures
            reports(r, Seq::empty()),
    {
        let r = DispatchReport { successes: 0, failures: 0, errors: Vec::new() };
        assert(r.errors@.map_values(|e: String| e@) =~= Seq::<Seq<char>>::empty());
        r
    }

    /// Adds one outcome to the report.
    pub fn record(&mut self, outcome: Result<(), String>)
        requires
            old(self).successes + old(self).failures < usize::MAX,
        ensures
            forall|o: Seq<Result<(), Seq<char>>>|
                reports(*old(self), o) ==> reports(*final(self), o.push(outcome_view(outcome))),
            final(self).successes + final(self).failures == old(self).successes + old(
                self,
            ).failures + 1,
    {
        let ghost before = self.errors@;
        match outcome {
            Ok(()) => {
                self.successes = self.successes + 1;
                assert forall|o: Seq<Result<(), Seq<char>>>| reports(*old(self), o) implies reports(
                    *self,
                    o.push(Ok(())),
                ) by {
                    assert(o.push(Ok(())).drop_last() =~= o);
                }
            },
            Err(e) => {
                let ghost ev = e@;
                self.failures = self.failures + 1;
                self.errors.push(e);
                assert forall|o: Seq<Result<(), Seq<char>>>| reports(*old(self), o) implies reports(
                    *self,
                    o.push(Err(ev)),
                ) by {
                    assert(o.push(Err(ev)).drop_last() =~= o);
                    assert(self.errors@.map_values(|e: String| e@) =~= before.map_values(
                        |e: String| e@,
                    ).push(ev));
                }
            },
        }
    }

    /// The report of a round with the given outcomes, one per channel.
    pub fn tally(outcomes: &Vec<Result<(), String>>) -> (r: DispatchReport)
        ensures
            reports(r, outcomes_view(outcomes@)),
            r.successes + r.failures == outcomes.len(),
    {
        let mut r = DispatchReport::empty();
        let mut i: usize = 0;
        while i < outcomes.len()
            invariant
                i <= outcomes.len(),
                reports(r, outcomes_view(outcomes@.take(i as int))),
                r.successes + r.failures == i,
            decreases outcomes.len() - i,
        {
            let o = match &outcomes[i] {
                Ok(()) => Ok(()),
                Err(e) => Err(e.clone()),
            };
            proof {
                assert(outcomes_view(outcomes@.take(i as int + 1)) =~= outcomes_view(
                    outcomes@.take(i as int),
                ).push(outcome_view(o)));
            }
            r.record(o);
            i = i + 1;
        }
        assert(outcomes@.take(outcomes.len() as int) =~= outcomes@);
        r
    }
}

/// Sends a notification to several channels, one after the other.
pub struct NotifyRouter;

impl NotifyRouter {
    pub fn new() -> (r: NotifyRouter) {
        NotifyRouter
    }

    /// Delivers the notification to every channel in order, going on after
    /// a failure, and tallies the outcomes. What each channel answers is up
    /// to the channel; the report is the tally of those answers, one per
    /// channel.
    pub fn dispatch_to(&self, dispatchers: &[&dyn Dispatcher], title: &str, body: &str) -> (r:
        DispatchReport)
        ensures
            exists|o: Seq<Result<(), Seq<char>>>| o.len() == dispatchers@.len() && reports(r, o),
            r.successes + r.failures == dispatchers@.len(),
    {
        let mut r = DispatchReport::empty();
        let ghost mut outcomes: Seq<Result<(), Seq<char>>> = Seq::empty();
        let mut i: usize = 0;
        while i < dispatchers.len()
            invariant
                i <= dispatchers@.len(),
                outcomes.len() == i,
                reports(r, outcomes),
                r.successes + r.failures == i,
            decreases dispatchers@.len() - i,
        {
            let d = dispatchers[i];
            let o = d.dispatch(title, body);
            proof {
                outcomes = outcomes.push(outcome_view(o));
            }
            r.record(o);
            i = i + 1;
        }
        r
    }
}

impl Default for NotifyRouter {
    fn default() -> (r: NotifyRouter) {
        NotifyRouter::new()
    }
}

// ─── Desktop ─────────────────────────────────────────────────────────────────

/// Delivers notifications as desktop banners.
pub struct DesktopDispatcher {
    notifier: Box<dyn DesktopNotifier>,
    icon: Option<String>,
    timeout_ms: Option<u32>,
}

/// A timeout in milliseconds as the whole seconds that a notifier takes.
pub open spec fn timeout_secs_spec(ms: Option<u32>) -> Option<u64> {
    match ms {
        Some(m) => Some((m / 1000) as u64),
        None => None,
    }
}

impl DesktopDispatcher {
    pub fn new(notifier: Box<dyn DesktopNotifier>, icon: Option<String>, timeout_ms: Option<u32>) -> (r:
        DesktopDispatcher)
        ensures
            r.icon() == icon,
            r.timeout_ms() == timeout_ms,
    {
        DesktopDispatcher { notifier, icon, timeout_ms }
    }

    /// The icon path handed to the notifier.
    pub closed spec fn icon(&self) -> Option<String> {
        self.icon
    }

    /// The timeout, in milliseconds.
    pub closed spec fn timeout_ms(&self) -> Option<u32> {
        self.timeout_ms
    }

    /// The timeout in whole seconds, as the notifier receives it.
    pub fn timeout_secs(&self) -> (r: Option<u64>)
        ensures
            r == timeout_secs_spec(self.timeout_ms()),
    {
        match self.timeout_ms {
            Some(ms) => Some((ms / 1000) as u64),
            None => None,
        }
    }
}

impl Dispatcher for DesktopDispatcher {
    /// Shows the notification with the icon and the timeout in whole
    /// seconds, without a subtitle.
    fn dispatch(&self, title: &str, body: &str) -> (r: Result<(), String>) {
        let icon = match &self.icon {
            Some(p) => Some(p.as_str()),
            None => None,
        };
        let timeout = self.timeout_secs();
        self.notifier.send(title, body, None, icon, timeout)
    }
}

// ─── Terminal bell and sound ─────────────────────────────────────────────────

/// Rings the terminal bell.
pub struct TerminalBellDispatcher;

impl TerminalBellDispatcher {
    pub fn new() -> (r: TerminalBellDispatcher) {
        TerminalBellDispatcher
    }
}

impl Default for TerminalBellDispatcher {
    fn default() -> (r: TerminalBellDispatcher) {
        TerminalBellDispatcher::new()
    }
}

/// The sound file that goes with a notification title: errors and
/// failures, then reviews, then questions, then plans, else a completed
/// task (case ignored).
pub open spec fn sound_file_spec(title: Seq<char>) -> Seq<char> {
    let l = lowercase(title);
    if contains_seq(l, "error"@) || contains_seq(l, "fail"@) {
        "error.mp3"@
    } else if contains_seq(l, "review"@) {
        "review-complete.mp3"@
    } else if contains_seq(l, "question"@) || l.contains('?') {
        "question.mp3"@
    } else if contains_seq(l, "plan"@) {
        "plan-ready.mp3"@
    } else {
        "task-complete.mp3"@
    }
}

/// The sound file that goes with a notification title.
pub fn sound_file_for_title(title: &str) -> (r: &'static str)
    ensures
        r@ == sound_file_spec(title@),
{
    let l = to_lowercase(title);
    let v = chars_of(l.as_str());
    if contains_chars(&v, &chars_of("error")) || contains_chars(&v, &chars_of("fail")) {
        "error.mp3"
    } else if contains_chars(&v, &chars_of("review")) {
        "review-complete.mp3"
    } else if contains_chars(&v, &chars_of("question")) || has_char(&v, '?') {
        "question.mp3"
    } else if contains_chars(&v, &chars_of("plan")) {
        "plan-ready.mp3"
    } else {
        "task-complete.mp3"
    }
}

} // verus!
