use std::sync::atomic::{AtomicBool, Ordering};
use std::sync::Arc;

use hook_notify::dispatch::{sound_file_for_title, DispatchReport, Dispatcher, NotifyRouter};

struct FakeDispatcher {
    should_fail: bool,
    was_called: Arc<AtomicBool>,
}

impl FakeDispatcher {
    fn new(should_fail: bool) -> Self {
        Self { should_fail, was_called: Arc::new(AtomicBool::new(false)) }
    }
}

impl Dispatcher for FakeDispatcher {
    fn dispatch(&self, _title: &str, _body: &str) -> Result<(), String> {
        self.was_called.store(true, Ordering::SeqCst);
        if self.should_fail {
            Err("intentional failure".to_string())
        } else {
            Ok(())
        }
    }
}

#[test]
fn router_dispatches_to_all_channels() {
    let router = NotifyRouter::new();
    let d1 = FakeDispatcher::new(false);
    let d2 = FakeDispatcher::new(false);
    let dispatchers: &[&dyn Dispatcher] = &[&d1, &d2];

    let report = router.dispatch_to(dispatchers, "Test Title", "Test body");

    assert_eq!(report.successes, 2);
    assert_eq!(report.failures, 0);
    assert!(report.errors.is_empty());
    assert!(d1.was_called.load(Ordering::SeqCst));
    assert!(d2.was_called.load(Ordering::SeqCst));
}

#[test]
fn router_continues_on_failure() {
    let router = NotifyRouter::new();
    let d1 = FakeDispatcher::new(true);
    let d2 = FakeDispatcher::new(false);
    let dispatchers: &[&dyn Dispatcher] = &[&d1, &d2];

    let report = router.dispatch_to(dispatchers, "Test Title", "Test body");

    assert_eq!(report.successes, 1);
    assert_eq!(report.failures, 1);
    assert_eq!(report.errors.len(), 1);
    assert!(d1.was_called.load(Ordering::SeqCst));
    assert!(d2.was_called.load(Ordering::SeqCst));
}

#[test]
fn tally_counts_and_keeps_error_order() {
    let outcomes = vec![Err("a".to_string()), Ok(()), Err("b".to_string()), Ok(())];
    let r = DispatchReport::tally(&outcomes);
    assert_eq!(r.successes, 2);
    assert_eq!(r.failures, 2);
    assert_eq!(r.errors, vec!["a".to_string(), "b".to_string()]);
    let empty = DispatchReport::tally(&Vec::new());
    assert_eq!(empty.successes + empty.failures, 0);
}

#[test]
fn sound_for_each_kind_of_title() {
    assert_eq!(sound_file_for_title("\u{274c} API Error"), "error.mp3");
    assert_eq!(sound_file_for_title("Build FAILED"), "error.mp3");
    assert_eq!(sound_file_for_title("Review Complete"), "review-complete.mp3");
    assert_eq!(sound_file_for_title("A Question"), "question.mp3");
    assert_eq!(sound_file_for_title("Ready?"), "question.mp3");
    assert_eq!(sound_file_for_title("Plan Ready"), "plan-ready.mp3");
    assert_eq!(sound_file_for_title("Task Complete"), "task-complete.mp3");
}
