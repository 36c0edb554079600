//! Pattern detection over the recent history of events: a task's
//! lifecycle, a recovery from an error, and steady successful progress.
//! The detector of performance degradation, which reads metric values, is
//! run by the caller on its own record of the metrics.

use vstd::prelude::*;
use crate::monitor::aggregator::{CollectedEvent, any_signal, signal_has};
use crate::monitor::narrator::PatternType;
use crate::text::{decimal_chars, append_decimal, str_equal};

verus! {

/// A detected pattern; its confidence is in percent.
#[derive(Debug, Clone)]
pub struct DetectedPattern {
    pub pattern_type: PatternType,
    pub confidence_percent: u32,
    pub description: String,
    pub events: Vec<String>,
}

/// The last `k` events of `h` (all of them when there are fewer).
pub open spec fn recent(h: Seq<CollectedEvent>, k: int) -> Seq<CollectedEvent> {
    if h.len() <= k {
        h
    } else {
        h.subrange(h.len() - k, h.len() as int)
    }
}

/// Whether the history shows a task's lifecycle: at least two events, and
/// a start and a stop signal among the last ten.
pub open spec fn lifecycle_seen(h: Seq<CollectedEvent>) -> bool {
    h.len() >= 2 && any_signal(recent(h, 10), "Start"@) && any_signal(recent(h, 10), "Stop"@)
}

/// Scanning signals from position `i`: whether a failure has been seen, and
/// whether a success has been seen after a failure (a signal containing
/// `Fail` counts as a failure even if it also contains `Success`).
pub open spec fn recovery_scan(es: Seq<CollectedEvent>, i: int, failed: bool, recovered: bool) -> (bool, bool)
    decreases es.len() - i,
{
    if i < 0 || i >= es.len() {
        (failed, recovered)
    } else if signal_has(es[i], "Fail"@) {
        recovery_scan(es, i + 1, true, recovered)
    } else if failed && signal_has(es[i], "Success"@) {
        recovery_scan(es, i + 1, failed, true)
    } else {
        recovery_scan(es, i + 1, failed, recovered)
    }
}

/// Whether the last five events show a failure followed by a success.
pub open spec fn recovery_seen(h: Seq<CollectedEvent>) -> bool {
    let r = recovery_scan(recent(h, 5), 0, false, false);
    r.0 && r.1
}

/// The event at `k` is a signal containing `Fail`.
pub open spec fn fail_at(es: Seq<CollectedEvent>, k: int) -> bool {
    signal_has(es[k], "Fail"@)
}

/// The event at `k` is a signal containing `Success` and not `Fail`.
pub open spec fn success_at(es: Seq<CollectedEvent>, k: int) -> bool {
    signal_has(es[k], "Success"@) && !signal_has(es[k], "Fail"@)
}

/// Some failure signal in `es` is followed, at a later position, by a
/// success signal.
pub open spec fn fail_then_success(es: Seq<CollectedEvent>) -> bool {
    exists|a: int, b: int| 0 <= a < b < es.len() && #[trigger] fail_at(es, a) && #[trigger] success_at(es, b)
}

/// A failure signal among positions `lo` to `hi` (excluded).
spec fn fail_between(es: Seq<CollectedEvent>, lo: int, hi: int) -> bool {
    exists|k: int| lo <= k < hi && #[trigger] fail_at(es, k)
}

/// A success signal from position `i` on that follows a failure, counting
/// an earlier failure when `failed`.
spec fn success_after(es: Seq<CollectedEvent>, i: int, failed: bool) -> bool {
    exists|b: int| i <= b < es.len() && #[trigger] success_at(es, b) && (failed || fail_between(es, i, b))
}

proof fn lemma_recovery_scan(es: Seq<CollectedEvent>, i: int, failed: bool, recovered: bool)
    requires
        0 <= i <= es.len(),
    ensures
        recovery_scan(es, i, failed, recovered) == (failed || fail_between(es, i, es.len() as int), recovered
            || success_after(es, i, failed)),
    decreases es.len() - i,
{
    if i < es.len() {
        if fail_at(es, i) {
            lemma_recovery_scan(es, i + 1, true, recovered);
            assert(fail_between(es, i, es.len() as int));
            assert(success_after(es, i + 1, true) == success_after(es, i, failed)) by {
                if success_after(es, i + 1, true) {
                    let b = choose|b: int| i + 1 <= b < es.len() && #[trigger] success_at(es, b) && (true || fail_between(es, i + 1, b));
                    assert(fail_between(es, i, b));
                }
                if success_after(es, i, failed) {
                    let b = choose|b: int| i <= b < es.len() && #[trigger] success_at(es, b) && (failed || fail_between(es, i, b));
                    assert(b != i);
                }
            }
        } else if failed && signal_has(es[i], "Success"@) {
            lemma_recovery_scan(es, i + 1, failed, true);
            assert(success_at(es, i));
            assert(success_after(es, i, failed));
        } else {
            lemma_recovery_scan(es, i + 1, failed, recovered);
            assert(fail_between(es, i + 1, es.len() as int) == fail_between(es, i, es.len() as int)) by {
                if fail_between(es, i, es.len() as int) {
                    let k = choose|k: int| i <= k < es.len() && #[trigger] fail_at(es, k);
                    assert(k != i);
                }
            }
            assert(success_after(es, i + 1, failed) == success_after(es, i, failed)) by {
                if success_after(es, i + 1, failed) {
                    let b = choose|b: int| i + 1 <= b < es.len() && #[trigger] success_at(es, b) && (failed || fail_between(es, i + 1, b));
                    if !failed {
                        let k = choose|k: int| i + 1 <= k < b && #[trigger] fail_at(es, k);
                        assert(fail_between(es, i, b));
                    }
                }
                if success_after(es, i, failed) {
                    let b = choose|b: int| i <= b < es.len() && #[trigger] success_at(es, b) && (failed || fail_between(es, i, b));
                    if b == i {
                        if !failed {
                            let k = choose|k: int| i <= k < b && #[trigger] fail_at(es, k);
                        }
                    } else if !failed {
                        let k = choose|k: int| i <= k < b && #[trigger] fail_at(es, k);
                        assert(k != i);
                        assert(fail_between(es, i + 1, b));
                    }
                }
            }
        }
    }
}

/// An error recovery is a failure followed by a success: the last five
/// events show one exactly when some signal containing `Fail` among them
/// comes before some signal containing `Success` (and not `Fail`). So a
/// success before the only failure, or a failure as the last event with no
/// earlier one, is no recovery; and a recovery is reported only for such a
/// history.
pub proof fn recovery_is_failure_then_success(h: Seq<CollectedEvent>)
    ensures
        recovery_seen(h) <==> fail_then_success(recent(h, 5)),
        detected(h) is Some && detected(h)->0.pattern_type == PatternType::ErrorRecovery ==> fail_then_success(
            recent(h, 5),
        ),
{
    lemma_scan_is_failure_then_success(recent(h, 5));
}

proof fn lemma_scan_is_failure_then_success(es: Seq<CollectedEvent>)
    ensures
        ({
            let s = recovery_scan(es, 0, false, false);
            s.0 && s.1
        }) <==> fail_then_success(es),
{
    lemma_recovery_scan(es, 0, false, false);
    if fail_then_success(es) {
        let (a, b) = choose|a: int, b: int| 0 <= a < b < es.len() && #[trigger] fail_at(es, a) && #[trigger] success_at(es, b);
        assert(fail_between(es, 0, b));
        assert(success_after(es, 0, false));
        assert(fail_between(es, 0, es.len() as int));
    }
    if success_after(es, 0, false) {
        let b = choose|b: int| 0 <= b < es.len() && #[trigger] success_at(es, b) && (false || fail_between(es, 0, b));
        let a = choose|k: int| 0 <= k < b && #[trigger] fail_at(es, k);
        assert(fail_then_success(es));
    }
}

/// Whether an event is an observation whose outcome is `Success`.
pub open spec fn is_success(e: CollectedEvent) -> bool {
    e matches CollectedEvent::ServentisObservation { outcome, .. } && outcome@ == "Success"@
}

/// The number of successful observations in `es`.
pub open spec fn success_count(es: Seq<CollectedEvent>) -> nat
    decreases es.len(),
{
    if es.len() == 0 {
        0
    } else {
        success_count(es.drop_last()) + if is_success(es.last()) { 1nat } else { 0nat }
    }
}

/// What a detected pattern is, without its texts' owners.
pub struct PatternView {
    pub pattern_type: PatternType,
    pub confidence_percent: u32,
    pub description: Seq<char>,
    pub events: Seq<Seq<char>>,
}

impl View for DetectedPattern {
    type V = PatternView;

    open spec fn view(&self) -> PatternView {
        PatternView {
            pattern_type: self.pattern_type,
            confidence_percent: self.confidence_percent,
            description: self.description@,
            events: self.events@.map_values(|s: String| s@),
        }
    }
}

/// The pattern the detectors find in a history, tried in order: lifecycle,
/// recovery, progression (more than ten successes among the last twenty
/// events).
pub open spec fn detected(h: Seq<CollectedEvent>) -> Option<PatternView> {
    if lifecycle_seen(h) {
        Some(PatternView {
            pattern_type: PatternType::TaskLifecycle,
            confidence_percent: 90,
            description: "Task completed its lifecycle"@,
            events: seq!["start"@, "stop"@],
        })
    } else if recovery_seen(h) {
        Some(PatternView {
            pattern_type: PatternType::ErrorRecovery,
            confidence_percent: 85,
            description: "System recovered from error"@,
            events: seq!["error"@, "recovery"@],
        })
    } else if success_count(recent(h, 20)) > 10 {
        Some(PatternView {
            pattern_type: PatternType::NormalProgression,
            confidence_percent: 95,
            description: "Consistent successful operations"@,
            events: seq![decimal_chars(success_count(recent(h, 20))) + " successes"@],
        })
    } else {
        None
    }
}

/// The last `k` events of `h`.
fn recent_events(h: &Vec<CollectedEvent>, k: usize) -> (r: Vec<CollectedEvent>)
    ensures
        r@ == recent(h@, k as int),
{
    let n = h.len();
    let from = if n <= k { 0 } else { n - k };
    let mut r: Vec<CollectedEvent> = Vec::new();
    let mut i: usize = from;
    while i < n
        invariant
            n == h@.len(),
            from <= i <= n,
            from == (if n <= k { 0 } else { n - k }),
            r@ == h@.subrange(from as int, i as int),
        decreases n - i,
    {
        r.push(h[i].copied());
        i = i + 1;
        assert(r@ =~= h@.subrange(from as int, i as int));
    }
    assert(n <= k ==> h@.subrange(0, n as int) =~= h@);
    r
}

/// Whether some event of `es` is a signal containing `p`.
fn has_signal(es: &Vec<CollectedEvent>, p: &str) -> (r: bool)
    ensures
        r == any_signal(es@, p@),
{
    let n = es.len();
    let mut i: usize = 0;
    while i < n
        invariant
            n == es@.len(),
            i <= n,
            forall|j: int| 0 <= j < i ==> !#[trigger] signal_has(es@[j], p@),
        decreases n - i,
    {
        if es[i].signal_contains(p) {
            return true;
        }
        i = i + 1;
    }
    false
}

/// Whether the events show a failure followed by a success.
fn scan_recovery(es: &Vec<CollectedEvent>) -> (r: bool)
    ensures
        r == ({
            let s = recovery_scan(es@, 0, false, false);
            s.0 && s.1
        }),
        r == fail_then_success(es@),
{
    proof {
        lemma_scan_is_failure_then_success(es@);
    }
    let n = es.len();
    let mut failed = false;
    let mut recovered = false;
    let mut i: usize = 0;
    while i < n
        invariant
            n == es@.len(),
            i <= n,
            recovery_scan(es@, 0, false, false) == recovery_scan(es@, i as int, failed, recovered),
        decreases n - i,
    {
        if es[i].signal_contains("Fail") {
            failed = true;
        } else if failed && es[i].signal_contains("Success") {
            recovered = true;
        }
        i = i + 1;
    }
    failed && recovered
}

/// The number of successful observations.
fn count_successes(es: &Vec<CollectedEvent>) -> (r: usize)
    ensures
        r == success_count(es@),
{
    let n = es.len();
    let mut count: usize = 0;
    let mut i: usize = 0;
    while i < n
        invariant
            n == es@.len(),
            i <= n,
            count == success_count(es@.take(i as int)),
            count <= i,
        decreases n - i,
    {
        proof {
            assert(es@.take(i + 1).drop_last() =~= es@.take(i as int));
        }
        let hit = match &es[i] {
            CollectedEvent::ServentisObservation { outcome, .. } => str_equal(outcome.as_str(), "Success"),
            _ => false,
        };
        if hit {
            count = count + 1;
        }
        i = i + 1;
    }
    assert(es@.take(n as int) =~= es@);
    count
}

/// Pattern detector for identifying meaningful event sequences.
pub struct PatternDetector {
    history: Vec<CollectedEvent>,
    max_history: usize,
}

impl PatternDetector {
    pub closed spec fn history_spec(&self) -> Seq<CollectedEvent> {
        self.history@
    }

    pub closed spec fn limit(&self) -> usize {
        self.max_history
    }

    /// A detector with no history, keeping at most 1000 events.
    pub fn new() -> (r: Self)
        ensures
            r.history_spec().len() == 0,
            r.limit() == 1000,
    {
        PatternDetector { history: Vec::new(), max_history: 1000 }
    }

    /// The history, oldest first.
    pub fn history(&self) -> (r: &Vec<CollectedEvent>)
        ensures
            r@ == self.history_spec(),
    {
        &self.history
    }

    /// Adds `event` to the history (dropping the oldest event when the
    /// history outgrows its limit) and reports the first pattern the
    /// detectors find in it.
    pub fn process_event(&mut self, event: CollectedEvent) -> (r: Option<DetectedPattern>)
        ensures
            final(self).limit() == old(self).limit(),
            final(self).history_spec() == (if old(self).history_spec().len() + 1 > old(self).limit() {
                old(self).history_spec().push(event).drop_first()
            } else {
                old(self).history_spec().push(event)
            }),
            match detected(final(self).history_spec()) {
                Some(p) => r matches Some(d) && d@ == p,
                None => r is None,
            },
            r is Some && r->0.pattern_type == PatternType::ErrorRecovery ==> fail_then_success(
                recent(final(self).history_spec(), 5),
            ),
    {
        self.history.push(event);
        if self.history.len() > self.max_history {
            self.history.remove(0);
            assert(self.history@ =~= old(self).history_spec().push(event).drop_first());
        }
        proof {
            recovery_is_failure_then_success(self.history_spec());
        }
        let h = &self.history;
        let last10 = recent_events(h, 10);
        if h.len() >= 2 && has_signal(&last10, "Start") && has_signal(&last10, "Stop") {
            let mut events = Vec::new();
            events.push(String::from_str("start"));
            events.push(String::from_str("stop"));
            let d = DetectedPattern {
                pattern_type: PatternType::TaskLifecycle,
                confidence_percent: 90,
                description: String::from_str("Task completed its lifecycle"),
                events,
            };
            assert(d@.events =~= seq!["start"@, "stop"@]);
            return Some(d);
        }
        let last5 = recent_events(h, 5);
        if scan_recovery(&last5) {
            let mut events = Vec::new();
            events.push(String::from_str("error"));
            events.push(String::from_str("recovery"));
            let d = DetectedPattern {
                pattern_type: PatternType::ErrorRecovery,
                confidence_percent: 85,
                description: String::from_str("System recovered from error"),
                events,
            };
            assert(d@.events =~= seq!["error"@, "recovery"@]);
            return Some(d);
        }
        let last20 = recent_events(h, 20);
        let successes = count_successes(&last20);
        if successes > 10 {
            let mut text = String::new();
            append_decimal(&mut text, successes);
            text.append(" successes");
            let ghost tv = text@;
            let mut events = Vec::new();
            events.push(text);
            let d = DetectedPattern {
                pattern_type: PatternType::NormalProgression,
                confidence_percent: 95,
                description: String::from_str("Consistent successful operations"),
                events,
            };
            assert(d@.events =~= seq![tv]);
            return Some(d);
        }
        None
    }
}

} // verus!
