//! Event correlation: events are grouped by intent, then by one-second time
//! windows; each window becomes a correlated event with its events split by
//! framework, the pattern the detectors find in it and a summary. Times are
//! milliseconds since the Unix epoch.

use vstd::prelude::*;
use crate::monitor::narrator::EventPattern;
use crate::text::{contains_text, text_contains, decimal_chars, append_decimal};
use crate::assoc::{assoc_get, lemma_assoc_skip, lemma_assoc_update, lemma_assoc_push};
use crate::platform::{parse_uuid, uuid_error_text, uuid_text_value};

verus! {

/// Time window for event correlation (in milliseconds).
pub const CORRELATION_WINDOW_MS: i64 = 1000;

/// Monitor-specific error types.
#[derive(Debug)]
pub enum MonitorError {
    CollectionError(String),
    AggregationError(String),
    NarrationError(String),
    ServerError(String),
    SubstratesError(String),
    Other(String),
}

/// An observed event, as much of it as correlation reads.
#[derive(Debug, Clone)]
pub enum CollectedEvent {
    /// Event from Substrates; `anomaly` says whether its data carries an
    /// `anomaly` entry.
    SubstratesEvent { intent_id: u128, event_type: String, timestamp: i64, anomaly: bool },
    /// Metric from Substrates
    SubstratesMetric { intent_id: u128, metric_type: String, timestamp: i64 },
    /// Signal from a Serventis service
    ServentisSignal { service_id: String, signal: String, timestamp: i64 },
    /// Observation from a Serventis probe
    ServentisObservation { probe_id: String, operation: String, origin: String, outcome: String, timestamp: i64 },
    /// Status from a Serventis monitor
    ServentisStatus { monitor_id: String, condition: String, confidence: String, timestamp: i64 },
}

/// When an event happened.
pub open spec fn timestamp_of(e: CollectedEvent) -> i64 {
    match e {
        CollectedEvent::SubstratesEvent { timestamp, .. } => timestamp,
        CollectedEvent::SubstratesMetric { timestamp, .. } => timestamp,
        CollectedEvent::ServentisSignal { timestamp, .. } => timestamp,
        CollectedEvent::ServentisObservation { timestamp, .. } => timestamp,
        CollectedEvent::ServentisStatus { timestamp, .. } => timestamp,
    }
}

/// Whether an event comes from Substrates (the others come from Serventis).
pub open spec fn from_substrates(e: CollectedEvent) -> bool {
    e is SubstratesEvent || e is SubstratesMetric
}

/// Whether an event is a signal whose text contains `p`.
pub open spec fn signal_has(e: CollectedEvent, p: Seq<char>) -> bool {
    match e {
        CollectedEvent::ServentisSignal { signal, .. } => contains_text(signal@, p),
        _ => false,
    }
}

/// Whether an event is a Substrates event whose data carries an anomaly.
pub open spec fn has_anomaly(e: CollectedEvent) -> bool {
    e matches CollectedEvent::SubstratesEvent { anomaly, .. } && anomaly
}

/// Whether some event of `es` is a signal containing `p`.
pub open spec fn any_signal(es: Seq<CollectedEvent>, p: Seq<char>) -> bool {
    exists|i: int| 0 <= i < es.len() && #[trigger] signal_has(es[i], p)
}

/// The position of the first signal containing `p`, from `i` on.
pub open spec fn first_signal(es: Seq<CollectedEvent>, p: Seq<char>, i: int) -> Option<int>
    decreases es.len() - i,
{
    if i < 0 || i >= es.len() {
        None
    } else if signal_has(es[i], p) {
        Some(i)
    } else {
        first_signal(es, p, i + 1)
    }
}

/// The pattern the detectors find, tried in order: a normal execution (a
/// start, a success and a stop signal), a failure signal, a retry (a
/// success at or after the first retry makes it a success after retry,
/// else a repeated failure), an anomaly in Substrates data.
pub open spec fn detected_pattern(substrates: Seq<CollectedEvent>, serventis: Seq<CollectedEvent>) -> Option<EventPattern> {
    if any_signal(serventis, "Start"@) && any_signal(serventis, "Success"@) && any_signal(serventis, "Stop"@) {
        Some(EventPattern::NormalExecution)
    } else if any_signal(serventis, "Fail"@) {
        Some(EventPattern::FailedExecution)
    } else if any_signal(serventis, "Retry"@) {
        match first_signal(serventis, "Retry"@, 0) {
            Some(idx) => if any_signal(serventis.subrange(idx, serventis.len() as int), "Success"@) {
                Some(EventPattern::RetrySuccess)
            } else {
                Some(EventPattern::RepeatedFailure)
            },
            None => None,
        }
    } else if exists|i: int| 0 <= i < substrates.len() && #[trigger] has_anomaly(substrates[i]) {
        Some(EventPattern::AnomalousBehavior)
    } else {
        None
    }
}

/// The summary of a window by its pattern and its number of events.
pub open spec fn summary_text(pattern: Option<EventPattern>, count: nat) -> Seq<char> {
    match pattern {
        Some(EventPattern::NormalExecution) => "Task completed successfully ("@ + decimal_chars(count) + " events)"@,
        Some(EventPattern::FailedExecution) => "Task failed during execution"@,
        Some(EventPattern::RetrySuccess) => "Task succeeded after retry"@,
        Some(EventPattern::RepeatedFailure) => "Task failed multiple times"@,
        Some(EventPattern::ResourceContention) => "High resource contention detected"@,
        Some(EventPattern::AnomalousBehavior) => "Anomalous behavior detected - review required"@,
        Some(EventPattern::PerformanceDegradation) => "Performance degradation observed"@,
        None => decimal_chars(count) + " events in correlation window"@,
    }
}

/// The events of `es` that satisfy `from_substrates` (or not), in order.
pub open spec fn split_events(es: Seq<CollectedEvent>, substrates: bool) -> Seq<CollectedEvent>
    decreases es.len(),
{
    if es.len() == 0 {
        Seq::empty()
    } else {
        let rest = split_events(es.drop_last(), substrates);
        if from_substrates(es.last()) == substrates {
            rest.push(es.last())
        } else {
            rest
        }
    }
}

proof fn lemma_first_signal(es: Seq<CollectedEvent>, p: Seq<char>, i: int)
    requires
        0 <= i,
    ensures
        first_signal(es, p, i) matches Some(j) ==> i <= j < es.len() && signal_has(es[j], p),
        first_signal(es, p, i) is None ==> forall|j: int| i <= j < es.len() ==> !#[trigger] signal_has(es[j], p),
    decreases es.len() - i,
{
    if i < es.len() {
        lemma_first_signal(es, p, i + 1);
    }
}

proof fn lemma_first_window(ws: Seq<(i64, Seq<CollectedEvent>)>, t: i64, i: int)
    requires
        0 <= i,
    ensures
        first_window(ws, t, i) matches Some(j) ==> i <= j < ws.len() && in_window(ws[j].0, t),
    decreases ws.len() - i,
{
    if i < ws.len() {
        lemma_first_window(ws, t, i + 1);
    }
}

/// A window: its start and the events in it; it ends one correlation
/// window after its start.
pub open spec fn in_window(start: i64, t: i64) -> bool {
    start <= t && t <= start + CORRELATION_WINDOW_MS
}

/// The position of the first window holding time `t`, from `i` on.
pub open spec fn first_window(ws: Seq<(i64, Seq<CollectedEvent>)>, t: i64, i: int) -> Option<int>
    decreases ws.len() - i,
{
    if i < 0 || i >= ws.len() {
        None
    } else if in_window(ws[i].0, t) {
        Some(i)
    } else {
        first_window(ws, t, i + 1)
    }
}

/// The windows of the first `n` events: each event joins the first window
/// that holds its time, or opens a window at its time.
pub open spec fn windows_of(es: Seq<CollectedEvent>, n: int) -> Seq<(i64, Seq<CollectedEvent>)>
    decreases n,
{
    if n <= 0 {
        Seq::empty()
    } else {
        let ws = windows_of(es, n - 1);
        let e = es[n - 1];
        match first_window(ws, timestamp_of(e), 0) {
            Some(i) => ws.update(i, (ws[i].0, ws[i].1.push(e))),
            None => ws.push((timestamp_of(e), seq![e])),
        }
    }
}

/// Time window for event grouping.
#[derive(Debug, Clone, Copy, PartialEq, Eq, Structural)]
pub struct TimeWindow {
    pub start: i64,
    pub end: i64,
}

impl TimeWindow {
    /// The window from `start` lasting `duration_ms`.
    pub fn new(start: i64, duration_ms: i64) -> (r: Self)
        requires
            start + duration_ms <= i64::MAX,
            start + duration_ms >= i64::MIN,
        ensures
            r.start == start,
            r.end == start + duration_ms,
    {
        TimeWindow { start, end: start + duration_ms }
    }

    /// Whether the window holds `timestamp` (both ends included).
    pub fn contains(&self, timestamp: i64) -> (r: bool)
        ensures
            r == (self.start <= timestamp && timestamp <= self.end),
    {
        timestamp >= self.start && timestamp <= self.end
    }
}

/// Correlated event grouping related events together.
#[derive(Debug, Clone)]
pub struct CorrelatedEvent {
    /// Primary intent ID
    pub intent_id: u128,
    /// Time window of the correlation
    pub time_window: TimeWindow,
    /// Events from Substrates
    pub substrates_events: Vec<CollectedEvent>,
    /// Events from Serventis
    pub serventis_events: Vec<CollectedEvent>,
    /// Detected pattern (if any)
    pub pattern: Option<EventPattern>,
    /// Human-readable summary
    pub summary: String,
}

/// Whether two correlated events agree in every field.
pub open spec fn same_correlated(a: CorrelatedEvent, b: CorrelatedEvent) -> bool {
    &&& a.intent_id == b.intent_id
    &&& a.time_window == b.time_window
    &&& a.substrates_events@ == b.substrates_events@
    &&& a.serventis_events@ == b.serventis_events@
    &&& a.pattern == b.pattern
    &&& a.summary@ == b.summary@
}

/// The correlated events of `cs` for the intent `id`, in order.
pub open spec fn correlations_of(cs: Seq<CorrelatedEvent>, id: u128) -> Seq<CorrelatedEvent>
    decreases cs.len(),
{
    if cs.len() == 0 {
        Seq::empty()
    } else if cs.last().intent_id == id {
        correlations_of(cs.drop_last(), id).push(cs.last())
    } else {
        correlations_of(cs.drop_last(), id)
    }
}

impl CorrelatedEvent {
    /// A copy of the correlated event.
    pub fn copied(&self) -> (r: Self)
        ensures
            same_correlated(r, *self),
    {
        CorrelatedEvent {
            intent_id: self.intent_id,
            time_window: self.time_window,
            substrates_events: copy_events(&self.substrates_events),
            serventis_events: copy_events(&self.serventis_events),
            pattern: self.pattern,
            summary: self.summary.clone(),
        }
    }
}

impl CollectedEvent {
    /// A copy of the event.
    pub fn copied(&self) -> (r: Self)
        ensures
            r == *self,
    {
        match self {
            CollectedEvent::SubstratesEvent { intent_id, event_type, timestamp, anomaly } => CollectedEvent::SubstratesEvent {
                intent_id: *intent_id,
                event_type: event_type.clone(),
                timestamp: *timestamp,
                anomaly: *anomaly,
            },
            CollectedEvent::SubstratesMetric { intent_id, metric_type, timestamp } => CollectedEvent::SubstratesMetric {
                intent_id: *intent_id,
                metric_type: metric_type.clone(),
                timestamp: *timestamp,
            },
            CollectedEvent::ServentisSignal { service_id, signal, timestamp } => CollectedEvent::ServentisSignal {
                service_id: service_id.clone(),
                signal: signal.clone(),
                timestamp: *timestamp,
            },
            CollectedEvent::ServentisObservation { probe_id, operation, origin, outcome, timestamp } => CollectedEvent::ServentisObservation {
                probe_id: probe_id.clone(),
                operation: operation.clone(),
                origin: origin.clone(),
                outcome: outcome.clone(),
                timestamp: *timestamp,
            },
            CollectedEvent::ServentisStatus { monitor_id, condition, confidence, timestamp } => CollectedEvent::ServentisStatus {
                monitor_id: monitor_id.clone(),
                condition: condition.clone(),
                confidence: confidence.clone(),
                timestamp: *timestamp,
            },
        }
    }

    /// When the event happened.
    pub fn timestamp(&self) -> (r: i64)
        ensures
            r == timestamp_of(*self),
    {
        match self {
            CollectedEvent::SubstratesEvent { timestamp, .. } => *timestamp,
            CollectedEvent::SubstratesMetric { timestamp, .. } => *timestamp,
            CollectedEvent::ServentisSignal { timestamp, .. } => *timestamp,
            CollectedEvent::ServentisObservation { timestamp, .. } => *timestamp,
            CollectedEvent::ServentisStatus { timestamp, .. } => *timestamp,
        }
    }

    /// Whether the event is a signal whose text contains `p`.
    pub fn signal_contains(&self, p: &str) -> (r: bool)
        ensures
            r == signal_has(*self, p@),
    {
        match self {
            CollectedEvent::ServentisSignal { signal, .. } => text_contains(signal.as_str(), p),
            _ => false,
        }
    }
}

/// A copy of a list of events.
fn copy_events(es: &Vec<CollectedEvent>) -> (r: Vec<CollectedEvent>)
    ensures
        r@ == es@,
{
    let mut r: Vec<CollectedEvent> = Vec::new();
    let n = es.len();
    let mut i: usize = 0;
    while i < n
        invariant
            n == es@.len(),
            i <= n,
            r@ == es@.subrange(0, i as int),
        decreases n - i,
    {
        r.push(es[i].copied());
        i = i + 1;
        assert(r@ =~= es@.subrange(0, i as int));
    }
    assert(es@.subrange(0, n as int) =~= es@);
    r
}

/// Whether some event of `es` is a signal containing `p`.
fn any_signal_exec(es: &Vec<CollectedEvent>, p: &str) -> (r: bool)
    ensures
        r == any_signal(es@, p@),
{
    let n = es.len();
    let mut i: usize = 0;
    while i < n
        invariant
            n == es@.len(),
            i <= n,
            forall|j: int| 0 <= j < i ==> !#[trigger] signal_has(es@[j], p@),
        decreases n - i,
    {
        if es[i].signal_contains(p) {
            return true;
        }
        i = i + 1;
    }
    false
}

/// The position of the first signal of `es` containing `p`.
fn first_signal_exec(es: &Vec<CollectedEvent>, p: &str) -> (r: Option<usize>)
    ensures
        match r {
            Some(j) => first_signal(es@, p@, 0) == Some(j as int),
            None => first_signal(es@, p@, 0) is None,
        },
{
    let n = es.len();
    let mut i: usize = 0;
    while i < n
        invariant
            n == es@.len(),
            i <= n,
            first_signal(es@, p@, 0) == first_signal(es@, p@, i as int),
        decreases n - i,
    {
        if es[i].signal_contains(p) {
            return Some(i);
        }
        i = i + 1;
    }
    None
}

/// Whether some event of `es` from position `from` on is a signal
/// containing `p`.
fn any_signal_from(es: &Vec<CollectedEvent>, from: usize, p: &str) -> (r: bool)
    requires
        from <= es@.len(),
    ensures
        r == any_signal(es@.subrange(from as int, es@.len() as int), p@),
{
    let ghost tail = es@.subrange(from as int, es@.len() as int);
    let n = es.len();
    let mut i: usize = from;
    while i < n
        invariant
            n == es@.len(),
            from <= i <= n,
            tail == es@.subrange(from as int, n as int),
            forall|j: int| 0 <= j < i - from ==> !#[trigger] signal_has(tail[j], p@),
        decreases n - i,
    {
        if es[i].signal_contains(p) {
            assert(signal_has(tail[i - from], p@));
            return true;
        }
        i = i + 1;
    }
    false
}

/// The pattern the detectors find in a window's events.
pub fn detect_pattern(substrates: &Vec<CollectedEvent>, serventis: &Vec<CollectedEvent>) -> (r: Option<EventPattern>)
    ensures
        r == detected_pattern(substrates@, serventis@),
{
    if any_signal_exec(serventis, "Start") && any_signal_exec(serventis, "Success") && any_signal_exec(serventis, "Stop") {
        return Some(EventPattern::NormalExecution);
    }
    if any_signal_exec(serventis, "Fail") {
        return Some(EventPattern::FailedExecution);
    }
    if any_signal_exec(serventis, "Retry") {
        proof {
            lemma_first_signal(serventis@, "Retry"@, 0);
        }
        return match first_signal_exec(serventis, "Retry") {
            Some(idx) => {
                assert(first_signal(serventis@, "Retry"@, 0) == Some(idx as int));
                if any_signal_from(serventis, idx, "Success") {
                    Some(EventPattern::RetrySuccess)
                } else {
                    Some(EventPattern::RepeatedFailure)
                }
            },
            None => None,
        };
    }
    let n = substrates.len();
    let mut i: usize = 0;
    while i < n
        invariant
            n == substrates@.len(),
            !(any_signal(serventis@, "Start"@) && any_signal(serventis@, "Success"@) && any_signal(serventis@, "Stop"@)),
            !any_signal(serventis@, "Fail"@),
            !any_signal(serventis@, "Retry"@),
            i <= n,
            forall|j: int| 0 <= j < i ==> !#[trigger] has_anomaly(substrates@[j]),
        decreases n - i,
    {
        match &substrates[i] {
            CollectedEvent::SubstratesEvent { anomaly, .. } => {
                if *anomaly {
                    assert(has_anomaly(substrates@[i as int]));
                    return Some(EventPattern::AnomalousBehavior);
                }
            },
            _ => {},
        }
        i = i + 1;
    }
    None
}

/// The summary of a window by its pattern and its number of events.
pub fn generate_summary(pattern: &Option<EventPattern>, count: usize) -> (r: String)
    ensures
        r@ == summary_text(*pattern, count as nat),
{
    match pattern {
        Some(EventPattern::NormalExecution) => {
            let mut s = String::from_str("Task completed successfully (");
            append_decimal(&mut s, count);
            s.append(" events)");
            s
        },
        Some(EventPattern::FailedExecution) => String::from_str("Task failed during execution"),
        Some(EventPattern::RetrySuccess) => String::from_str("Task succeeded after retry"),
        Some(EventPattern::RepeatedFailure) => String::from_str("Task failed multiple times"),
        Some(EventPattern::ResourceContention) => String::from_str("High resource contention detected"),
        Some(EventPattern::AnomalousBehavior) => String::from_str("Anomalous behavior detected - review required"),
        Some(EventPattern::PerformanceDegradation) => String::from_str("Performance degradation observed"),
        None => {
            let mut s = String::new();
            append_decimal(&mut s, count);
            s.append(" events in correlation window");
            s
        },
    }
}

/// The correlated event of one window of an intent's events: the events
/// split by framework (keeping their order), the detected pattern and the
/// summary.
pub fn create_correlated_event(intent_id: u128, window: TimeWindow, events: Vec<CollectedEvent>) -> (r: CorrelatedEvent)
    ensures
        r.intent_id == intent_id,
        r.time_window == window,
        r.substrates_events@ == split_events(events@, true),
        r.serventis_events@ == split_events(events@, false),
        r.pattern == detected_pattern(split_events(events@, true), split_events(events@, false)),
        r.summary@ == summary_text(r.pattern, events@.len()),
{
    let mut substrates_events: Vec<CollectedEvent> = Vec::new();
    let mut serventis_events: Vec<CollectedEvent> = Vec::new();
    let n = events.len();
    let mut i: usize = 0;
    while i < n
        invariant
            n == events@.len(),
            i <= n,
            substrates_events@ == split_events(events@.take(i as int), true),
            serventis_events@ == split_events(events@.take(i as int), false),
            substrates_events@.len() + serventis_events@.len() == i,
        decreases n - i,
    {
        proof {
            assert(events@.take(i + 1).drop_last() =~= events@.take(i as int));
            assert(events@.take(i + 1).last() == events@[i as int]);
        }
        let e = events[i].copied();
        match &e {
            CollectedEvent::SubstratesEvent { .. } | CollectedEvent::SubstratesMetric { .. } => {
                substrates_events.push(e);
            },
            _ => {
                serventis_events.push(e);
            },
        }
        i = i + 1;
    }
    assert(events@.take(n as int) =~= events@);
    let pattern = detect_pattern(&substrates_events, &serventis_events);
    let summary = generate_summary(&pattern, substrates_events.len() + serventis_events.len());
    CorrelatedEvent {
        intent_id,
        time_window: window,
        substrates_events,
        serventis_events,
        pattern,
        summary,
    }
}

/// Event aggregator that correlates events by intent and time.
pub struct EventAggregator {
    /// Events by intent, in arrival order
    events_by_intent: Vec<(u128, Vec<CollectedEvent>)>,
    /// Correlated event groups, in the order they were made
    correlated_events: Vec<CorrelatedEvent>,
}

/// The events of each intent.
pub open spec fn intents_view(v: Seq<(u128, Vec<CollectedEvent>)>) -> Seq<(u128, Seq<CollectedEvent>)> {
    v.map_values(|p: (u128, Vec<CollectedEvent>)| (p.0, p.1@))
}

impl EventAggregator {
    pub closed spec fn intents(&self) -> Seq<(u128, Seq<CollectedEvent>)> {
        intents_view(self.events_by_intent@)
    }

    pub closed spec fn correlated(&self) -> Seq<CorrelatedEvent> {
        self.correlated_events@
    }

    /// The events recorded for an intent.
    pub open spec fn events_of(&self, intent: u128) -> Seq<CollectedEvent> {
        match assoc_get(self.intents(), intent) {
            Some(es) => es,
            None => Seq::empty(),
        }
    }

    pub fn new() -> (r: Self)
        ensures
            r.intents().len() == 0,
            r.correlated().len() == 0,
    {
        let r = EventAggregator { events_by_intent: Vec::new(), correlated_events: Vec::new() };
        assert(r.intents() =~= Seq::<(u128, Seq<CollectedEvent>)>::empty());
        r
    }

    /// The correlated events made so far.
    pub fn get_correlated_events(&self) -> (r: &Vec<CorrelatedEvent>)
        ensures
            r@ == self.correlated(),
    {
        &self.correlated_events
    }

    /// Copies of the correlated events of one intent, in order.
    pub fn get_intent_correlations(&self, intent_id: u128) -> (r: Vec<CorrelatedEvent>)
        ensures
            r@.len() == correlations_of(self.correlated(), intent_id).len(),
            forall|k: int| 0 <= k < r@.len() ==> same_correlated(
                #[trigger] r@[k],
                correlations_of(self.correlated(), intent_id)[k],
            ),
    {
        let ghost cs = self.correlated();
        let mut r: Vec<CorrelatedEvent> = Vec::new();
        let n = self.correlated_events.len();
        let mut i: usize = 0;
        while i < n
            invariant
                n == cs.len(),
                cs == self.correlated(),
                i <= n,
                r@.len() == correlations_of(cs.take(i as int), intent_id).len(),
                forall|k: int| 0 <= k < r@.len() ==> same_correlated(
                    #[trigger] r@[k],
                    correlations_of(cs.take(i as int), intent_id)[k],
                ),
            decreases n - i,
        {
            assert(cs.take(i + 1).drop_last() =~= cs.take(i as int));
            assert(cs.take(i + 1).last() == cs[i as int]);
            if self.correlated_events[i].intent_id == intent_id {
                let c = self.correlated_events[i].copied();
                r.push(c);
            }
            i = i + 1;
        }
        assert(cs.take(n as int) =~= cs);
        r
    }

    /// Records `event` under intent `intent_id` (appended after its earlier
    /// events); the other intents keep theirs.
    pub fn record_event(&mut self, intent_id: u128, event: CollectedEvent)
        ensures
            final(self).events_of(intent_id) == old(self).events_of(intent_id).push(event),
            forall|q: u128| q != intent_id ==> #[trigger] final(self).events_of(q) == old(self).events_of(q),
            final(self).correlated() == old(self).correlated(),
    {
        let ghost iv = self.intents();
        let n = self.events_by_intent.len();
        let mut i: usize = 0;
        while i < n
            invariant
                n == self.events_by_intent@.len(),
                iv == self.intents(),
                *self == *old(self),
                i <= n,
                forall|m: int| 0 <= m < i ==> iv[m].0 != intent_id,
            decreases n - i,
        {
            assert(iv[i as int] == (self.events_by_intent@[i as int].0, self.events_by_intent@[i as int].1@));
            if self.events_by_intent[i].0 == intent_id {
                proof {
                    lemma_assoc_update(iv, i as int, intent_id, iv[i as int].1.push(event));
                }
                let mut entry = self.events_by_intent.remove(i);
                entry.1.push(event);
                self.events_by_intent.insert(i, entry);
                assert(self.intents() =~= iv.update(i as int, (intent_id, iv[i as int].1.push(event))));
                return;
            }
            i = i + 1;
        }
        proof {
            lemma_assoc_push(iv, intent_id, seq![event]);
        }
        let mut fresh: Vec<CollectedEvent> = Vec::new();
        let ghost ev = event;
        fresh.push(event);
        self.events_by_intent.push((intent_id, fresh));
        assert(self.intents() =~= iv.push((intent_id, seq![ev])));
        assert(seq![ev] =~= Seq::<CollectedEvent>::empty().push(ev));
    }

    /// The events recorded for an intent, copied.
    fn events_for(&self, intent_id: u128) -> (r: Vec<CollectedEvent>)
        ensures
            r@ == self.events_of(intent_id),
    {
        let ghost iv = self.intents();
        let n = self.events_by_intent.len();
        let mut i: usize = 0;
        while i < n
            invariant
                n == self.events_by_intent@.len(),
                iv == self.intents(),
                i <= n,
                forall|m: int| 0 <= m < i ==> iv[m].0 != intent_id,
            decreases n - i,
        {
            assert(iv[i as int] == (self.events_by_intent@[i as int].0, self.events_by_intent@[i as int].1@));
            if self.events_by_intent[i].0 == intent_id {
                proof {
                    lemma_assoc_skip(iv, intent_id, i as int);
                }
                return copy_events(&self.events_by_intent[i].1);
            }
            i = i + 1;
        }
        proof {
            lemma_assoc_skip(iv, intent_id, n as int);
        }
        Vec::new()
    }

    /// Correlates the events of an intent: they are grouped into windows
    /// (each joins the first window holding its time or opens one at its
    /// time), and a correlated event is appended for each window, in the
    /// order the windows were opened.
    pub fn correlate_events(&mut self, intent_id: u128)
        requires
            events_bounded(old(self).events_of(intent_id)),
        ensures
            final(self).intents() == old(self).intents(),
            ({
                let ws = windows_of(old(self).events_of(intent_id), old(self).events_of(intent_id).len() as int);
                &&& final(self).correlated().len() == old(self).correlated().len() + ws.len()
                &&& final(self).correlated().subrange(0, old(self).correlated().len() as int) == old(self).correlated()
                &&& forall|k: int| 0 <= k < ws.len() ==> #[trigger] correlated_for(
                    final(self).correlated()[old(self).correlated().len() + k],
                    intent_id,
                    ws[k],
                )
            }),
    {
        let events = self.events_for(intent_id);
        let windows = group_into_windows(&events);
        let ghost ws = win_view(windows@);
        let ghost base = self.correlated_events@;
        let m = windows.len();
        let mut k: usize = 0;
        while k < m
            invariant
                m == windows@.len(),
                ws == win_view(windows@),
                windows_ok(windows@),
                self.intents() == old(self).intents(),
                base == old(self).correlated(),
                k <= m,
                self.correlated_events@.len() == base.len() + k,
                self.correlated_events@.subrange(0, base.len() as int) == base,
                forall|x: int| 0 <= x < k ==> #[trigger] correlated_for(self.correlated_events@[base.len() + x], intent_id, ws[x]),
            decreases m - k,
        {
            let window = windows[k].0;
            let evs = copy_events(&windows[k].1);
            assert(ws[k as int] == (windows@[k as int].0.start, windows@[k as int].1@));
            let c = create_correlated_event(intent_id, window, evs);
            let ghost before = self.correlated_events@;
            self.correlated_events.push(c);
            proof {
                assert(self.correlated_events@.subrange(0, base.len() as int) =~= before.subrange(0, base.len() as int));
                assert forall|x: int| 0 <= x < k + 1 implies #[trigger] correlated_for(self.correlated_events@[base.len() + x], intent_id, ws[x]) by {
                    if x < k {
                        assert(self.correlated_events@[base.len() + x] == before[base.len() + x]);
                    }
                }
            }
            k = k + 1;
        }
    }
}

/// The position of the `k`-th dash (counting from 0) of `s` from `from` on.
pub open spec fn nth_dash(s: Seq<char>, from: int, k: nat) -> Option<int>
    decreases s.len() - from,
{
    if from < 0 || from >= s.len() {
        None
    } else if s[from] == '-' {
        if k == 0 {
            Some(from)
        } else {
            nth_dash(s, from + 1, (k - 1) as nat)
        }
    } else {
        nth_dash(s, from + 1, k)
    }
}

/// The UUID text of a component id such as `intent-service-<uuid>`: what
/// follows its second dash (so the parts after the second, joined by
/// dashes); `None` for an id with fewer than two dashes.
pub open spec fn id_uuid_text(s: Seq<char>) -> Option<Seq<char>> {
    match nth_dash(s, 0, 1) {
        Some(p) => Some(s.subrange(p + 1, s.len() as int)),
        None => None,
    }
}

/// The intent of a component id, if it names one.
pub open spec fn id_intent(s: Seq<char>) -> Option<u128> {
    match id_uuid_text(s) {
        Some(t) => uuid_text_value(t),
        None => None,
    }
}

/// The intent an event belongs to: its own for Substrates events, the one
/// its service, probe or monitor id names for Serventis events.
pub open spec fn event_intent(e: CollectedEvent) -> Option<u128> {
    match e {
        CollectedEvent::SubstratesEvent { intent_id, .. } => Some(intent_id),
        CollectedEvent::SubstratesMetric { intent_id, .. } => Some(intent_id),
        CollectedEvent::ServentisSignal { service_id, .. } => id_intent(service_id@),
        CollectedEvent::ServentisObservation { probe_id, .. } => id_intent(probe_id@),
        CollectedEvent::ServentisStatus { monitor_id, .. } => id_intent(monitor_id@),
    }
}

/// The intent named by a component id such as `intent-service-<uuid>`.
pub fn parse_intent_from_id(component_id: &str) -> (r: Result<u128, MonitorError>)
    ensures
        match id_intent(component_id@) {
            Some(v) => r matches Ok(x) && x == v,
            None => r matches Err(MonitorError::AggregationError(_)),
        },
{
    let n = component_id.unicode_len();
    let mut seen: usize = 0;
    let mut i: usize = 0;
    while i < n
        invariant
            n == component_id@.len(),
            i <= n,
            seen <= 1,
            nth_dash(component_id@, 0, 1) == nth_dash(component_id@, i as int, (1 - seen) as nat),
        decreases n - i,
    {
        if component_id.get_char(i) == '-' {
            if seen == 1 {
                let text = component_id.substring_char(i + 1, n);
                return match parse_uuid(text) {
                    Ok(v) => Ok(v),
                    Err(e) => {
                        let mut msg = String::from_str("Invalid UUID: ");
                        let t = uuid_error_text(&e);
                        msg.append(t.as_str());
                        Err(MonitorError::AggregationError(msg))
                    },
                };
            }
            seen = seen + 1;
        }
        i = i + 1;
    }
    Err(MonitorError::AggregationError(String::from_str("Cannot extract intent ID")))
}

/// The intent an event belongs to.
pub fn extract_intent_id(event: &CollectedEvent) -> (r: Result<u128, MonitorError>)
    ensures
        match event_intent(*event) {
            Some(v) => r matches Ok(x) && x == v,
            None => r matches Err(MonitorError::AggregationError(_)),
        },
{
    match event {
        CollectedEvent::SubstratesEvent { intent_id, .. } => Ok(*intent_id),
        CollectedEvent::SubstratesMetric { intent_id, .. } => Ok(*intent_id),
        CollectedEvent::ServentisSignal { service_id, .. } => parse_intent_from_id(service_id.as_str()),
        CollectedEvent::ServentisObservation { probe_id, .. } => parse_intent_from_id(probe_id.as_str()),
        CollectedEvent::ServentisStatus { monitor_id, .. } => parse_intent_from_id(monitor_id.as_str()),
    }
}

impl EventAggregator {
    /// Whether every recorded event's window end is within the range of
    /// times.
    pub open spec fn bounded(&self) -> bool {
        forall|q: u128| events_bounded(#[trigger] self.events_of(q))
    }

    /// Processes an event: it is recorded under its intent and that
    /// intent's events are correlated again; an event whose intent cannot
    /// be told is refused and changes nothing.
    pub fn process_event(&mut self, event: CollectedEvent) -> (r: Result<(), MonitorError>)
        requires
            old(self).bounded(),
            timestamp_of(event) <= i64::MAX - CORRELATION_WINDOW_MS,
        ensures
            final(self).bounded(),
            match event_intent(event) {
                None => r is Err && final(self).intents() == old(self).intents() && final(self).correlated() == old(
                    self,
                ).correlated(),
                Some(id) => {
                    let es = old(self).events_of(id).push(event);
                    let ws = windows_of(es, es.len() as int);
                    &&& r is Ok
                    &&& final(self).events_of(id) == es
                    &&& forall|q: u128| q != id ==> #[trigger] final(self).events_of(q) == old(self).events_of(q)
                    &&& final(self).correlated().len() == old(self).correlated().len() + ws.len()
                    &&& final(self).correlated().subrange(0, old(self).correlated().len() as int) == old(self).correlated()
                    &&& forall|k: int| 0 <= k < ws.len() ==> #[trigger] correlated_for(
                        final(self).correlated()[old(self).correlated().len() + k],
                        id,
                        ws[k],
                    )
                },
            },
    {
        let intent_id = match extract_intent_id(&event) {
            Ok(id) => id,
            Err(e) => {
                return Err(e);
            },
        };
        let ghost ev = event;
        self.record_event(intent_id, event);
        proof {
            assert forall|q: u128| events_bounded(#[trigger] self.events_of(q)) by {
                if q != intent_id {
                    assert(self.events_of(q) == old(self).events_of(q));
                } else {
                    assert(events_bounded(old(self).events_of(q)));
                    assert forall|i: int| 0 <= i < self.events_of(q).len() implies timestamp_of(
                        #[trigger] self.events_of(q)[i],
                    ) <= i64::MAX - CORRELATION_WINDOW_MS by {
                        if i < old(self).events_of(q).len() {
                            assert(self.events_of(q)[i] == old(self).events_of(q)[i]);
                        }
                    }
                }
            }
        }
        let ghost mid = *self;
        self.correlate_events(intent_id);
        proof {
            assert forall|q: u128| #[trigger] self.events_of(q) == mid.events_of(q) by {}
        }
        Ok(())
    }
}

/// Whether every event's window end (its time plus the correlation window)
/// is within the range of times.
pub open spec fn events_bounded(es: Seq<CollectedEvent>) -> bool {
    forall|i: int| 0 <= i < es.len() ==> timestamp_of(#[trigger] es[i]) <= i64::MAX - CORRELATION_WINDOW_MS
}

/// Whether `c` is the correlated event of window `w` of `intent_id`.
pub open spec fn correlated_for(c: CorrelatedEvent, intent_id: u128, w: (i64, Seq<CollectedEvent>)) -> bool {
    &&& c.intent_id == intent_id
    &&& c.time_window == TimeWindow { start: w.0, end: (w.0 + CORRELATION_WINDOW_MS) as i64 }
    &&& c.substrates_events@ == split_events(w.1, true)
    &&& c.serventis_events@ == split_events(w.1, false)
    &&& c.pattern == detected_pattern(c.substrates_events@, c.serventis_events@)
    &&& c.summary@ == summary_text(c.pattern, w.1.len())
}

/// The starts and events of a list of windows.
pub open spec fn win_view(v: Seq<(TimeWindow, Vec<CollectedEvent>)>) -> Seq<(i64, Seq<CollectedEvent>)> {
    v.map_values(|w: (TimeWindow, Vec<CollectedEvent>)| (w.0.start, w.1@))
}

/// Whether every window lasts exactly the correlation window.
pub open spec fn windows_ok(v: Seq<(TimeWindow, Vec<CollectedEvent>)>) -> bool {
    forall|k: int| 0 <= k < v.len() ==> (#[trigger] v[k]).0.end == v[k].0.start + CORRELATION_WINDOW_MS
}

/// The position of the first window holding `t`.
fn find_window(windows: &Vec<(TimeWindow, Vec<CollectedEvent>)>, t: i64) -> (r: Option<usize>)
    requires
        windows_ok(windows@),
    ensures
        match r {
            Some(j) => first_window(win_view(windows@), t, 0) == Some(j as int),
            None => first_window(win_view(windows@), t, 0) is None,
        },
{
    let ghost ws = win_view(windows@);
    let m = windows.len();
    let mut w: usize = 0;
    while w < m
        invariant
            m == windows@.len(),
            ws == win_view(windows@),
            windows_ok(windows@),
            w <= m,
            first_window(ws, t, 0) == first_window(ws, t, w as int),
        decreases m - w,
    {
        assert(ws[w as int].0 == windows@[w as int].0.start);
        if windows[w].0.contains(t) {
            return Some(w);
        }
        w = w + 1;
    }
    None
}

/// The windows of a list of events.
fn group_into_windows(events: &Vec<CollectedEvent>) -> (r: Vec<(TimeWindow, Vec<CollectedEvent>)>)
    requires
        events_bounded(events@),
    ensures
        win_view(r@) == windows_of(events@, events@.len() as int),
        windows_ok(r@),
{
    let ghost es = events@;
    let mut windows: Vec<(TimeWindow, Vec<CollectedEvent>)> = Vec::new();
    assert(win_view(windows@) =~= windows_of(es, 0));
    let n = events.len();
    let mut i: usize = 0;
    while i < n
        invariant
            n == es.len(),
            events@ == es,
            events_bounded(es),
            i <= n,
            win_view(windows@) == windows_of(es, i as int),
            windows_ok(windows@),
        decreases n - i,
    {
        let ghost ws = win_view(windows@);
        let e = events[i].copied();
        let t = e.timestamp();
        assert(timestamp_of(es[i as int]) <= i64::MAX - CORRELATION_WINDOW_MS);
        proof {
            lemma_first_window(ws, t, 0);
        }
        match find_window(&windows, t) {
            Some(k) => {
                let ghost before = windows@;
                let mut entry = windows.remove(k);
                let ghost old_w = entry;
                entry.1.push(e);
                windows.insert(k, entry);
                proof {
                    assert(ws[k as int] == (old_w.0.start, old_w.1@));
                    assert(win_view(windows@) =~= ws.update(k as int, (ws[k as int].0, ws[k as int].1.push(es[i as int]))));
                    assert(first_window(ws, timestamp_of(es[i as int]), 0) == Some(k as int));
                    assert(win_view(windows@) == windows_of(es, i + 1));
                    assert forall|x: int| 0 <= x < windows@.len() implies (#[trigger] windows@[x]).0.end == windows@[x].0.start
                        + CORRELATION_WINDOW_MS by {
                        if x != k {
                            assert(windows@[x] == before[x]);
                        }
                    }
                }
            },
            None => {
                let mut fresh: Vec<CollectedEvent> = Vec::new();
                let ghost ev = e;
                fresh.push(e);
                let ghost before = windows@;
                windows.push((TimeWindow::new(t, CORRELATION_WINDOW_MS), fresh));
                proof {
                    assert(win_view(windows@) =~= ws.push((t, seq![es[i as int]])));
                    assert(win_view(windows@) == windows_of(es, i + 1));
                    assert forall|x: int| 0 <= x < windows@.len() implies (#[trigger] windows@[x]).0.end == windows@[x].0.start
                        + CORRELATION_WINDOW_MS by {
                        if x < before.len() {
                            assert(windows@[x] == before[x]);
                        }
                    }
                }
            },
        }
        i = i + 1;
    }
    windows
}

} // verus!
