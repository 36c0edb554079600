//! Event narration: styles, narrative kinds and importance, and the
//! decisions that turn patterns and statuses into importance, narrative
//! kinds, fixed texts and suggested actions.

use vstd::prelude::*;
use crate::monitor::templates::{TemplateEngine, strings_view};
use crate::monitor::views::{HealthStatus, TaskStatus, AgentStatus};
use crate::monitor::aggregator::{CorrelatedEvent, TimeWindow};
use crate::text::{decimal_chars, integer_chars, clock_text, append_decimal_wide, append_integer, append_clock};
use crate::platform::{now_millis, uuid_text, uuid_hyphenated};

verus! {

/// Detected event patterns.
#[derive(Debug, Clone, Copy, PartialEq, Eq, Structural)]
pub enum EventPattern {
    /// Normal task execution: start -> process -> success -> stop
    NormalExecution,
    /// Failed execution: start -> process -> failure -> stop
    FailedExecution,
    /// Retry pattern: failure -> retry -> success
    RetrySuccess,
    /// Repeated failures: failure -> retry -> failure
    RepeatedFailure,
    /// Resource contention: queue depth spike + delays
    ResourceContention,
    /// Anomalous behavior: unexpected tool usage or permission escalation
    AnomalousBehavior,
    /// Performance degradation: increasing latencies
    PerformanceDegradation,
}

/// Types of patterns the pattern detector reports.
#[derive(Debug, Clone, PartialEq, Eq, Structural)]
pub enum PatternType {
    TaskLifecycle,
    ErrorRecovery,
    NormalProgression,
    PerformanceDegradation,
    ResourceContention,
    SecurityAnomaly,
}

/// Style of narrative generation.
#[derive(Debug, Clone, Copy, PartialEq, Eq, Structural)]
pub enum NarrativeStyle {
    /// Brief, concise narratives
    Concise,
    /// Detailed technical narratives
    Technical,
    /// Conversational, friendly narratives
    Conversational,
    /// Executive summary style
    Executive,
}

/// Type of narrative.
#[derive(Debug, Clone, PartialEq, Eq, Structural)]
pub enum NarrativeType {
    TaskUpdate,
    AgentBehavior,
    SystemHealth,
    Incident,
    Performance,
    Anomaly,
}

/// Importance level, in increasing order.
#[derive(Debug, Clone, PartialEq, Eq, Structural, PartialOrd, Ord)]
pub enum Importance {
    Low,
    Medium,
    High,
    Critical,
}

/// Suggested action for the user.
#[derive(Debug, Clone)]
pub struct SuggestedAction {
    pub action: String,
    pub reason: String,
    pub urgency: Importance,
}

/// What a suggested action is.
pub struct ActionView {
    pub action: Seq<char>,
    pub reason: Seq<char>,
    pub urgency: Importance,
}

impl View for SuggestedAction {
    type V = ActionView;

    open spec fn view(&self) -> ActionView {
        ActionView { action: self.action@, reason: self.reason@, urgency: self.urgency }
    }
}

/// The views of a list of suggested actions.
pub open spec fn actions_view(v: Seq<SuggestedAction>) -> Seq<ActionView> {
    v.map_values(|a: SuggestedAction| a@)
}

/// The importance of an event by its pattern.
pub open spec fn event_importance(p: Option<EventPattern>) -> Importance {
    match p {
        Some(EventPattern::AnomalousBehavior) => Importance::Critical,
        Some(EventPattern::RepeatedFailure) => Importance::High,
        Some(EventPattern::FailedExecution) | Some(EventPattern::ResourceContention) => Importance::Medium,
        _ => Importance::Low,
    }
}

/// The rank of an importance, from low (0) to critical (3).
pub open spec fn importance_rank(i: Importance) -> int {
    match i {
        Importance::Low => 0,
        Importance::Medium => 1,
        Importance::High => 2,
        Importance::Critical => 3,
    }
}

/// How important an event's narrative is, by its pattern: anomalous
/// behaviour is critical, repeated failures high, a failed execution or
/// resource contention medium, and everything else (a normal execution, a
/// successful retry, a slowdown, no pattern) low. So a failure always ranks
/// above a normal execution, and repeated failures above a single one.
pub proof fn event_importance_rules(p: Option<EventPattern>)
    ensures
        p == Some(EventPattern::AnomalousBehavior) ==> event_importance(p) == Importance::Critical,
        p == Some(EventPattern::RepeatedFailure) ==> event_importance(p) == Importance::High,
        p == Some(EventPattern::FailedExecution) ==> event_importance(p) == Importance::Medium,
        p == Some(EventPattern::ResourceContention) ==> event_importance(p) == Importance::Medium,
        p == Some(EventPattern::NormalExecution) || p == Some(EventPattern::RetrySuccess) || p == Some(
            EventPattern::PerformanceDegradation,
        ) || p is None ==> event_importance(p) == Importance::Low,
        importance_rank(event_importance(Some(EventPattern::FailedExecution))) > importance_rank(
            event_importance(Some(EventPattern::NormalExecution)),
        ),
        importance_rank(event_importance(Some(EventPattern::RepeatedFailure))) > importance_rank(
            event_importance(Some(EventPattern::FailedExecution)),
        ),
        importance_rank(event_importance(Some(EventPattern::AnomalousBehavior))) >= importance_rank(event_importance(p)),
{
}

/// The kind of narrative for an event by its pattern.
pub open spec fn event_narrative_type(p: Option<EventPattern>) -> NarrativeType {
    match p {
        Some(EventPattern::AnomalousBehavior) => NarrativeType::Anomaly,
        Some(EventPattern::PerformanceDegradation) => NarrativeType::Performance,
        _ => NarrativeType::TaskUpdate,
    }
}

/// The action suggested for an event by its pattern, if any.
pub open spec fn event_action(p: Option<EventPattern>) -> Option<ActionView> {
    match p {
        Some(EventPattern::RepeatedFailure) => Some(ActionView {
            action: "Review error logs"@,
            reason: "Multiple failures indicate a persistent issue"@,
            urgency: Importance::High,
        }),
        Some(EventPattern::AnomalousBehavior) => Some(ActionView {
            action: "Review agent permissions"@,
            reason: "Anomalous behavior may indicate compromised agent"@,
            urgency: Importance::Critical,
        }),
        Some(EventPattern::ResourceContention) => Some(ActionView {
            action: "Consider scaling resources"@,
            reason: "High contention is causing delays"@,
            urgency: Importance::Medium,
        }),
        _ => None,
    }
}

/// The fixed narrative text of a pattern, for the patterns that have one.
pub open spec fn pattern_text(p: EventPattern) -> Option<Seq<char>> {
    match p {
        EventPattern::FailedExecution => Some(
            "The task failed during execution. Review the error details to understand what went wrong."@,
        ),
        EventPattern::RetrySuccess => Some(
            "The task succeeded after retrying. The initial attempt failed but the retry was successful."@,
        ),
        EventPattern::RepeatedFailure => Some(
            "The task failed multiple times despite retries. This indicates a persistent issue that needs investigation."@,
        ),
        EventPattern::ResourceContention => Some(
            "High resource contention detected. Multiple tasks are competing for resources, causing delays."@,
        ),
        EventPattern::AnomalousBehavior => Some(
            "Anomalous behavior detected. An agent is behaving unexpectedly - this requires review."@,
        ),
        EventPattern::PerformanceDegradation => Some(
            "Performance degradation observed. Response times are increasing and may affect user experience."@,
        ),
        EventPattern::NormalExecution => None,
    }
}

/// The importance of a system health narrative.
pub open spec fn health_importance(s: HealthStatus) -> Importance {
    match s {
        HealthStatus::Critical | HealthStatus::Down => Importance::Critical,
        HealthStatus::Impaired => Importance::High,
        HealthStatus::Degraded => Importance::Medium,
        _ => Importance::Low,
    }
}

/// The importance of an agent narrative: high with recent anomalies,
/// medium when trust is below one half, low otherwise.
pub open spec fn agent_importance(anomalies: nat, low_trust: bool) -> Importance {
    if anomalies > 0 {
        Importance::High
    } else if low_trust {
        Importance::Medium
    } else {
        Importance::Low
    }
}

/// The name a pattern is shown with in key points.
pub open spec fn pattern_name(p: EventPattern) -> Seq<char> {
    match p {
        EventPattern::NormalExecution => "NormalExecution"@,
        EventPattern::FailedExecution => "FailedExecution"@,
        EventPattern::RetrySuccess => "RetrySuccess"@,
        EventPattern::RepeatedFailure => "RepeatedFailure"@,
        EventPattern::ResourceContention => "ResourceContention"@,
        EventPattern::AnomalousBehavior => "AnomalousBehavior"@,
        EventPattern::PerformanceDegradation => "PerformanceDegradation"@,
    }
}

/// The length of a time window in milliseconds.
pub open spec fn window_ms(w: TimeWindow) -> int {
    w.end - w.start
}

/// The narrative text of a correlated event with pattern `p`, window `w`
/// and `count` events, in `style`: a successful execution is told with its
/// duration (concise) or its start and end times of day; the other
/// patterns have fixed texts; an event without a pattern is told by its
/// number of events.
pub open spec fn event_text(style: NarrativeStyle, p: Option<EventPattern>, w: TimeWindow, count: nat) -> Seq<char> {
    match p {
        Some(EventPattern::NormalExecution) => if style == NarrativeStyle::Concise {
            "Task executed successfully in "@ + integer_chars(window_ms(w)) + "ms."@
        } else {
            "The task completed successfully. It started at "@ + clock_text(w.start as int) + " and finished at "@
                + clock_text(w.end as int) + ", processing "@ + decimal_chars(count) + " events without any issues."@
        },
        Some(q) => match pattern_text(q) {
            Some(t) => t,
            None => Seq::empty(),
        },
        None => decimal_chars(count) + " events occurred in this time window."@,
    }
}

/// The key points of a correlated event: its pattern, if any, its
/// duration and its numbers of events from each framework.
pub open spec fn event_key_points(p: Option<EventPattern>, w: TimeWindow, substrates: nat, serventis: nat) -> Seq<
    Seq<char>,
> {
    let common = seq![
        "Duration: "@ + integer_chars(window_ms(w)) + "ms"@,
        "Events: "@ + decimal_chars(substrates) + " Substrates, "@ + decimal_chars(serventis) + " Serventis"@,
    ];
    match p {
        Some(q) => seq!["Pattern: "@ + pattern_name(q)] + common,
        None => common,
    }
}

/// A generated narrative; its timestamp is in milliseconds since the Unix
/// epoch.
#[derive(Debug, Clone)]
pub struct Narrative {
    /// Type of narrative
    pub narrative_type: NarrativeType,
    /// Main narrative text
    pub text: String,
    /// Key points extracted
    pub key_points: Vec<String>,
    /// Severity/importance
    pub importance: Importance,
    /// When the narrative was made
    pub timestamp: i64,
    /// Related entity IDs
    pub related_entities: Vec<String>,
    /// Suggested actions
    pub actions: Vec<SuggestedAction>,
}

/// Main event narrator.
pub struct EventNarrator {
    /// Narrative style preference
    style: NarrativeStyle,
    /// Template engine for generating narratives
    template_engine: TemplateEngine,
}

impl EventNarrator {
    pub closed spec fn style_spec(&self) -> NarrativeStyle {
        self.style
    }

    /// A narrator of the given style with the built-in templates.
    pub fn new(style: NarrativeStyle) -> (r: Self)
        ensures
            r.style_spec() == style,
    {
        EventNarrator { style, template_engine: TemplateEngine::new() }
    }

    /// The narrator's style.
    pub fn style(&self) -> (r: NarrativeStyle)
        ensures
            r == self.style_spec(),
    {
        self.style
    }

    /// The narrator's templates.
    pub closed spec fn templates_spec(&self) -> TemplateEngine {
        self.template_engine
    }

    /// The narrator's templates.
    pub fn templates(&self) -> (r: &TemplateEngine)
        ensures
            *r == self.templates_spec(),
    {
        &self.template_engine
    }

    /// The name of a pattern.
    pub fn pattern_name(&self, pattern: EventPattern) -> (r: &'static str)
        ensures
            r@ == pattern_name(pattern),
    {
        match pattern {
            EventPattern::NormalExecution => "NormalExecution",
            EventPattern::FailedExecution => "FailedExecution",
            EventPattern::RetrySuccess => "RetrySuccess",
            EventPattern::RepeatedFailure => "RepeatedFailure",
            EventPattern::ResourceContention => "ResourceContention",
            EventPattern::AnomalousBehavior => "AnomalousBehavior",
            EventPattern::PerformanceDegradation => "PerformanceDegradation",
        }
    }

    /// The narrative text of a correlated event (see `event_text`).
    pub fn event_text(&self, event: &CorrelatedEvent) -> (r: String)
        ensures
            r@ == event_text(
                self.style_spec(),
                event.pattern,
                event.time_window,
                event.substrates_events@.len() + event.serventis_events@.len(),
            ),
    {
        let count: u128 = event.substrates_events.len() as u128 + event.serventis_events.len() as u128;
        match event.pattern {
            Some(EventPattern::NormalExecution) => {
                if self.style == NarrativeStyle::Concise {
                    let mut s = String::from_str("Task executed successfully in ");
                    append_integer(&mut s, event.time_window.end as i128 - event.time_window.start as i128);
                    s.append("ms.");
                    s
                } else {
                    let mut s = String::from_str("The task completed successfully. It started at ");
                    append_clock(&mut s, event.time_window.start);
                    s.append(" and finished at ");
                    append_clock(&mut s, event.time_window.end);
                    s.append(", processing ");
                    append_decimal_wide(&mut s, count);
                    s.append(" events without any issues.");
                    s
                }
            },
            Some(p) => match self.pattern_narrative(p) {
                Some(t) => String::from_str(t),
                None => String::new(),
            },
            None => {
                let mut s = String::new();
                append_decimal_wide(&mut s, count);
                s.append(" events occurred in this time window.");
                s
            },
        }
    }

    /// The key points of a correlated event (see `event_key_points`).
    pub fn extract_key_points(&self, event: &CorrelatedEvent) -> (r: Vec<String>)
        ensures
            strings_view(r@) == event_key_points(
                event.pattern,
                event.time_window,
                event.substrates_events@.len() as nat,
                event.serventis_events@.len() as nat,
            ),
    {
        let mut points: Vec<String> = Vec::new();
        match event.pattern {
            Some(p) => {
                let mut s = String::from_str("Pattern: ");
                s.append(self.pattern_name(p));
                points.push(s);
            },
            None => {},
        }
        let mut d = String::from_str("Duration: ");
        append_integer(&mut d, event.time_window.end as i128 - event.time_window.start as i128);
        d.append("ms");
        points.push(d);
        let mut e = String::from_str("Events: ");
        append_decimal_wide(&mut e, event.substrates_events.len() as u128);
        e.append(" Substrates, ");
        append_decimal_wide(&mut e, event.serventis_events.len() as u128);
        e.append(" Serventis");
        points.push(e);
        assert(strings_view(points@) =~= event_key_points(
            event.pattern,
            event.time_window,
            event.substrates_events@.len() as nat,
            event.serventis_events@.len() as nat,
        ));
        points
    }

    /// The narrative of a correlated event: its text and key points, the
    /// importance, kind and suggested actions of its pattern, its intent as
    /// the related entity, made at the current time.
    pub fn narrate_event(&self, event: &CorrelatedEvent) -> (r: Narrative)
        ensures
            r.narrative_type == event_narrative_type(event.pattern),
            r.text@ == event_text(
                self.style_spec(),
                event.pattern,
                event.time_window,
                event.substrates_events@.len() + event.serventis_events@.len(),
            ),
            strings_view(r.key_points@) == event_key_points(
                event.pattern,
                event.time_window,
                event.substrates_events@.len() as nat,
                event.serventis_events@.len() as nat,
            ),
            r.importance == event_importance(event.pattern),
            event.pattern == Some(EventPattern::FailedExecution) ==> r.importance == Importance::Medium,
            strings_view(r.related_entities@) == seq![uuid_hyphenated(event.intent_id)],
            actions_view(r.actions@) == (match event_action(event.pattern) {
                Some(a) => seq![a],
                None => Seq::empty(),
            }),
    {
        let text = self.event_text(event);
        let key_points = self.extract_key_points(event);
        let importance = self.determine_importance(event.pattern);
        let actions = self.suggest_actions(event.pattern);
        let mut related_entities: Vec<String> = Vec::new();
        related_entities.push(uuid_text(event.intent_id));
        assert(strings_view(related_entities@) =~= seq![uuid_hyphenated(event.intent_id)]);
        Narrative {
            narrative_type: self.determine_narrative_type(event.pattern),
            text,
            key_points,
            importance,
            timestamp: now_millis(),
            related_entities,
            actions,
        }
    }

    /// The importance of an event by its pattern.
    pub fn determine_importance(&self, pattern: Option<EventPattern>) -> (r: Importance)
        ensures
            r == event_importance(pattern),
            pattern == Some(EventPattern::FailedExecution) ==> r == Importance::Medium,
    {
        proof {
            event_importance_rules(pattern);
        }
        match pattern {
            Some(EventPattern::AnomalousBehavior) => Importance::Critical,
            Some(EventPattern::RepeatedFailure) => Importance::High,
            Some(EventPattern::FailedExecution) | Some(EventPattern::ResourceContention) => Importance::Medium,
            _ => Importance::Low,
        }
    }

    /// The kind of narrative for an event by its pattern.
    pub fn determine_narrative_type(&self, pattern: Option<EventPattern>) -> (r: NarrativeType)
        ensures
            r == event_narrative_type(pattern),
    {
        match pattern {
            Some(EventPattern::AnomalousBehavior) => NarrativeType::Anomaly,
            Some(EventPattern::PerformanceDegradation) => NarrativeType::Performance,
            _ => NarrativeType::TaskUpdate,
        }
    }

    /// The actions suggested for an event by its pattern.
    pub fn suggest_actions(&self, pattern: Option<EventPattern>) -> (r: Vec<SuggestedAction>)
        ensures
            actions_view(r@) == (match event_action(pattern) {
                Some(a) => seq![a],
                None => Seq::empty(),
            }),
    {
        let mut actions: Vec<SuggestedAction> = Vec::new();
        match pattern {
            Some(EventPattern::RepeatedFailure) => {
                actions.push(SuggestedAction {
                    action: String::from_str("Review error logs"),
                    reason: String::from_str("Multiple failures indicate a persistent issue"),
                    urgency: Importance::High,
                });
            },
            Some(EventPattern::AnomalousBehavior) => {
                actions.push(SuggestedAction {
                    action: String::from_str("Review agent permissions"),
                    reason: String::from_str("Anomalous behavior may indicate compromised agent"),
                    urgency: Importance::Critical,
                });
            },
            Some(EventPattern::ResourceContention) => {
                actions.push(SuggestedAction {
                    action: String::from_str("Consider scaling resources"),
                    reason: String::from_str("High contention is causing delays"),
                    urgency: Importance::Medium,
                });
            },
            _ => {},
        }
        proof {
            match event_action(pattern) {
                Some(a) => {
                    assert(actions_view(actions@) =~= seq![a]);
                },
                None => {
                    assert(actions_view(actions@) =~= Seq::<ActionView>::empty());
                },
            }
        }
        actions
    }

    /// The fixed text narrating a pattern, for the patterns whose narrative
    /// does not depend on the event's details.
    pub fn pattern_narrative(&self, pattern: EventPattern) -> (r: Option<&'static str>)
        ensures
            match pattern_text(pattern) {
                Some(t) => r matches Some(s) && s@ == t,
                None => r is None,
            },
    {
        match pattern {
            EventPattern::FailedExecution => Some(
                "The task failed during execution. Review the error details to understand what went wrong.",
            ),
            EventPattern::RetrySuccess => Some(
                "The task succeeded after retrying. The initial attempt failed but the retry was successful.",
            ),
            EventPattern::RepeatedFailure => Some(
                "The task failed multiple times despite retries. This indicates a persistent issue that needs investigation.",
            ),
            EventPattern::ResourceContention => Some(
                "High resource contention detected. Multiple tasks are competing for resources, causing delays.",
            ),
            EventPattern::AnomalousBehavior => Some(
                "Anomalous behavior detected. An agent is behaving unexpectedly - this requires review.",
            ),
            EventPattern::PerformanceDegradation => Some(
                "Performance degradation observed. Response times are increasing and may affect user experience.",
            ),
            EventPattern::NormalExecution => None,
        }
    }

    /// The importance of a system health narrative.
    pub fn health_importance(&self, status: &HealthStatus) -> (r: Importance)
        ensures
            r == health_importance(*status),
    {
        match status {
            HealthStatus::Critical | HealthStatus::Down => Importance::Critical,
            HealthStatus::Impaired => Importance::High,
            HealthStatus::Degraded => Importance::Medium,
            _ => Importance::Low,
        }
    }

    /// The importance of a task narrative: high once the task has ended.
    pub fn task_importance(&self, status: &TaskStatus) -> (r: Importance)
        ensures
            r == (if status.terminal() { Importance::High } else { Importance::Medium }),
    {
        if status.is_terminal() {
            Importance::High
        } else {
            Importance::Medium
        }
    }

    /// The importance of an agent narrative, from the number of recent
    /// anomalies and whether its trust score is below one half.
    pub fn agent_importance(&self, anomalies: usize, low_trust: bool) -> (r: Importance)
        ensures
            r == agent_importance(anomalies as nat, low_trust),
    {
        if anomalies > 0 {
            Importance::High
        } else if low_trust {
            Importance::Medium
        } else {
            Importance::Low
        }
    }

    /// The executive summary's word for a task's status.
    pub fn executive_status(&self, status: &TaskStatus) -> (r: &'static str)
        ensures
            r@ == (match *status {
                TaskStatus::Executing => "In Progress"@,
                TaskStatus::Completed => "Complete"@,
                TaskStatus::Failed => "Failed"@,
                _ => "Pending"@,
            }),
    {
        match status {
            TaskStatus::Executing => "In Progress",
            TaskStatus::Completed => "Complete",
            TaskStatus::Failed => "Failed",
            _ => "Pending",
        }
    }

    /// The conversational phrase for what an agent is doing.
    pub fn agent_activity_phrase(&self, status: &AgentStatus) -> (r: &'static str)
        ensures
            r@ == (match *status {
                AgentStatus::Active => "busy working"@,
                AgentStatus::Idle => "ready for tasks"@,
                AgentStatus::Error => "having issues"@,
                _ => "in an unusual state"@,
            }),
    {
        match status {
            AgentStatus::Active => "busy working",
            AgentStatus::Idle => "ready for tasks",
            AgentStatus::Error => "having issues",
            _ => "in an unusual state",
        }
    }
}

/// Anomalous behaviour is always the most important kind of event, and an
/// event with a suggested action is never of low importance.
pub proof fn anomalies_are_critical(p: Option<EventPattern>)
    ensures
        p == Some(EventPattern::AnomalousBehavior) ==> event_importance(p) == Importance::Critical,
        event_action(p) is Some ==> event_importance(p) != Importance::Low,
        event_action(p) matches Some(a) ==> a.urgency == event_importance(p),
{
}

/// Configuration for the observability collector.
#[derive(Debug, Clone, Copy)]
pub struct CollectorConfig {
    /// Size of the event buffer
    pub buffer_size: usize,
    /// How long to retain events (in seconds)
    pub retention_seconds: u64,
    /// Whether to collect metrics
    pub collect_metrics: bool,
    /// Whether to collect service signals
    pub collect_signals: bool,
    /// Whether to collect probe observations
    pub collect_observations: bool,
}

impl Default for CollectorConfig {
    fn default() -> (r: Self)
        ensures
            r.buffer_size == 10000,
            r.retention_seconds == 3600,
            r.collect_metrics && r.collect_signals && r.collect_observations,
    {
        CollectorConfig {
            buffer_size: 10000,
            retention_seconds: 3600,
            collect_metrics: true,
            collect_signals: true,
            collect_observations: true,
        }
    }
}

/// Server configuration.
#[derive(Debug, Clone)]
pub struct ServerConfig {
    pub host: String,
    pub port: u16,
    pub enable_cors: bool,
    pub max_connections: usize,
}

impl Default for ServerConfig {
    fn default() -> (r: Self)
        ensures
            r.host@ == "0.0.0.0"@,
            r.port == 8080,
            r.enable_cors,
            r.max_connections == 100,
    {
        ServerConfig { host: String::from_str("0.0.0.0"), port: 8080, enable_cors: true, max_connections: 100 }
    }
}

/// Simple test state.
#[derive(Clone)]
pub struct TestState {
    pub value: String,
}

} // verus!
