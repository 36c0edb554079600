//! Status vocabularies of the monitoring views: agents, system health and
//! tasks, with the colour and icon each is shown with.

use vstd::prelude::*;

verus! {

/// Agent operational status.
#[derive(Debug, Clone, PartialEq, Eq, Structural)]
pub enum AgentStatus {
    /// Agent is idle
    Idle,
    /// Agent is working on a task
    Active,
    /// Agent is waiting for resources
    Waiting,
    /// Agent encountered an error
    Error,
    /// Agent is offline/unavailable
    Offline,
}

impl AgentStatus {
    pub open spec fn color(&self) -> Seq<char> {
        match self {
            AgentStatus::Idle => "gray"@,
            AgentStatus::Active => "green"@,
            AgentStatus::Waiting => "yellow"@,
            AgentStatus::Error => "red"@,
            AgentStatus::Offline => "dark-gray"@,
        }
    }

    pub open spec fn icon(&self) -> Seq<char> {
        match self {
            AgentStatus::Idle => "⏸"@,
            AgentStatus::Active => "▶"@,
            AgentStatus::Waiting => "⏳"@,
            AgentStatus::Error => "⚠"@,
            AgentStatus::Offline => "⭕"@,
        }
    }

    /// The colour the status is shown in.
    pub fn to_color(&self) -> (r: &'static str)
        ensures
            r@ == self.color(),
    {
        match self {
            AgentStatus::Idle => "gray",
            AgentStatus::Active => "green",
            AgentStatus::Waiting => "yellow",
            AgentStatus::Error => "red",
            AgentStatus::Offline => "dark-gray",
        }
    }

    /// The icon the status is shown with.
    pub fn to_icon(&self) -> (r: &'static str)
        ensures
            r@ == self.icon(),
    {
        match self {
            AgentStatus::Idle => "⏸",
            AgentStatus::Active => "▶",
            AgentStatus::Waiting => "⏳",
            AgentStatus::Error => "⚠",
            AgentStatus::Offline => "⭕",
        }
    }
}

/// Trust categories, from the highest to the lowest.
#[derive(Debug, Clone, PartialEq, Eq, Structural)]
pub enum TrustCategory {
    /// Fully trusted (0.9-1.0)
    FullyTrusted,
    /// Highly trusted (0.7-0.9)
    HighlyTrusted,
    /// Moderately trusted (0.5-0.7)
    ModeratelyTrusted,
    /// Limited trust (0.3-0.5)
    LimitedTrust,
    /// Minimal trust (0.1-0.3)
    MinimalTrust,
    /// Untrusted (0.0-0.1)
    Untrusted,
}

impl TrustCategory {
    pub open spec fn color(&self) -> Seq<char> {
        match self {
            TrustCategory::FullyTrusted => "bright-green"@,
            TrustCategory::HighlyTrusted => "green"@,
            TrustCategory::ModeratelyTrusted => "yellow"@,
            TrustCategory::LimitedTrust => "orange"@,
            TrustCategory::MinimalTrust => "red"@,
            TrustCategory::Untrusted => "dark-red"@,
        }
    }

    /// The colour the category is shown in.
    pub fn to_color(&self) -> (r: &'static str)
        ensures
            r@ == self.color(),
    {
        match self {
            TrustCategory::FullyTrusted => "bright-green",
            TrustCategory::HighlyTrusted => "green",
            TrustCategory::ModeratelyTrusted => "yellow",
            TrustCategory::LimitedTrust => "orange",
            TrustCategory::MinimalTrust => "red",
            TrustCategory::Untrusted => "dark-red",
        }
    }
}

/// Permission levels.
#[derive(Debug, Clone, PartialEq, Eq, Structural)]
pub enum PermissionLevel {
    /// Can only read data
    ReadOnly,
    /// Can read and write local files
    ReadWrite,
    /// Can execute commands
    Execute,
    /// Can access network
    Network,
    /// Full system access
    Full,
}

/// Agent capabilities.
#[derive(Debug, Clone)]
pub struct AgentCapabilities {
    /// Tools the agent declared it can use (each once)
    pub declared_tools: Vec<String>,
    /// Tools the agent actually uses (each once)
    pub used_tools: Vec<String>,
    /// Inferred capabilities from behavior
    pub inferred_capabilities: Vec<String>,
    /// Tool usage frequency, by tool name
    pub tool_frequency: Vec<(String, usize)>,
    /// Permission level
    pub permission_level: PermissionLevel,
}

/// Anomaly severity.
#[derive(Debug, Clone, PartialEq, Eq, Structural)]
pub enum AnomalySeverity {
    Low,
    Medium,
    High,
    Critical,
}

impl AnomalySeverity {
    pub open spec fn color(&self) -> Seq<char> {
        match self {
            AnomalySeverity::Low => "yellow"@,
            AnomalySeverity::Medium => "orange"@,
            AnomalySeverity::High => "red"@,
            AnomalySeverity::Critical => "dark-red"@,
        }
    }

    /// The colour the severity is shown in.
    pub fn to_color(&self) -> (r: &'static str)
        ensures
            r@ == self.color(),
    {
        match self {
            AnomalySeverity::Low => "yellow",
            AnomalySeverity::Medium => "orange",
            AnomalySeverity::High => "red",
            AnomalySeverity::Critical => "dark-red",
        }
    }
}

/// Overall health status, from the best to the worst.
#[derive(Debug, Clone, PartialEq, Eq, Structural)]
pub enum HealthStatus {
    /// All systems operational
    Healthy,
    /// Minor issues present
    Degraded,
    /// Major issues affecting performance
    Impaired,
    /// Critical issues requiring attention
    Critical,
    /// System is down
    Down,
}

impl HealthStatus {
    pub open spec fn color(&self) -> Seq<char> {
        match self {
            HealthStatus::Healthy => "green"@,
            HealthStatus::Degraded => "yellow"@,
            HealthStatus::Impaired => "orange"@,
            HealthStatus::Critical => "red"@,
            HealthStatus::Down => "dark-red"@,
        }
    }

    pub open spec fn icon(&self) -> Seq<char> {
        match self {
            HealthStatus::Healthy => "✅"@,
            HealthStatus::Degraded => "⚠️"@,
            HealthStatus::Impaired => "🔶"@,
            HealthStatus::Critical => "🔴"@,
            HealthStatus::Down => "💀"@,
        }
    }

    /// The colour the status is shown in.
    pub fn to_color(&self) -> (r: &'static str)
        ensures
            r@ == self.color(),
    {
        match self {
            HealthStatus::Healthy => "green",
            HealthStatus::Degraded => "yellow",
            HealthStatus::Impaired => "orange",
            HealthStatus::Critical => "red",
            HealthStatus::Down => "dark-red",
        }
    }

    /// The icon the status is shown with.
    pub fn to_icon(&self) -> (r: &'static str)
        ensures
            r@ == self.icon(),
    {
        match self {
            HealthStatus::Healthy => "✅",
            HealthStatus::Degraded => "⚠️",
            HealthStatus::Impaired => "🔶",
            HealthStatus::Critical => "🔴",
            HealthStatus::Down => "💀",
        }
    }
}

/// Type of service.
#[derive(Debug, Clone, PartialEq, Eq, Structural)]
pub enum ServiceType {
    /// Intent execution service
    IntentExecutor,
    /// Agent manager
    AgentManager,
    /// Verification service
    Verifier,
    /// Monitoring service
    Monitor,
    /// Queue manager
    QueueManager,
    /// Data store
    Storage,
}

/// Service operational status.
#[derive(Debug, Clone, PartialEq, Eq, Structural)]
pub enum ServiceStatus {
    /// Operating normally
    Online,
    /// Slow but responding
    Slow,
    /// Not responding
    Unresponsive,
    /// Service is offline
    Offline,
}

impl ServiceStatus {
    pub open spec fn color(&self) -> Seq<char> {
        match self {
            ServiceStatus::Online => "green"@,
            ServiceStatus::Slow => "yellow"@,
            ServiceStatus::Unresponsive => "orange"@,
            ServiceStatus::Offline => "red"@,
        }
    }

    /// The colour the status is shown in.
    pub fn to_color(&self) -> (r: &'static str)
        ensures
            r@ == self.color(),
    {
        match self {
            ServiceStatus::Online => "green",
            ServiceStatus::Slow => "yellow",
            ServiceStatus::Unresponsive => "orange",
            ServiceStatus::Offline => "red",
        }
    }
}

/// Alert severity levels, in increasing order.
#[derive(Debug, Clone, PartialEq, Eq, Structural, PartialOrd, Ord)]
pub enum AlertSeverity {
    Info,
    Warning,
    Error,
    Critical,
}

impl AlertSeverity {
    pub open spec fn color(&self) -> Seq<char> {
        match self {
            AlertSeverity::Info => "blue"@,
            AlertSeverity::Warning => "yellow"@,
            AlertSeverity::Error => "orange"@,
            AlertSeverity::Critical => "red"@,
        }
    }

    /// The colour the severity is shown in.
    pub fn to_color(&self) -> (r: &'static str)
        ensures
            r@ == self.color(),
    {
        match self {
            AlertSeverity::Info => "blue",
            AlertSeverity::Warning => "yellow",
            AlertSeverity::Error => "orange",
            AlertSeverity::Critical => "red",
        }
    }
}

/// Alert categories.
#[derive(Debug, Clone, PartialEq, Eq, Structural)]
pub enum AlertCategory {
    Performance,
    Resource,
    Security,
    Availability,
    Configuration,
}

/// Recommendation categories.
#[derive(Debug, Clone, PartialEq, Eq, Structural)]
pub enum RecommendationCategory {
    Performance,
    Scaling,
    Configuration,
    Security,
    Monitoring,
}

/// Priority levels, in increasing order.
#[derive(Debug, Clone, PartialEq, Eq, Structural, PartialOrd, Ord)]
pub enum Priority {
    Low,
    Medium,
    High,
    Urgent,
}

/// System improvement recommendation.
#[derive(Debug, Clone)]
pub struct Recommendation {
    /// Recommendation category
    pub category: RecommendationCategory,
    /// Priority
    pub priority: Priority,
    /// Title
    pub title: String,
    /// Description
    pub description: String,
    /// Expected impact
    pub impact: String,
    /// Implementation steps
    pub steps: Vec<String>,
}

/// Task execution status.
#[derive(Debug, Clone, PartialEq, Eq, Structural)]
pub enum TaskStatus {
    /// Not yet started
    Pending,
    /// Currently being planned
    Planning,
    /// Being verified before execution
    Verifying,
    /// Currently executing
    Executing,
    /// Paused or suspended
    Suspended,
    /// Completed successfully
    Completed,
    /// Failed to complete
    Failed,
    /// Cancelled by user or system
    Cancelled,
}

impl TaskStatus {
    pub open spec fn active(&self) -> bool {
        self is Planning || self is Verifying || self is Executing
    }

    pub open spec fn terminal(&self) -> bool {
        self is Completed || self is Failed || self is Cancelled
    }

    pub open spec fn color(&self) -> Seq<char> {
        match self {
            TaskStatus::Pending => "gray"@,
            TaskStatus::Planning | TaskStatus::Verifying => "blue"@,
            TaskStatus::Executing => "yellow"@,
            TaskStatus::Suspended => "orange"@,
            TaskStatus::Completed => "green"@,
            TaskStatus::Failed => "red"@,
            TaskStatus::Cancelled => "gray"@,
        }
    }

    /// Whether the task is being planned, verified or executed.
    pub fn is_active(&self) -> (r: bool)
        ensures
            r == self.active(),
    {
        match self {
            TaskStatus::Planning | TaskStatus::Verifying | TaskStatus::Executing => true,
            _ => false,
        }
    }

    /// Whether the task has completed, failed or been cancelled.
    pub fn is_terminal(&self) -> (r: bool)
        ensures
            r == self.terminal(),
    {
        match self {
            TaskStatus::Completed | TaskStatus::Failed | TaskStatus::Cancelled => true,
            _ => false,
        }
    }

    /// The colour the status is shown in.
    pub fn to_color(&self) -> (r: &'static str)
        ensures
            r@ == self.color(),
    {
        match self {
            TaskStatus::Pending => "gray",
            TaskStatus::Planning | TaskStatus::Verifying => "blue",
            TaskStatus::Executing => "yellow",
            TaskStatus::Suspended => "orange",
            TaskStatus::Completed => "green",
            TaskStatus::Failed => "red",
            TaskStatus::Cancelled => "gray",
        }
    }
}

/// No status is both active and terminal.
pub proof fn active_excludes_terminal(s: TaskStatus)
    ensures
        !(s.active() && s.terminal()),
{
}

/// Phase of task execution.
#[derive(Debug, Clone, PartialEq, Eq, Structural)]
pub enum TaskPhase {
    /// Initial setup
    Initialization,
    /// Breaking down into sub-tasks
    Decomposition,
    /// Assigning agents to sub-tasks
    AgentAssignment,
    /// Verifying preconditions
    PreconditionCheck,
    /// Main execution
    Execution,
    /// Verifying postconditions
    PostconditionCheck,
    /// Cleanup and finalization
    Cleanup,
}

/// Event severity levels.
#[derive(Debug, Clone, PartialEq, Eq, Structural)]
pub enum EventSeverity {
    Debug,
    Info,
    Warning,
    Error,
    Critical,
}

/// A significant event on a task's timeline. The timestamp is in
/// milliseconds since the Unix epoch.
#[derive(Debug, Clone)]
pub struct TimelineEvent {
    pub timestamp_ms: i64,
    pub event_type: String,
    pub description: String,
    pub agent_id: Option<String>,
    pub severity: EventSeverity,
}

/// The events are in order of their timestamps.
pub open spec fn timeline_sorted(es: Seq<TimelineEvent>) -> bool {
    forall|i: int, j: int| 0 <= i < j < es.len() ==> (#[trigger] es[i]).timestamp_ms <= (#[trigger] es[j]).timestamp_ms
}

/// Where an event at `ts` goes in a sorted timeline: after every event at
/// `ts` or earlier, before every later one.
pub open spec fn timeline_slot(es: Seq<TimelineEvent>, ts: i64, p: int) -> bool {
    &&& 0 <= p <= es.len()
    &&& forall|i: int| 0 <= i < p ==> (#[trigger] es[i]).timestamp_ms <= ts
    &&& forall|i: int| p <= i < es.len() ==> (#[trigger] es[i]).timestamp_ms > ts
}

/// A task's timeline of significant events, kept in order of time.
#[derive(Debug)]
pub struct TaskTimeline {
    events: Vec<TimelineEvent>,
}

impl TaskTimeline {
    pub closed spec fn events_spec(&self) -> Seq<TimelineEvent> {
        self.events@
    }

    /// An empty timeline.
    pub fn new() -> (r: Self)
        ensures
            r.events_spec() == Seq::<TimelineEvent>::empty(),
    {
        TaskTimeline { events: Vec::new() }
    }

    /// The events, in order of time.
    pub fn events(&self) -> (r: &Vec<TimelineEvent>)
        ensures
            r@ == self.events_spec(),
    {
        &self.events
    }

    /// Adds an event and keeps the timeline in order of time: the event
    /// goes after every event at its time or earlier (as a stable sort by
    /// timestamp after appending it would place it), before every later
    /// one.
    pub fn add_event(&mut self, event: TimelineEvent)
        requires
            timeline_sorted(old(self).events_spec()),
        ensures
            timeline_sorted(final(self).events_spec()),
            exists|p: int| #[trigger] timeline_slot(old(self).events_spec(), event.timestamp_ms, p) && final(self).events_spec()
                == old(self).events_spec().insert(p, event),
    {
        let ghost es = self.events@;
        let ts = event.timestamp_ms;
        let n = self.events.len();
        let mut p: usize = 0;
        while p < n && self.events[p].timestamp_ms <= ts
            invariant
                es == self.events@,
                n == es.len(),
                p <= n,
                forall|i: int| 0 <= i < p ==> (#[trigger] es[i]).timestamp_ms <= ts,
            decreases n - p,
        {
            p = p + 1;
        }
        proof {
            if p < n {
                assert forall|i: int| p <= i < es.len() implies (#[trigger] es[i]).timestamp_ms > ts by {
                    if i > p {
                        assert(es[p as int].timestamp_ms <= es[i].timestamp_ms);
                    }
                }
            }
            assert(timeline_slot(es, ts, p as int));
        }
        self.events.insert(p, event);
        proof {
            let ns = self.events@;
            assert(ns == es.insert(p as int, event));
            assert forall|i: int, j: int| 0 <= i < j < ns.len() implies (#[trigger] ns[i]).timestamp_ms
                <= (#[trigger] ns[j]).timestamp_ms by {
                if j < p {
                    assert(ns[i] == es[i] && ns[j] == es[j]);
                } else if j == p {
                    assert(ns[i] == es[i]);
                } else if i < p {
                    assert(ns[i] == es[i] && ns[j] == es[j - 1]);
                } else if i == p {
                    assert(ns[j] == es[j - 1]);
                } else {
                    assert(ns[i] == es[i - 1] && ns[j] == es[j - 1]);
                }
            }
        }
    }
}

} // verus!
