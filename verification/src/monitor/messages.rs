//! The status messages of the monitoring views: the one-line summary of the
//! system's health and the sentence saying what an agent is doing. They
//! read only counts, names and statuses.

use vstd::prelude::*;
use crate::monitor::views::{AgentStatus, AlertSeverity, HealthStatus, ServiceStatus};
use crate::text::{decimal_chars, append_decimal};

verus! {

/// How many of the alerts are critical.
pub open spec fn critical_count(alerts: Seq<AlertSeverity>) -> nat
    decreases alerts.len(),
{
    if alerts.len() == 0 {
        0
    } else {
        critical_count(alerts.drop_last()) + if alerts.last() == AlertSeverity::Critical { 1nat } else { 0nat }
    }
}

/// How many of the services are not online.
pub open spec fn affected_count(services: Seq<ServiceStatus>) -> nat
    decreases services.len(),
{
    if services.len() == 0 {
        0
    } else {
        affected_count(services.drop_last()) + if services.last() != ServiceStatus::Online { 1nat } else { 0nat }
    }
}

/// The summary of the system's health, from its status, the statuses of
/// its services and the severities of its active alerts.
pub open spec fn health_summary_text(
    status: HealthStatus,
    services: Seq<ServiceStatus>,
    alerts: Seq<AlertSeverity>,
) -> Seq<char> {
    match status {
        HealthStatus::Healthy => "System is healthy. All "@ + decimal_chars(services.len()) + " services operational."@,
        HealthStatus::Degraded => "System is degraded with "@ + decimal_chars(alerts.len()) + " active alerts ("@
            + decimal_chars(critical_count(alerts)) + " critical)."@,
        HealthStatus::Impaired => "System is impaired. "@ + decimal_chars(affected_count(services))
            + " services affected, "@ + decimal_chars(alerts.len()) + " alerts active."@,
        HealthStatus::Critical => "CRITICAL: System experiencing major issues. "@ + decimal_chars(
            critical_count(alerts),
        ) + " critical alerts active."@,
        HealthStatus::Down => "System is DOWN. Immediate attention required."@,
    }
}

fn count_critical(alerts: &Vec<AlertSeverity>) -> (r: usize)
    ensures
        r == critical_count(alerts@),
{
    let mut n: usize = 0;
    let mut i: usize = 0;
    while i < alerts.len()
        invariant
            i <= alerts@.len(),
            n == critical_count(alerts@.take(i as int)),
            n <= i,
        decreases alerts@.len() - i,
    {
        assert(alerts@.take(i + 1).drop_last() =~= alerts@.take(i as int));
        if alerts[i] == AlertSeverity::Critical {
            n = n + 1;
        }
        i = i + 1;
    }
    assert(alerts@.take(i as int) =~= alerts@);
    n
}

fn count_affected(services: &Vec<ServiceStatus>) -> (r: usize)
    ensures
        r == affected_count(services@),
{
    let mut n: usize = 0;
    let mut i: usize = 0;
    while i < services.len()
        invariant
            i <= services@.len(),
            n == affected_count(services@.take(i as int)),
            n <= i,
        decreases services@.len() - i,
    {
        assert(services@.take(i + 1).drop_last() =~= services@.take(i as int));
        if services[i] != ServiceStatus::Online {
            n = n + 1;
        }
        i = i + 1;
    }
    assert(services@.take(i as int) =~= services@);
    n
}

/// The one-line summary of the system's health (see `health_summary_text`).
pub fn health_summary(status: &HealthStatus, services: &Vec<ServiceStatus>, alerts: &Vec<AlertSeverity>) -> (r: String)
    ensures
        r@ == health_summary_text(*status, services@, alerts@),
{
    match status {
        HealthStatus::Healthy => {
            let mut s = String::from_str("System is healthy. All ");
            append_decimal(&mut s, services.len());
            s.append(" services operational.");
            s
        },
        HealthStatus::Degraded => {
            let mut s = String::from_str("System is degraded with ");
            append_decimal(&mut s, alerts.len());
            s.append(" active alerts (");
            append_decimal(&mut s, count_critical(alerts));
            s.append(" critical).");
            s
        },
        HealthStatus::Impaired => {
            let mut s = String::from_str("System is impaired. ");
            append_decimal(&mut s, count_affected(services));
            s.append(" services affected, ");
            append_decimal(&mut s, alerts.len());
            s.append(" alerts active.");
            s
        },
        HealthStatus::Critical => {
            let mut s = String::from_str("CRITICAL: System experiencing major issues. ");
            append_decimal(&mut s, count_critical(alerts));
            s.append(" critical alerts active.");
            s
        },
        HealthStatus::Down => String::from_str("System is DOWN. Immediate attention required."),
    }
}

/// What an agent named `name` is doing, by its status and, for an active
/// agent, its current activity.
pub open spec fn agent_message_text(name: Seq<char>, status: AgentStatus, activity: Option<Seq<char>>) -> Seq<char> {
    match status {
        AgentStatus::Idle => name + " is idle and ready for tasks"@,
        AgentStatus::Active => match activity {
            Some(a) => name + " is "@ + a,
            None => name + " is actively working"@,
        },
        AgentStatus::Waiting => name + " is waiting for resources"@,
        AgentStatus::Error => name + " encountered an error"@,
        AgentStatus::Offline => name + " is offline"@,
    }
}

/// The status message of an agent (see `agent_message_text`).
pub fn agent_status_message(name: &str, status: &AgentStatus, activity: Option<&str>) -> (r: String)
    ensures
        r@ == agent_message_text(
            name@,
            *status,
            match activity {
                Some(a) => Some(a@),
                None => None,
            },
        ),
{
    let mut s = String::from_str(name);
    match status {
        AgentStatus::Idle => s.append(" is idle and ready for tasks"),
        AgentStatus::Active => match activity {
            Some(a) => {
                s.append(" is ");
                s.append(a);
            },
            None => s.append(" is actively working"),
        },
        AgentStatus::Waiting => s.append(" is waiting for resources"),
        AgentStatus::Error => s.append(" encountered an error"),
        AgentStatus::Offline => s.append(" is offline"),
    }
    s
}

} // verus!
