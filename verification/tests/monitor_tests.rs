use synapsed::monitor::narrator::{
    CollectorConfig, EventNarrator, EventPattern, Importance, NarrativeStyle, NarrativeType, ServerConfig,
};
use synapsed::monitor::templates::{NarrativeTemplate, TemplateEngine};
use synapsed::monitor::views::{
    AgentStatus, AlertSeverity, AnomalySeverity, HealthStatus, ServiceStatus, TaskStatus, TrustCategory,
};

fn pairs(items: &[(&str, &str)]) -> Vec<(String, String)> {
    items.iter().map(|(k, v)| (k.to_string(), v.to_string())).collect()
}

#[test]
fn test_template_extraction() {
    let template = NarrativeTemplate::new("Agent {name} is {status} with trust {trust}%".to_string());

    assert_eq!(template.variables, vec!["name", "status", "trust"]);
}

#[test]
fn test_template_application() {
    let template = NarrativeTemplate::new("Task {task} is {progress}% complete".to_string());

    let values = pairs(&[("task", "Build API"), ("progress", "75")]);

    let result = template.apply(&values);
    assert_eq!(result, "Task Build API is 75% complete");
}

#[test]
fn template_extraction_edge_cases() {
    assert!(NarrativeTemplate::new("no variables here".to_string()).variables.is_empty());
    assert_eq!(NarrativeTemplate::new("{}{a}".to_string()).variables, vec!["a"]);
    assert_eq!(NarrativeTemplate::new("{x{y}".to_string()).variables, vec!["y"]);
    assert_eq!(NarrativeTemplate::new("a}b{c".to_string()).variables, Vec::<String>::new());
}

#[test]
fn template_application_leaves_unknown_and_repeats() {
    let template = NarrativeTemplate::new("{a} and {a} but {b}".to_string());
    let result = template.apply(&pairs(&[("a", "x"), ("a", "ignored")]));
    assert_eq!(result, "x and x but {b}");
}

#[test]
fn engine_generates_builtin_templates() {
    let engine = TemplateEngine::new();
    let text = engine
        .generate("system.healthy", pairs(&[("services", "5"), ("agents", "3")]))
        .unwrap();
    assert_eq!(text, "System is operating normally. 5 services online, 3 agents active.");
    assert!(engine.generate("no.such.template", vec![]).is_none());
}

#[test]
fn engine_add_template_replaces_by_name() {
    let mut engine = TemplateEngine::new();
    engine.add_template("task.started".to_string(), NarrativeTemplate::new("Go {name}".to_string()));
    engine.add_template("custom".to_string(), NarrativeTemplate::new("Hi {who}".to_string()));
    assert_eq!(engine.generate("task.started", pairs(&[("name", "T")])).unwrap(), "Go T");
    assert_eq!(engine.generate("custom", pairs(&[("who", "you")])).unwrap(), "Hi you");
    assert_eq!(
        engine.generate("agent.tool_use", pairs(&[("name", "A"), ("tool", "grep"), ("purpose", "search")])).unwrap(),
        "Agent 'A' is using tool 'grep' to search"
    );
}

#[test]
fn view_colors_and_icons() {
    assert_eq!(AgentStatus::Offline.to_color(), "dark-gray");
    assert_eq!(AgentStatus::Active.to_icon(), "▶");
    assert_eq!(TrustCategory::FullyTrusted.to_color(), "bright-green");
    assert_eq!(AnomalySeverity::Critical.to_color(), "dark-red");
    assert_eq!(HealthStatus::Degraded.to_color(), "yellow");
    assert_eq!(HealthStatus::Down.to_icon(), "💀");
    assert_eq!(ServiceStatus::Unresponsive.to_color(), "orange");
    assert_eq!(AlertSeverity::Info.to_color(), "blue");
    assert_eq!(TaskStatus::Verifying.to_color(), "blue");
    assert_eq!(TaskStatus::Cancelled.to_color(), "gray");
}

#[test]
fn task_status_activity() {
    assert!(TaskStatus::Planning.is_active());
    assert!(!TaskStatus::Pending.is_active());
    assert!(TaskStatus::Cancelled.is_terminal());
    assert!(!TaskStatus::Executing.is_terminal());
    for s in [
        TaskStatus::Pending,
        TaskStatus::Planning,
        TaskStatus::Verifying,
        TaskStatus::Executing,
        TaskStatus::Suspended,
        TaskStatus::Completed,
        TaskStatus::Failed,
        TaskStatus::Cancelled,
    ] {
        assert!(!(s.is_active() && s.is_terminal()));
    }
}

#[test]
fn narrator_decisions() {
    let narrator = EventNarrator::new(NarrativeStyle::Technical);
    assert_eq!(narrator.style(), NarrativeStyle::Technical);
    assert_eq!(narrator.determine_importance(Some(EventPattern::AnomalousBehavior)), Importance::Critical);
    assert_eq!(narrator.determine_importance(Some(EventPattern::RepeatedFailure)), Importance::High);
    assert_eq!(narrator.determine_importance(Some(EventPattern::ResourceContention)), Importance::Medium);
    assert_eq!(narrator.determine_importance(None), Importance::Low);
    assert_eq!(
        narrator.determine_narrative_type(Some(EventPattern::PerformanceDegradation)),
        NarrativeType::Performance
    );
    assert_eq!(narrator.determine_narrative_type(None), NarrativeType::TaskUpdate);
    let actions = narrator.suggest_actions(Some(EventPattern::RepeatedFailure));
    assert_eq!(actions.len(), 1);
    assert_eq!(actions[0].action, "Review error logs");
    assert_eq!(actions[0].urgency, Importance::High);
    assert!(narrator.suggest_actions(Some(EventPattern::NormalExecution)).is_empty());
    assert!(narrator.pattern_narrative(EventPattern::NormalExecution).is_none());
    assert!(narrator.pattern_narrative(EventPattern::RetrySuccess).unwrap().starts_with("The task succeeded"));
    assert_eq!(narrator.health_importance(&HealthStatus::Down), Importance::Critical);
    assert_eq!(narrator.health_importance(&HealthStatus::Healthy), Importance::Low);
    assert_eq!(narrator.task_importance(&TaskStatus::Failed), Importance::High);
    assert_eq!(narrator.task_importance(&TaskStatus::Executing), Importance::Medium);
    assert_eq!(narrator.agent_importance(2, false), Importance::High);
    assert_eq!(narrator.agent_importance(0, true), Importance::Medium);
    assert_eq!(narrator.agent_importance(0, false), Importance::Low);
    assert_eq!(narrator.executive_status(&TaskStatus::Suspended), "Pending");
    assert_eq!(narrator.agent_activity_phrase(&AgentStatus::Idle), "ready for tasks");
    assert!(Importance::Critical > Importance::High);
}

#[test]
fn monitor_defaults() {
    let c = CollectorConfig::default();
    assert_eq!(c.buffer_size, 10000);
    assert_eq!(c.retention_seconds, 3600);
    let s = ServerConfig::default();
    assert_eq!(s.host, "0.0.0.0");
    assert_eq!(s.port, 8080);
    assert_eq!(s.max_connections, 100);
}

use synapsed::monitor::aggregator::{
    extract_intent_id, generate_summary, parse_intent_from_id, CollectedEvent, EventAggregator, MonitorError,
    TimeWindow,
};
use synapsed::monitor::narrator::PatternType;
use synapsed::monitor::patterns::PatternDetector;

fn signal(service: &str, text: &str, at: i64) -> CollectedEvent {
    CollectedEvent::ServentisSignal { service_id: service.to_string(), signal: text.to_string(), timestamp: at }
}

fn observation(outcome: &str, at: i64) -> CollectedEvent {
    CollectedEvent::ServentisObservation {
        probe_id: "p".to_string(),
        operation: "op".to_string(),
        origin: "o".to_string(),
        outcome: outcome.to_string(),
        timestamp: at,
    }
}

const UUID_TEXT: &str = "67e55044-10b1-426f-9247-bb680e5fe0c8";

#[test]
fn intent_ids_from_component_ids() {
    let expected = 0x67e5504410b1426f9247bb680e5fe0c8u128;
    assert_eq!(parse_intent_from_id(&format!("intent-service-{}", UUID_TEXT)).unwrap(), expected);
    assert!(matches!(parse_intent_from_id("no-dashes"), Err(MonitorError::AggregationError(_))));
    assert!(matches!(parse_intent_from_id("a-b-not-a-uuid"), Err(MonitorError::AggregationError(_))));
    let e = CollectedEvent::SubstratesMetric { intent_id: 7, metric_type: "queue_depth".to_string(), timestamp: 1 };
    assert_eq!(extract_intent_id(&e).unwrap(), 7);
}

#[test]
fn summaries() {
    assert_eq!(generate_summary(&None, 12), "12 events in correlation window");
    assert_eq!(
        generate_summary(&Some(EventPattern::NormalExecution), 3),
        "Task completed successfully (3 events)"
    );
    assert_eq!(generate_summary(&Some(EventPattern::RepeatedFailure), 3), "Task failed multiple times");
}

#[test]
fn time_windows() {
    let w = TimeWindow::new(1000, 1000);
    assert!(w.contains(1000) && w.contains(2000));
    assert!(!w.contains(2001) && !w.contains(999));
}

#[test]
fn aggregator_correlates_by_window_and_pattern() {
    let service = format!("intent-service-{}", UUID_TEXT);
    let mut agg = EventAggregator::new();
    agg.process_event(signal(&service, "TaskStart", 0)).unwrap();
    agg.process_event(signal(&service, "TaskSuccess", 500)).unwrap();
    agg.process_event(signal(&service, "TaskStop", 900)).unwrap();
    let all = agg.get_correlated_events();
    assert_eq!(all.len(), 3);
    let last = &all[2];
    assert_eq!(last.serventis_events.len(), 3);
    assert_eq!(last.pattern, Some(EventPattern::NormalExecution));
    assert_eq!(last.summary, "Task completed successfully (3 events)");
    agg.process_event(signal(&service, "RetryStart", 5000)).unwrap();
    let all = agg.get_correlated_events();
    assert_eq!(all.len(), 5);
    assert_eq!(all[4].time_window, TimeWindow::new(5000, 1000));
    assert_eq!(all[4].serventis_events.len(), 1);
    assert_eq!(all[4].pattern, Some(EventPattern::RepeatedFailure));
    assert!(agg.process_event(signal("bad", "x", 1)).is_err());
    assert_eq!(agg.get_correlated_events().len(), 5);
}

#[test]
fn aggregator_detects_anomalies_and_failures() {
    let mut agg = EventAggregator::new();
    agg.process_event(CollectedEvent::SubstratesEvent {
        intent_id: 3,
        event_type: "x".to_string(),
        timestamp: 10,
        anomaly: true,
    })
    .unwrap();
    assert_eq!(agg.get_correlated_events()[0].pattern, Some(EventPattern::AnomalousBehavior));
    assert_eq!(agg.get_correlated_events()[0].substrates_events.len(), 1);
}

#[test]
fn pattern_detector_finds_lifecycle_recovery_and_progress() {
    let mut d = PatternDetector::new();
    assert!(d.process_event(signal("s", "Start", 0)).is_none());
    let p = d.process_event(signal("s", "Stop", 1)).unwrap();
    assert_eq!(p.pattern_type, PatternType::TaskLifecycle);
    assert_eq!(p.confidence_percent, 90);
    assert_eq!(p.events, vec!["start", "stop"]);

    let mut d = PatternDetector::new();
    d.process_event(signal("s", "Fail", 0));
    let p = d.process_event(signal("s", "Success", 1)).unwrap();
    assert_eq!(p.pattern_type, PatternType::ErrorRecovery);

    let mut d = PatternDetector::new();
    let mut last = None;
    for i in 0..11 {
        last = d.process_event(observation("Success", i));
    }
    let p = last.unwrap();
    assert_eq!(p.pattern_type, PatternType::NormalProgression);
    assert_eq!(p.events, vec!["11 successes"]);
}

#[test]
fn pattern_detector_history_is_bounded() {
    let mut d = PatternDetector::new();
    for i in 0..1005 {
        d.process_event(observation("Failure", i));
    }
    assert_eq!(d.history().len(), 1000);
}

use synapsed::monitor::aggregator::create_correlated_event;

#[test]
fn narrates_a_normal_execution_by_style() {
    let id = 0x67e5504410b1426f9247bb680e5fe0c8u128;
    let events = vec![
        signal("s", "TaskStart", 3661000),
        signal("s", "TaskSuccess", 3661500),
        signal("s", "TaskStop", 3662000),
    ];
    let event = create_correlated_event(id, TimeWindow::new(3661000, 2500), events);
    assert_eq!(event.pattern, Some(EventPattern::NormalExecution));

    let concise = EventNarrator::new(NarrativeStyle::Concise).narrate_event(&event);
    assert_eq!(concise.text, "Task executed successfully in 2500ms.");
    assert_eq!(concise.narrative_type, NarrativeType::TaskUpdate);
    assert_eq!(concise.importance, Importance::Low);
    assert_eq!(concise.related_entities, vec![UUID_TEXT.to_string()]);
    assert_eq!(
        concise.key_points,
        vec!["Pattern: NormalExecution", "Duration: 2500ms", "Events: 0 Substrates, 3 Serventis"]
    );
    assert!(concise.actions.is_empty());

    let technical = EventNarrator::new(NarrativeStyle::Technical).narrate_event(&event);
    assert_eq!(
        technical.text,
        "The task completed successfully. It started at 01:01:01 and finished at 01:01:03, processing 3 events without any issues."
    );
}

#[test]
fn narrates_times_before_the_epoch_and_other_patterns() {
    let events = vec![signal("s", "TaskStart", -1000), signal("s", "TaskSuccess", -900), signal("s", "TaskStop", -800)];
    let event = create_correlated_event(1, TimeWindow::new(-1000, 1000), events);
    let n = EventNarrator::new(NarrativeStyle::Executive).narrate_event(&event);
    assert_eq!(
        n.text,
        "The task completed successfully. It started at 23:59:59 and finished at 00:00:00, processing 3 events without any issues."
    );
    assert_eq!(n.related_entities, vec!["00000000-0000-0000-0000-000000000001".to_string()]);

    let anomaly = CollectedEvent::SubstratesEvent { intent_id: 2, event_type: "x".to_string(), timestamp: 0, anomaly: true };
    let event = create_correlated_event(2, TimeWindow::new(0, 1000), vec![anomaly]);
    let n = EventNarrator::new(NarrativeStyle::Concise).narrate_event(&event);
    assert_eq!(n.text, "Anomalous behavior detected. An agent is behaving unexpectedly - this requires review.");
    assert_eq!(n.importance, Importance::Critical);
    assert_eq!(n.narrative_type, NarrativeType::Anomaly);
    assert_eq!(n.actions.len(), 1);
    assert_eq!(n.actions[0].action, "Review agent permissions");

    let event = create_correlated_event(3, TimeWindow::new(0, 1000), vec![signal("s", "Heartbeat", 5)]);
    let n = EventNarrator::new(NarrativeStyle::Conversational).narrate_event(&event);
    assert_eq!(event.pattern, None);
    assert_eq!(n.text, "1 events occurred in this time window.");
    assert_eq!(n.key_points, vec!["Duration: 1000ms", "Events: 0 Substrates, 1 Serventis"]);
}

use synapsed::monitor::messages::{agent_status_message, health_summary};

#[test]
fn health_summaries_by_status() {
    let services = vec![ServiceStatus::Online, ServiceStatus::Slow, ServiceStatus::Offline];
    let alerts = vec![AlertSeverity::Critical, AlertSeverity::Info, AlertSeverity::Critical];
    assert_eq!(health_summary(&HealthStatus::Healthy, &services, &alerts), "System is healthy. All 3 services operational.");
    assert_eq!(
        health_summary(&HealthStatus::Degraded, &services, &alerts),
        "System is degraded with 3 active alerts (2 critical)."
    );
    assert_eq!(
        health_summary(&HealthStatus::Impaired, &services, &alerts),
        "System is impaired. 2 services affected, 3 alerts active."
    );
    assert_eq!(
        health_summary(&HealthStatus::Critical, &services, &alerts),
        "CRITICAL: System experiencing major issues. 2 critical alerts active."
    );
    assert_eq!(
        health_summary(&HealthStatus::Down, &vec![], &vec![]),
        "System is DOWN. Immediate attention required."
    );
}

#[test]
fn agent_status_messages() {
    assert_eq!(agent_status_message("Ada", &AgentStatus::Idle, None), "Ada is idle and ready for tasks");
    assert_eq!(agent_status_message("Ada", &AgentStatus::Active, Some("compiling")), "Ada is compiling");
    assert_eq!(agent_status_message("Ada", &AgentStatus::Active, None), "Ada is actively working");
    assert_eq!(agent_status_message("Ada", &AgentStatus::Waiting, None), "Ada is waiting for resources");
    assert_eq!(agent_status_message("Ada", &AgentStatus::Error, None), "Ada encountered an error");
    assert_eq!(agent_status_message("Ada", &AgentStatus::Offline, None), "Ada is offline");
}

use synapsed::monitor::storage::{decode_hex, stored_intent_payloads};

#[test]
fn hex_text_decodes_to_bytes() {
    assert_eq!(decode_hex("00ff7Fa0"), Some(vec![0x00, 0xff, 0x7f, 0xa0]));
    assert_eq!(decode_hex(""), Some(vec![]));
    assert_eq!(decode_hex("abc"), None);
    assert_eq!(decode_hex("zz"), None);
    assert_eq!(decode_hex("é1"), None);
}

#[test]
fn stored_intents_are_the_hex_values_of_intent_keys() {
    let entries = vec![
        ("intent:1".to_string(), Some("7b7d".to_string())),
        ("other:2".to_string(), Some("7b7d".to_string())),
        ("intent:3".to_string(), None),
        ("intent:4".to_string(), Some("not hex".to_string())),
        ("intent:5".to_string(), Some("5b5d".to_string())),
    ];
    assert_eq!(stored_intent_payloads(&entries), vec![b"{}".to_vec(), b"[]".to_vec()]);
}

#[test]
fn correlations_of_one_intent() {
    let mut agg = EventAggregator::new();
    let a = format!("intent-service-{}", UUID_TEXT);
    agg.process_event(signal(&a, "TaskStart", 0)).unwrap();
    agg.process_event(CollectedEvent::SubstratesEvent { intent_id: 5, event_type: "x".to_string(), timestamp: 0, anomaly: false })
        .unwrap();
    agg.process_event(signal(&a, "TaskStop", 10)).unwrap();
    let id = 0x67e5504410b1426f9247bb680e5fe0c8u128;
    let mine = agg.get_intent_correlations(id);
    assert!(!mine.is_empty());
    assert!(mine.iter().all(|c| c.intent_id == id));
    let expected = agg.get_correlated_events().iter().filter(|c| c.intent_id == id).count();
    assert_eq!(mine.len(), expected);
    assert_eq!(agg.get_intent_correlations(5).len(), 1);
    assert!(agg.get_intent_correlations(6).is_empty());
}

use synapsed::monitor::views::{EventSeverity, TaskTimeline, TimelineEvent};

fn timeline_event(ts: i64, kind: &str) -> TimelineEvent {
    TimelineEvent {
        timestamp_ms: ts,
        event_type: kind.to_string(),
        description: format!("{} at {}", kind, ts),
        agent_id: None,
        severity: EventSeverity::Info,
    }
}

#[test]
fn timeline_events_stay_in_order_of_time() {
    let mut timeline = TaskTimeline::new();
    assert!(timeline.events().is_empty());
    timeline.add_event(timeline_event(300, "c"));
    timeline.add_event(timeline_event(100, "a"));
    timeline.add_event(timeline_event(200, "b"));
    timeline.add_event(timeline_event(100, "a2"));
    let kinds: Vec<&str> = timeline.events().iter().map(|e| e.event_type.as_str()).collect();
    assert_eq!(kinds, vec!["a", "a2", "b", "c"]);
    let stamps: Vec<i64> = timeline.events().iter().map(|e| e.timestamp_ms).collect();
    assert_eq!(stamps, vec![100, 100, 200, 300]);
}
