use em_cockpit::integrations::traits::{Incident, IncidentStatus, Severity};
use em_cockpit::services::incident_monitor::{
    minutes_since, IncidentFilter, IncidentMonitor, IncidentMonitorConfig, IncidentSummary,
};
use em_cockpit::system::tray::TrayState;

const NOW: i64 = 1_700_000_000_000;
const MINUTE: i64 = 60_000;

fn create_test_incident(id: &str, service: &str, severity: Severity) -> Incident {
    Incident {
        id: id.to_string(),
        service: service.to_string(),
        severity,
        status: IncidentStatus::Firing,
        started_at: NOW - 30 * MINUTE,
        resolved_at: None,
        description: format!("Test incident {}", id),
        runbook_url: None,
    }
}

#[test]
fn test_incident_summary_calculate_tray_state() {
    let critical = vec![create_test_incident("1", "svc", Severity::Critical)];
    assert_eq!(IncidentSummary::calculate_tray_state(&critical), TrayState::Red);

    let high = vec![create_test_incident("1", "svc", Severity::High)];
    assert_eq!(IncidentSummary::calculate_tray_state(&high), TrayState::Red);

    let medium = vec![create_test_incident("1", "svc", Severity::Medium)];
    assert_eq!(IncidentSummary::calculate_tray_state(&medium), TrayState::Amber);

    let empty: Vec<Incident> = vec![];
    assert_eq!(IncidentSummary::calculate_tray_state(&empty), TrayState::Green);
}

#[test]
fn test_incident_summary_get_most_severe() {
    let incidents = vec![
        create_test_incident("1", "svc", Severity::Low),
        create_test_incident("2", "svc", Severity::Critical),
        create_test_incident("3", "svc", Severity::Medium),
    ];
    assert_eq!(IncidentSummary::get_most_severe(&incidents), Some(Severity::Critical));

    let empty: Vec<Incident> = vec![];
    assert_eq!(IncidentSummary::get_most_severe(&empty), None);
}

#[test]
fn test_incident_filter_matches() {
    let incident = create_test_incident("1", "api-service", Severity::High);

    let filter = IncidentFilter::new();
    assert!(filter.matches(&incident));

    let filter = IncidentFilter::new().with_min_severity(Severity::Critical);
    assert!(!filter.matches(&incident));

    let filter = IncidentFilter::new().with_min_severity(Severity::Medium);
    assert!(filter.matches(&incident));

    let filter = IncidentFilter::new().with_services(vec!["api-service".to_string()]);
    assert!(filter.matches(&incident));

    let filter = IncidentFilter::new().with_services(vec!["other-service".to_string()]);
    assert!(!filter.matches(&incident));
}

#[test]
fn test_incident_filter_resolved() {
    let mut incident = create_test_incident("1", "svc", Severity::High);
    incident.status = IncidentStatus::Resolved;

    let filter = IncidentFilter::new();
    assert!(!filter.matches(&incident));

    let filter = IncidentFilter::new().include_resolved();
    assert!(filter.matches(&incident));
}

#[test]
fn test_incident_monitor_config_builder() {
    let config =
        IncidentMonitorConfig::new().with_services(vec!["svc1".to_string()]).alert_on(Severity::Medium);

    assert_eq!(config.services.len(), 1);
    assert_eq!(config.alert_on_severity, Severity::Medium);
}

#[test]
fn test_get_filtered_incidents() {
    let incidents = vec![
        create_test_incident("1", "svc1", Severity::Critical),
        create_test_incident("2", "svc1", Severity::Low),
        create_test_incident("3", "svc2", Severity::High),
    ];
    let monitor = IncidentMonitor::new(IncidentMonitorConfig::new());

    let filter = IncidentFilter::new().with_min_severity(Severity::High);
    let result = monitor.get_incidents(incidents, &filter);

    assert_eq!(result.len(), 2);
}

#[test]
fn test_has_critical_incidents() {
    let monitor = IncidentMonitor::new(IncidentMonitorConfig::new());
    let incidents = vec![create_test_incident("1", "svc", Severity::High)];
    assert!(!monitor.has_critical_incidents(&incidents));

    let incidents2 = vec![create_test_incident("1", "svc", Severity::Critical)];
    assert!(monitor.has_critical_incidents(&incidents2));
}

#[test]
fn incident_monitor_test_get_summary() {
    let incidents = vec![
        create_test_incident("1", "svc1", Severity::Critical),
        create_test_incident("2", "svc1", Severity::High),
        create_test_incident("3", "svc2", Severity::Medium),
    ];
    let monitor = IncidentMonitor::new(IncidentMonitorConfig::new());

    let summary = monitor.compute_summary(&incidents, NOW);

    assert_eq!(summary.total_active, 3);
    assert_eq!(summary.critical_count, 1);
    assert_eq!(summary.high_count, 1);
    assert_eq!(summary.medium_count, 1);
    assert_eq!(summary.service_count("svc1"), Some(2));
    assert_eq!(summary.most_severe, Some(Severity::Critical));
    assert_eq!(summary.tray_state, TrayState::Red);
}

#[test]
fn test_get_tray_state() {
    let incidents = vec![create_test_incident("1", "svc", Severity::Medium)];
    let monitor = IncidentMonitor::new(IncidentMonitorConfig::new());

    let state = monitor.get_tray_state(&incidents);
    assert_eq!(state, TrayState::Amber);
}

#[test]
fn the_summary_counts_firing_incidents_only() {
    let mut resolved = create_test_incident("4", "svc3", Severity::Critical);
    resolved.status = IncidentStatus::Resolved;
    resolved.started_at = NOW - 10_000 * MINUTE;
    let mut long_running = create_test_incident("5", "svc2", Severity::Low);
    long_running.started_at = NOW - 125 * MINUTE - 59_999;
    let incidents = vec![
        create_test_incident("1", "svc2", Severity::Medium),
        resolved,
        create_test_incident("2", "svc1", Severity::Low),
        long_running,
    ];
    let monitor = IncidentMonitor::new(IncidentMonitorConfig::new());
    let summary = monitor.compute_summary(&incidents, NOW);
    assert_eq!(summary.total_active, 3);
    assert_eq!(summary.critical_count, 0);
    assert_eq!(summary.high_count, 0);
    assert_eq!(summary.medium_count, 1);
    assert_eq!(summary.low_count, 2);
    assert_eq!(summary.by_service, vec![("svc2".to_string(), 2), ("svc1".to_string(), 1)]);
    assert_eq!(summary.service_count("svc3"), None);
    assert_eq!(summary.most_severe, Some(Severity::Critical));
    assert_eq!(summary.tray_state, TrayState::Red);
    assert_eq!(summary.longest_duration_mins, Some(125));

    let none = monitor.compute_summary(&vec![], NOW);
    assert_eq!(none.total_active, 0);
    assert_eq!(none.most_severe, None);
    assert_eq!(none.tray_state, TrayState::Green);
    assert_eq!(none.longest_duration_mins, None);
    assert_eq!(IncidentSummary::new().tray_state, TrayState::Neutral);
    assert_eq!(minutes_since(NOW + 90_000, NOW), -1);
    assert_eq!(minutes_since(NOW - 59_999, NOW), 0);
}

#[test]
fn alertable_incidents_are_firing_and_severe_enough() {
    let mut resolved = create_test_incident("3", "svc", Severity::Critical);
    resolved.status = IncidentStatus::Resolved;
    let incidents = vec![
        create_test_incident("1", "svc", Severity::Medium),
        create_test_incident("2", "svc", Severity::High),
        resolved,
        create_test_incident("4", "svc", Severity::Critical),
    ];
    let monitor = IncidentMonitor::new(IncidentMonitorConfig::new());
    let alertable = monitor.get_alertable_incidents(incidents.clone());
    let ids: Vec<&str> = alertable.iter().map(|i| i.id.as_str()).collect();
    assert_eq!(ids, vec!["2", "4"]);
    let lower = IncidentMonitor::new(IncidentMonitorConfig::new().alert_on(Severity::Medium));
    assert_eq!(lower.get_alertable_incidents(incidents.clone()).len(), 3);
    assert!(monitor.has_critical_incidents(&incidents));
    assert_eq!(monitor.refresh_interval(), 30_000);
    let both = IncidentFilter::default();
    assert_eq!(monitor.get_incidents(incidents, &both).len(), 4);
}
