use em_cockpit::integrations::traits::{
    ChecksStatus, IntegrationError, PrFilter, PrState, Priority, Severity, TicketSearchQuery,
};

#[test]
fn test_priority_as_str() {
    assert_eq!(Priority::Highest.as_str(), "Highest");
    assert_eq!(Priority::Low.as_str(), "Low");
}

#[test]
fn test_pr_state_as_str() {
    assert_eq!(PrState::Open.as_str(), "Open");
    assert_eq!(PrState::Merged.as_str(), "Merged");
}

#[test]
fn test_severity_ordering() {
    assert!(Severity::Critical > Severity::High);
    assert!(Severity::High > Severity::Medium);
    assert!(Severity::Medium > Severity::Low);
}

#[test]
fn test_ticket_search_query_builder() {
    let query = TicketSearchQuery::new().with_text("bug").with_project("PROJ").with_limit(5);

    assert_eq!(query.text, Some("bug".to_string()));
    assert_eq!(query.project, Some("PROJ".to_string()));
    assert_eq!(query.limit, 5);
}

#[test]
fn traits_test_pr_filter_builder() {
    let filter = PrFilter::new().with_repositories(vec!["repo1".to_string()]).stale_only();

    assert_eq!(filter.repositories.len(), 1);
    assert!(filter.stale_only);
    assert_eq!(filter.stale_threshold_hours, 48);
}

#[test]
fn severity_levels_follow_the_order() {
    let all = [Severity::Low, Severity::Medium, Severity::High, Severity::Critical];
    for (i, a) in all.iter().enumerate() {
        assert_eq!(a.level() as usize, i);
        for b in all.iter() {
            assert_eq!(a < b, a.level() < b.level());
        }
    }
    assert_eq!(Severity::Critical.as_str(), "Critical");
    assert_eq!(Severity::Medium.as_str(), "Medium");
    assert_eq!(Priority::Lowest.as_str(), "Lowest");
    assert_eq!(PrState::Declined.as_str(), "Declined");
    assert_eq!(PrState::Draft.as_str(), "Draft");
    assert_ne!(ChecksStatus::NotRun, ChecksStatus::Pass);
}

#[test]
fn integration_error_messages() {
    assert_eq!(IntegrationError::Network("down".to_string()).to_string(), "Network error: down");
    assert_eq!(IntegrationError::Auth("no".to_string()).to_string(), "Authentication failed: no");
    assert_eq!(IntegrationError::RateLimit.to_string(), "Rate limit exceeded");
    assert_eq!(IntegrationError::NotFound("x".to_string()).to_string(), "Resource not found: x");
    assert_eq!(IntegrationError::ApiError("x".to_string()).to_string(), "API error: x");
    assert_eq!(IntegrationError::ParseError("x".to_string()).to_string(), "Parse error: x");
    assert_eq!(IntegrationError::ConfigError("x".to_string()).to_string(), "Configuration error: x");
    assert!(matches!(
        IntegrationError::from_transport_failure(true, true, "m".to_string()),
        IntegrationError::Network(m) if m == "Request timeout"
    ));
    assert!(matches!(
        IntegrationError::from_transport_failure(false, true, "m".to_string()),
        IntegrationError::Network(m) if m == "Connection failed"
    ));
    assert!(matches!(
        IntegrationError::from_transport_failure(false, false, "m".to_string()),
        IntegrationError::Network(m) if m == "m"
    ));
}

#[test]
fn query_defaults() {
    let query = TicketSearchQuery::new();
    assert_eq!(query.limit, 10);
    assert!(query.text.is_none() && query.project.is_none());
    assert!(query.assignee.is_none() && query.status.is_none());
    let filter = PrFilter::new();
    assert_eq!(filter.limit, 20);
    assert!(filter.repositories.is_empty());
    assert!(!filter.stale_only);
    assert!(filter.state.is_none());
}
