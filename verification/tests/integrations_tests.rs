use em_cockpit::integrations::ai::{
    anonymize_content, extract_json, AmbiguousPhrase, GeminiConfig, MissingScenario, Risk,
    SpecAnalysis,
};
use em_cockpit::integrations::git::{passes_filter, GitConfig, GitProviderType};
use em_cockpit::integrations::jira::{
    basic_auth_header, check_find_status, map_priority, map_status_category, JiraConfig,
};
use em_cockpit::integrations::monitoring::{
    bearer_header, is_active_state, require_api_key, severity_from_label,
};
use em_cockpit::integrations::traits::{
    IntegrationError, PrFilter, Priority, Severity, StatusCategory, TicketSearchQuery,
};

fn test_config() -> JiraConfig {
    JiraConfig::new("https://test.atlassian.net", "user@test.com")
        .with_token("test-token")
        .with_default_project("TEST")
}

#[test]
fn test_gemini_config_default() {
    let config = GeminiConfig::default();
    assert_eq!(config.model, "gemini-pro");
    assert!(config.api_key.is_none());
}

#[test]
fn test_gemini_config_builder() {
    let config = GeminiConfig::new("gemini-1.5-pro").with_api_key("test-key");

    assert_eq!(config.model, "gemini-1.5-pro");
    assert_eq!(config.api_key, Some("test-key".to_string()));
}

#[test]
fn gemini_test_client_requires_api_key() {
    let config = GeminiConfig::default();
    let result = config.require_api_key();

    assert!(result.is_err());
    assert!(matches!(result.unwrap_err(), IntegrationError::ConfigError(_)));
}

#[test]
fn test_anonymize_content_emails() {
    let content = "Contact john.doe@example.com for details";
    let anonymized = anonymize_content(content);

    assert!(!anonymized.contains("john.doe@example.com"));
    assert!(anonymized.contains("[EMAIL]"));
}

#[test]
fn test_anonymize_content_ips() {
    let content = "Server at 192.168.1.100";
    let anonymized = anonymize_content(content);

    assert!(!anonymized.contains("192.168.1.100"));
    assert!(anonymized.contains("[IP_ADDRESS]"));
}

#[test]
fn test_parse_analysis_json() {
    let json = "{\n            \"clarity_score\": 75,\n            \"justification\": \"Good overall\",\n            \"ambiguous_phrases\": [],\n            \"missing_scenarios\": [],\n            \"risks\": []\n        }";

    let framed = extract_json(json);
    let value: serde_json::Value = serde_json::from_str(&framed).unwrap();
    assert_eq!(value["clarity_score"], 75);
}

#[test]
fn test_parse_analysis_with_markdown() {
    let json = "```json\n{\n    \"clarity_score\": 80,\n    \"justification\": \"Clear spec\",\n    \"ambiguous_phrases\": [],\n    \"missing_scenarios\": [],\n    \"risks\": []\n}\n```";

    let framed = extract_json(json);
    let value: serde_json::Value = serde_json::from_str(&framed).unwrap();
    assert_eq!(value["clarity_score"], 80);
}

#[test]
fn test_spec_analysis_struct() {
    let analysis = SpecAnalysis {
        clarity_score: 85,
        justification: "Well written".to_string(),
        ambiguous_phrases: vec![AmbiguousPhrase {
            text: "fast".to_string(),
            explanation: "Not measurable".to_string(),
            suggested_replacement: "< 200ms response time".to_string(),
        }],
        missing_scenarios: vec![MissingScenario {
            scenario: "Network failure".to_string(),
            impact: "User may see errors".to_string(),
        }],
        risks: vec![Risk { risk: "Performance".to_string(), mitigation: "Add caching".to_string() }],
    };

    assert_eq!(analysis.clarity_score, 85);
    assert_eq!(analysis.ambiguous_phrases.len(), 1);
}

#[test]
fn test_git_config_bitbucket() {
    let config = GitConfig::bitbucket("workspace", "user")
        .with_token("token")
        .with_repositories(vec!["repo1".to_string()]);

    assert_eq!(config.provider, GitProviderType::Bitbucket);
    assert_eq!(config.workspace, Some("workspace".to_string()));
    assert_eq!(config.repositories.len(), 1);
}

#[test]
fn test_git_config_github() {
    let config = GitConfig::github("user").with_token("token");

    assert_eq!(config.provider, GitProviderType::GitHub);
    assert!(config.workspace.is_none());
}

#[test]
fn test_api_base_url() {
    let config = GitConfig::bitbucket("ws", "user").with_token("t");
    assert_eq!(config.api_base_url(), "https://api.bitbucket.org/2.0");

    let config = GitConfig::github("user").with_token("t");
    assert_eq!(config.api_base_url(), "https://api.github.com");
}

#[test]
fn test_provider_requires_token() {
    let config = GitConfig::github("user");
    let result = config.require_token();

    assert!(result.is_err());
    assert!(matches!(result.unwrap_err(), IntegrationError::ConfigError(_)));
}

#[test]
fn provider_test_pr_filter_builder() {
    let filter = PrFilter::new()
        .with_repositories(vec!["repo1".to_string(), "repo2".to_string()])
        .stale_only();

    assert_eq!(filter.repositories.len(), 2);
    assert!(filter.stale_only);
}

#[test]
fn test_jira_config_creation() {
    let config = test_config();

    assert_eq!(config.base_url, "https://test.atlassian.net");
    assert_eq!(config.username, "user@test.com");
    assert_eq!(config.token, Some("test-token".to_string()));
    assert_eq!(config.default_project, Some("TEST".to_string()));
}

#[test]
fn test_jira_config_trims_trailing_slash() {
    let config = JiraConfig::new("https://test.atlassian.net/", "user@test.com");
    assert_eq!(config.base_url, "https://test.atlassian.net");
}

#[test]
fn test_client_requires_token() {
    let config = JiraConfig::new("https://test.atlassian.net", "user@test.com");
    let result = config.require_token();

    assert!(result.is_err());
    assert!(matches!(result.unwrap_err(), IntegrationError::ConfigError(_)));
}

#[test]
fn test_build_jql_with_text() {
    let config = test_config();

    let query = TicketSearchQuery::new().with_text("bug fix");
    let jql = config.build_jql(&query);

    assert!(jql.contains("project = TEST"));
    assert!(jql.contains("text ~ \"bug fix\""));
}

#[test]
fn test_build_jql_with_project_override() {
    let config = test_config();

    let query = TicketSearchQuery::new().with_project("OTHER").with_text("feature");
    let jql = config.build_jql(&query);

    assert!(jql.contains("project = OTHER"));
    assert!(!jql.contains("project = TEST"));
}

#[test]
fn test_build_jql_empty_query() {
    let config = JiraConfig::new("https://test.atlassian.net", "user@test.com").with_token("token");

    let query = TicketSearchQuery::new();
    let jql = config.build_jql(&query);

    assert_eq!(jql, "ORDER BY updated DESC");
}

#[test]
fn test_map_priority() {
    assert_eq!(map_priority("Highest"), Priority::Highest);
    assert_eq!(map_priority("Critical"), Priority::High);
    assert_eq!(map_priority("Major"), Priority::Medium);
    assert_eq!(map_priority("Minor"), Priority::Low);
    assert_eq!(map_priority("Trivial"), Priority::Lowest);
    assert_eq!(map_priority("Unknown"), Priority::Medium);
}

#[test]
fn client_test_auth_header_format() {
    let header = test_config().auth_header();
    assert!(header.starts_with("Basic "));
}

#[test]
fn grafana_test_client_requires_api_key() {
    let result = require_api_key(None);

    assert!(result.is_err());
    assert!(matches!(result.unwrap_err(), IntegrationError::ConfigError(_)));
}

#[test]
fn test_severity_parsing() {
    assert_eq!(severity_from_label(Some("critical")), Severity::Critical);
    assert_eq!(severity_from_label(Some("warning")), Severity::Medium);
    assert_eq!(severity_from_label(None), Severity::Medium);
}

#[test]
fn grafana_test_auth_header_format() {
    let header = bearer_header(Some("my-token"));
    assert_eq!(header, "Bearer my-token");
}

#[test]
fn base64_is_the_standard_alphabet_with_padding() {
    assert_eq!(basic_auth_header("user", "pass"), "Basic dXNlcjpwYXNz");
    assert_eq!(basic_auth_header("a", ""), "Basic YTo=");
    assert_eq!(test_config().auth_header(), "Basic dXNlckB0ZXN0LmNvbTp0ZXN0LXRva2Vu");
    assert_eq!(
        JiraConfig::new("https://x", "u").auth_header(),
        basic_auth_header("u", "")
    );
    let (name, value) = GitConfig::bitbucket("ws", "user").with_token("pass").auth_header();
    assert_eq!((name, value.as_str()), ("Authorization", "Basic dXNlcjpwYXNz"));
    let (name, value) = GitConfig::github("user").with_token("tok").auth_header();
    assert_eq!((name, value.as_str()), ("Authorization", "Bearer tok"));
    let mut gitlab = GitConfig::github("user").with_token("tok");
    gitlab.provider = GitProviderType::GitLab;
    let (name, value) = gitlab.auth_header();
    assert_eq!((name, value.as_str()), ("PRIVATE-TOKEN", "tok"));
    assert_eq!(bearer_header(None), "Bearer ");
}

#[test]
fn jql_lists_the_conditions_in_order() {
    let mut query = TicketSearchQuery::new().with_text("x y").with_project("P");
    query.assignee = Some("ann".to_string());
    query.status = Some("Open".to_string());
    assert_eq!(
        test_config().build_jql(&query),
        "project = P AND text ~ \"x y\" AND assignee = \"ann\" AND status = \"Open\" ORDER BY updated DESC"
    );
    assert_eq!(
        test_config().build_jql(&TicketSearchQuery::new()),
        "project = TEST ORDER BY updated DESC"
    );
    assert_eq!(test_config().issue_url("T-1"), "https://test.atlassian.net/rest/api/3/issue/T-1");
    assert_eq!(test_config().search_url(), "https://test.atlassian.net/rest/api/3/search");
    assert_eq!(JiraConfig::new("https://x///", "u").base_url, "https://x");
    assert_eq!(JiraConfig::new("///", "u").base_url, "");
}

#[test]
fn tracker_vocabulary_is_mapped() {
    assert_eq!(map_priority("BLOCKER"), Priority::Highest);
    assert_eq!(map_priority("low"), Priority::Low);
    assert_eq!(map_priority("lowest"), Priority::Lowest);
    assert_eq!(map_status_category("new"), StatusCategory::Todo);
    assert_eq!(map_status_category("undefined"), StatusCategory::Todo);
    assert_eq!(map_status_category("indeterminate"), StatusCategory::InProgress);
    assert_eq!(map_status_category("done"), StatusCategory::Done);
    assert_eq!(map_status_category("Done"), StatusCategory::Todo);
    assert_eq!(severity_from_label(Some("CRITICAL")), Severity::Critical);
    assert_eq!(severity_from_label(Some("p1")), Severity::Critical);
    assert_eq!(severity_from_label(Some("high")), Severity::High);
    assert_eq!(severity_from_label(Some("Info")), Severity::Low);
    assert_eq!(severity_from_label(Some("p3")), Severity::Medium);
    assert_eq!(severity_from_label(Some("other")), Severity::Medium);
    assert!(is_active_state("active"));
    assert!(!is_active_state("Active"));
}

#[test]
fn statuses_are_classified() {
    assert!(check_find_status(200, "T-1", "").is_ok());
    assert!(matches!(
        check_find_status(401, "T-1", ""),
        Err(IntegrationError::Auth(m)) if m == "Invalid credentials"
    ));
    assert!(matches!(
        check_find_status(404, "T-1", ""),
        Err(IntegrationError::NotFound(m)) if m == "Issue T-1 not found"
    ));
    assert!(matches!(check_find_status(429, "T-1", ""), Err(IntegrationError::RateLimit)));
    assert!(matches!(
        check_find_status(503, "T-1", "busy"),
        Err(IntegrationError::ApiError(m)) if m == "Status 503: busy"
    ));
}

#[test]
fn addresses_of_pull_requests() {
    let bitbucket = GitConfig::bitbucket("ws", "u");
    assert_eq!(
        bitbucket.pr_url("repo", "7").unwrap(),
        "https://api.bitbucket.org/2.0/repositories/ws/repo/pullrequests/7"
    );
    let mut no_workspace = GitConfig::bitbucket("ws", "u");
    no_workspace.workspace = None;
    assert!(matches!(
        no_workspace.pr_url("repo", "7"),
        Err(IntegrationError::ConfigError(m)) if m == "Workspace required"
    ));
    let mut github = GitConfig::github("u");
    github.base_url = Some("https://git.example.com/api/".to_string());
    assert_eq!(github.api_base_url(), "https://git.example.com/api");
    assert_eq!(
        github.pr_url("org/repo", "12").unwrap(),
        "https://git.example.com/api/repos/org/repo/pulls/12"
    );
    let mut gitlab = GitConfig::github("u");
    gitlab.provider = GitProviderType::GitLab;
    assert_eq!(gitlab.api_base_url(), "https://gitlab.com/api/v4");
    assert_eq!(
        gitlab.pr_url("group/my repo", "3").unwrap(),
        "https://gitlab.com/api/v4/projects/group%2Fmy%20repo/merge_requests/3"
    );
    let config = GitConfig::github("u").with_repositories(vec!["a".to_string()]);
    assert_eq!(config.repositories_for(&PrFilter::new()), &vec!["a".to_string()]);
    let filter = PrFilter::new().with_repositories(vec!["b".to_string()]);
    assert_eq!(config.repositories_for(&filter), &vec!["b".to_string()]);
    assert!(passes_filter(&PrFilter::new(), false));
    assert!(!passes_filter(&PrFilter::new().stale_only(), false));
    assert!(passes_filter(&PrFilter::new().stale_only(), true));
    assert!(GitConfig::github("u").with_token("t").require_token().is_ok());
}

#[test]
fn addresses_are_replaced_by_placeholders() {
    assert_eq!(
        anonymize_content("mail a.b@c.org or d@e.io from 10.0.0.1, not 1.2.3"),
        "mail [EMAIL] or [EMAIL] from [IP_ADDRESS], not 1.2.3"
    );
    assert_eq!(anonymize_content("nothing here"), "nothing here");
}

#[test]
fn json_is_taken_out_of_its_fence() {
    assert_eq!(extract_json("  {\"a\": 1}\n"), "{\"a\": 1}");
    assert_eq!(extract_json("text ```json\n{\"a\": 1}\n``` more ```json {} ```"), "{\"a\": 1}");
    assert_eq!(extract_json("```\n[1]\n```"), "[1]");
    assert_eq!(extract_json("```json {\"open\": true}"), "{\"open\": true}");
    assert_eq!(extract_json("a ``` b"), "b");
    assert_eq!(extract_json(""), "");
    assert_eq!(
        GeminiConfig::new("m1").generate_url(),
        "https://generativelanguage.googleapis.com/v1beta/models/m1:generateContent"
    );
    assert!(GeminiConfig::new("m").with_api_key("k").require_api_key().is_ok());
}
