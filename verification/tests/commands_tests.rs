use em_cockpit::commands::incidents::{acknowledge_incident, default_true};
use em_cockpit::commands::prs::default_pr_limit;
use em_cockpit::commands::search::{default_limit, result_type_for, CommandError, SearchQueryParams};
use em_cockpit::commands::settings::{
    delete_credential, save_credential, save_gemini_config, save_git_config, save_grafana_config,
    save_jira_config, save_shortcuts, test_connection, GeminiConfigDto, GitConfigDto,
    GrafanaConfigDto, JiraConfigDto, SaveCredentialRequest, ShortcutConfigDto,
};
use em_cockpit::services::search_service::SearchResultType;

fn params(query: &str, types: &[&str]) -> SearchQueryParams {
    SearchQueryParams {
        query: query.to_string(),
        types: types.iter().map(|t| t.to_string()).collect(),
        limit: 10,
        include_closed: false,
    }
}

#[test]
fn test_search_query_params_parse_types() {
    let params = SearchQueryParams {
        query: "test".to_string(),
        types: vec!["ticket".to_string(), "pr".to_string()],
        limit: 10,
        include_closed: false,
    };

    let types = params.parse_types();
    assert_eq!(types.len(), 2);
    assert!(types.contains(&SearchResultType::Ticket));
    assert!(types.contains(&SearchResultType::PullRequest));
}

#[test]
fn test_search_query_params_empty_types() {
    let params = SearchQueryParams {
        query: "test".to_string(),
        types: vec![],
        limit: 10,
        include_closed: false,
    };

    let types = params.parse_types();
    assert_eq!(types.len(), 2);
}

#[test]
fn test_command_error_creation() {
    let err = CommandError::validation("Invalid input");
    assert_eq!(err.code, "VALIDATION_ERROR");
    assert_eq!(err.message, "Invalid input");
}

#[test]
fn test_search_empty_query() {
    let result = params("", &[]).validate();
    assert!(result.is_err());
    assert_eq!(result.unwrap_err().code, "VALIDATION_ERROR");
}

#[test]
fn test_acknowledge_incident_empty_id() {
    let result = acknowledge_incident("");
    assert!(result.is_err());
    assert_eq!(result.unwrap_err().code, "VALIDATION_ERROR");
}

#[test]
fn test_acknowledge_incident_valid() {
    let result = acknowledge_incident("inc-123");
    assert!(result.is_ok());
}

#[test]
fn test_save_jira_config_validation() {
    let config = JiraConfigDto {
        base_url: "".to_string(),
        username: "user".to_string(),
        default_project: None,
        has_token: false,
    };

    let result = save_jira_config(&config);
    assert!(result.is_err());
    assert_eq!(result.unwrap_err().code, "VALIDATION_ERROR");
}

#[test]
fn test_save_credential_validation() {
    let request =
        SaveCredentialRequest { credential_type: "jira_token".to_string(), value: "".to_string() };

    let result = save_credential(&request);
    assert!(result.is_err());

    let request = SaveCredentialRequest {
        credential_type: "invalid_type".to_string(),
        value: "token".to_string(),
    };

    let result = save_credential(&request);
    assert!(result.is_err());
}

#[test]
fn test_test_connection() {
    let result = test_connection("jira");
    assert!(result.is_ok());

    let result = test_connection("invalid");
    assert!(result.is_err());
}

#[test]
fn type_names_are_read_whatever_their_case() {
    let types = params("q", &["JIRA", "Pull_Request", "bogus", "Doc", "incident", "pr"]).parse_types();
    assert_eq!(
        types,
        vec![
            SearchResultType::Ticket,
            SearchResultType::PullRequest,
            SearchResultType::Document,
            SearchResultType::Incident,
            SearchResultType::PullRequest,
        ]
    );
    assert!(params("q", &["bogus"]).parse_types().is_empty());
    assert_eq!(result_type_for("pullrequest"), Some(SearchResultType::PullRequest));
    assert_eq!(result_type_for("document"), Some(SearchResultType::Document));
    assert_eq!(result_type_for("Ticket"), None);
    assert_eq!(default_limit(), 10);
    assert_eq!(default_pr_limit(), 20);
    assert!(default_true());
}

#[test]
fn a_query_of_white_space_is_refused() {
    let refused = params(" \t\n ", &[]).validate().unwrap_err();
    assert_eq!(refused.message, "Search query cannot be empty");
    assert!(params(" x ", &[]).validate().is_ok());
}

#[test]
fn command_errors_carry_their_codes() {
    assert_eq!(CommandError::internal("m").code, "INTERNAL_ERROR");
    assert_eq!(CommandError::not_found("m").code, "NOT_FOUND");
    assert_eq!(CommandError::auth("m").code, "AUTH_ERROR");
    let custom = CommandError::new("X", "why");
    assert_eq!((custom.code.as_str(), custom.message.as_str()), ("X", "why"));
}

#[test]
fn settings_are_checked_in_order() {
    let jira = |base: &str, user: &str| JiraConfigDto {
        base_url: base.to_string(),
        username: user.to_string(),
        default_project: None,
        has_token: false,
    };
    assert_eq!(save_jira_config(&jira("", "")).unwrap_err().message, "Jira base URL is required");
    assert_eq!(save_jira_config(&jira("u", "")).unwrap_err().message, "Jira username is required");
    assert!(save_jira_config(&jira("u", "n")).is_ok());
    let git = |user: &str| GitConfigDto {
        provider: "github".to_string(),
        base_url: None,
        workspace: None,
        username: user.to_string(),
        repositories: vec![],
        has_token: true,
    };
    assert_eq!(save_git_config(&git("")).unwrap_err().message, "Git username is required");
    assert!(save_git_config(&git("me")).is_ok());
    let gemini = |model: &str| GeminiConfigDto { model: model.to_string(), has_api_key: false };
    assert_eq!(save_gemini_config(&gemini("")).unwrap_err().message, "Gemini model is required");
    assert!(save_gemini_config(&gemini("m")).is_ok());
    let grafana =
        |base: &str| GrafanaConfigDto { base_url: base.to_string(), services: vec![], has_api_key: true };
    assert_eq!(
        save_grafana_config(&grafana("")).unwrap_err().message,
        "Grafana base URL is required"
    );
    assert!(save_grafana_config(&grafana("b")).is_ok());
    let shortcuts = |console: &str| ShortcutConfigDto {
        flight_console: console.to_string(),
        radar_panel: "Ctrl+2".to_string(),
        incident_radar: "Ctrl+3".to_string(),
    };
    assert_eq!(
        save_shortcuts(&shortcuts("")).unwrap_err().message,
        "Flight Console shortcut is required"
    );
    assert!(save_shortcuts(&shortcuts("Alt+Space")).is_ok());
}

#[test]
fn credentials_and_connections_are_checked() {
    let request = |kind: &str, value: &str| SaveCredentialRequest {
        credential_type: kind.to_string(),
        value: value.to_string(),
    };
    assert_eq!(
        save_credential(&request("bogus", "")).unwrap_err().message,
        "Credential value cannot be empty"
    );
    assert_eq!(
        save_credential(&request("confluence_token", "x")).unwrap_err().message,
        "Invalid credential type: confluence_token"
    );
    for kind in ["jira_token", "git_token", "gemini_api_key", "grafana_api_key"] {
        assert!(save_credential(&request(kind, "x")).is_ok());
    }
    assert_eq!(delete_credential("").unwrap_err().message, "Credential type is required");
    assert!(delete_credential("anything").is_ok());
    for name in ["jira", "git", "gemini", "grafana"] {
        assert_eq!(test_connection(name).unwrap(), true);
    }
    assert_eq!(test_connection("Jira").unwrap_err().message, "Invalid integration: Jira");
    assert_eq!(acknowledge_incident("").unwrap_err().message, "Incident ID is required");
}
