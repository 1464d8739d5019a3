//! Settings as sent by the user interface, and the checks made on them.

use crate::commands::search::{is_refusal, CommandError};
use crate::text::{owned, same};
use vstd::prelude::*;
use vstd::string::*;

verus! {

#[derive(Debug, Clone)]
pub struct JiraConfigDto {
    pub base_url: String,
    pub username: String,
    pub default_project: Option<String>,
    pub has_token: bool,
}

#[derive(Debug, Clone)]
pub struct GitConfigDto {
    pub provider: String,
    pub base_url: Option<String>,
    pub workspace: Option<String>,
    pub username: String,
    pub repositories: Vec<String>,
    pub has_token: bool,
}

#[derive(Debug, Clone)]
pub struct GeminiConfigDto {
    pub model: String,
    pub has_api_key: bool,
}

#[derive(Debug, Clone)]
pub struct GrafanaConfigDto {
    pub base_url: String,
    pub services: Vec<String>,
    pub has_api_key: bool,
}

#[derive(Debug, Clone)]
pub struct IntegrationConfigDto {
    pub jira: Option<JiraConfigDto>,
    pub git: Option<GitConfigDto>,
    pub gemini: Option<GeminiConfigDto>,
    pub grafana: Option<GrafanaConfigDto>,
}

#[derive(Debug, Clone)]
pub struct ShortcutConfigDto {
    pub flight_console: String,
    pub radar_panel: String,
    pub incident_radar: String,
}

#[derive(Debug, Clone)]
pub struct SaveCredentialRequest {
    pub credential_type: String,
    pub value: String,
}

/// Whether a name is that of a kind of credential that can be saved.
pub open spec fn is_credential_type(name: Seq<char>) -> bool {
    name == "jira_token"@ || name == "git_token"@ || name == "gemini_api_key"@ || name
        == "grafana_api_key"@
}

/// Whether a name is that of an integration.
pub open spec fn is_integration(name: Seq<char>) -> bool {
    name == "jira"@ || name == "git"@ || name == "gemini"@ || name == "grafana"@
}

fn is_empty(text: &String) -> (r: bool)
    ensures
        r == (text@.len() == 0),
{
    text.as_str().unicode_len() == 0
}

/// Checks the settings of the ticket tracker: the base URL is asked for first,
/// then the user name.
pub fn save_jira_config(config: &JiraConfigDto) -> (r: Result<(), CommandError>)
    ensures
        config.base_url@.len() == 0 ==> is_refusal(r, "Jira base URL is required"@),
        config.base_url@.len() > 0 && config.username@.len() == 0 ==> is_refusal(
            r,
            "Jira username is required"@,
        ),
        config.base_url@.len() > 0 && config.username@.len() > 0 ==> r is Ok,
{
    if is_empty(&config.base_url) {
        return Err(CommandError::validation("Jira base URL is required"));
    }
    if is_empty(&config.username) {
        return Err(CommandError::validation("Jira username is required"));
    }
    Ok(())
}

/// Checks the settings of the git hosting: a user name is asked for.
pub fn save_git_config(config: &GitConfigDto) -> (r: Result<(), CommandError>)
    ensures
        config.username@.len() == 0 ==> is_refusal(r, "Git username is required"@),
        config.username@.len() > 0 ==> r is Ok,
{
    if is_empty(&config.username) {
        return Err(CommandError::validation("Git username is required"));
    }
    Ok(())
}

/// Checks the settings of the analysis service: a model is asked for.
pub fn save_gemini_config(config: &GeminiConfigDto) -> (r: Result<(), CommandError>)
    ensures
        config.model@.len() == 0 ==> is_refusal(r, "Gemini model is required"@),
        config.model@.len() > 0 ==> r is Ok,
{
    if is_empty(&config.model) {
        return Err(CommandError::validation("Gemini model is required"));
    }
    Ok(())
}

/// Checks the settings of the monitoring platform: a base URL is asked for.
pub fn save_grafana_config(config: &GrafanaConfigDto) -> (r: Result<(), CommandError>)
    ensures
        config.base_url@.len() == 0 ==> is_refusal(r, "Grafana base URL is required"@),
        config.base_url@.len() > 0 ==> r is Ok,
{
    if is_empty(&config.base_url) {
        return Err(CommandError::validation("Grafana base URL is required"));
    }
    Ok(())
}

/// Checks a credential that is to be saved: the secret must not be empty, and
/// the kind must be one that can be saved. The secret is checked first.
pub fn save_credential(request: &SaveCredentialRequest) -> (r: Result<(), CommandError>)
    ensures
        request.value@.len() == 0 ==> is_refusal(r, "Credential value cannot be empty"@),
        request.value@.len() > 0 && !is_credential_type(request.credential_type@) ==> is_refusal(
            r,
            "Invalid credential type: "@ + request.credential_type@,
        ),
        request.value@.len() > 0 && is_credential_type(request.credential_type@) ==> r is Ok,
{
    if is_empty(&request.value) {
        return Err(CommandError::validation("Credential value cannot be empty"));
    }
    let kind = request.credential_type.as_str();
    if !(same(kind, "jira_token") || same(kind, "git_token") || same(kind, "gemini_api_key")
        || same(kind, "grafana_api_key")) {
        let message = owned("Invalid credential type: ").concat(kind);
        return Err(CommandError::validation(message.as_str()));
    }
    Ok(())
}

/// Checks the name of a credential that is to be deleted: it must not be empty.
pub fn delete_credential(credential_type: &str) -> (r: Result<(), CommandError>)
    ensures
        credential_type@.len() == 0 ==> is_refusal(r, "Credential type is required"@),
        credential_type@.len() > 0 ==> r is Ok,
{
    if credential_type.unicode_len() == 0 {
        return Err(CommandError::validation("Credential type is required"));
    }
    Ok(())
}

/// Checks the shortcuts: the one for the console is asked for.
pub fn save_shortcuts(shortcuts: &ShortcutConfigDto) -> (r: Result<(), CommandError>)
    ensures
        shortcuts.flight_console@.len() == 0 ==> is_refusal(
            r,
            "Flight Console shortcut is required"@,
        ),
        shortcuts.flight_console@.len() > 0 ==> r is Ok,
{
    if is_empty(&shortcuts.flight_console) {
        return Err(CommandError::validation("Flight Console shortcut is required"));
    }
    Ok(())
}

/// Checks the name of an integration whose connection is to be tried.
pub fn test_connection(integration: &str) -> (r: Result<bool, CommandError>)
    ensures
        is_integration(integration@) ==> r == Ok::<bool, CommandError>(true),
        !is_integration(integration@) ==> (r matches Err(e) && e.code@ == "VALIDATION_ERROR"@
            && e.message@ == "Invalid integration: "@ + integration@),
{
    if !(same(integration, "jira") || same(integration, "git") || same(integration, "gemini")
        || same(integration, "grafana")) {
        let message = owned("Invalid integration: ").concat(integration);
        return Err(CommandError::validation(message.as_str()));
    }
    Ok(true)
}

} // verus!
