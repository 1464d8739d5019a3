use em_cockpit::kernel::config::{
    GeminiConfig, GitProviderType, PreferencesConfig, QuickNavShortcuts, ShortcutConfig, ThemeMode,
};
use em_cockpit::kernel::errors::CockpitError;
use em_cockpit::security::credential_manager::CredentialError;
use em_cockpit::services::cache_service::CacheError;

#[test]
fn test_error_display() {
    let err = CockpitError::Config("Invalid setting".to_string());
    assert_eq!(err.to_string(), "Configuration error: Invalid setting");
}

#[test]
fn test_error_from_io() {
    let io_err = std::io::Error::new(std::io::ErrorKind::NotFound, "file not found");
    let cockpit_err: CockpitError = io_err.into();

    assert!(matches!(cockpit_err, CockpitError::Io(_)));
}

#[test]
fn test_app_config_default() {
    assert_eq!(ShortcutConfig::default().flight_console, "Alt+Space");
    assert_eq!(PreferencesConfig::default().pr_stale_threshold_hours, 48);
}

#[test]
fn errors_wrap_their_causes() {
    let security: CockpitError = CredentialError::NotFound("k".to_string()).into();
    assert_eq!(security.to_string(), "Security error: Credential not found: k");
    let cache: CockpitError = CacheError::Expired("k".to_string()).into();
    assert_eq!(cache.to_string(), "Cache error: Cache entry expired: k");
    let io: CockpitError = std::io::Error::new(std::io::ErrorKind::Other, "disk").into();
    assert_eq!(io.to_string(), "IO error: disk");
    assert_eq!(CockpitError::Integration("x".to_string()).to_string(), "Integration error: x");
    assert_eq!(CockpitError::Service("x".to_string()).to_string(), "Service error: x");
    assert_eq!(CockpitError::Serialization("x".to_string()).to_string(), "Serialization error: x");
}

#[test]
fn settings_have_their_defaults() {
    let gemini = GeminiConfig::default();
    assert_eq!(gemini.model, "gemini-pro");
    assert!(gemini.daily_token_limit.is_none());
    let quick = QuickNavShortcuts::default();
    assert_eq!((quick.console.as_str(), quick.radar.as_str()), ("Ctrl+1", "Ctrl+2"));
    assert_eq!(quick.incidents, "Ctrl+3");
    assert_eq!(ShortcutConfig::default().quick_nav.radar, "Ctrl+2");
    assert!(PreferencesConfig::default().store_analysis_history);
    assert_eq!(ThemeMode::System.as_str(), "system");
    assert_eq!(ThemeMode::Dark.as_str(), "dark");
    assert_eq!(GitProviderType::Bitbucket.as_str(), "bitbucket");
    assert_eq!(GitProviderType::GitHub.as_str(), "github");
    assert_eq!(GitProviderType::GitLab.as_str(), "gitlab");
}
