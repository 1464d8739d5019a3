//! The settings of the application, as far as they are plain data.

use crate::text::owned;
use vstd::prelude::*;
use vstd::string::*;

verus! {

/// The settings of the ticket tracker.
#[derive(Debug, Clone)]
pub struct JiraConfig {
    pub base_url: String,
    pub default_project: Option<String>,
    pub username: Option<String>,
}

/// The kind of git hosting.
#[derive(Debug, Clone, Copy, PartialEq, Eq, Structural)]
pub enum GitProviderType {
    Bitbucket,
    GitHub,
    GitLab,
}

impl GitProviderType {
    /// The name of the kind in stored settings.
    pub open spec fn name(self) -> Seq<char> {
        match self {
            GitProviderType::Bitbucket => "bitbucket"@,
            GitProviderType::GitHub => "github"@,
            GitProviderType::GitLab => "gitlab"@,
        }
    }

    /// The name of the kind in stored settings.
    pub fn as_str(&self) -> (r: &'static str)
        ensures
            r@ == self.name(),
    {
        match self {
            GitProviderType::Bitbucket => "bitbucket",
            GitProviderType::GitHub => "github",
            GitProviderType::GitLab => "gitlab",
        }
    }
}

/// The settings of the git hosting.
#[derive(Debug, Clone)]
pub struct GitConfig {
    pub provider: GitProviderType,
    pub base_url: Option<String>,
    pub workspace: Option<String>,
    pub repositories: Vec<String>,
}

/// The settings of the documentation platform.
#[derive(Debug, Clone)]
pub struct DocsConfig {
    pub platform: String,
    pub base_url: String,
}

/// The settings of the analysis service.
#[derive(Debug, Clone)]
pub struct GeminiConfig {
    pub model: String,
    pub daily_token_limit: Option<u32>,
}

impl Default for GeminiConfig {
    fn default() -> (r: Self)
        ensures
            r.model@ == "gemini-pro"@,
            r.daily_token_limit is None,
    {
        GeminiConfig { model: owned("gemini-pro"), daily_token_limit: None }
    }
}

/// The shortcuts for quick navigation.
#[derive(Debug, Clone)]
pub struct QuickNavShortcuts {
    pub console: String,
    pub radar: String,
    pub incidents: String,
}

impl Default for QuickNavShortcuts {
    fn default() -> (r: Self)
        ensures
            r.console@ == "Ctrl+1"@,
            r.radar@ == "Ctrl+2"@,
            r.incidents@ == "Ctrl+3"@,
    {
        QuickNavShortcuts {
            console: owned("Ctrl+1"),
            radar: owned("Ctrl+2"),
            incidents: owned("Ctrl+3"),
        }
    }
}

/// The keyboard shortcuts.
#[derive(Debug, Clone)]
pub struct ShortcutConfig {
    /// The shortcut that opens the console from anywhere.
    pub flight_console: String,
    pub quick_nav: QuickNavShortcuts,
}

impl Default for ShortcutConfig {
    fn default() -> (r: Self)
        ensures
            r.flight_console@ == "Alt+Space"@,
            r.quick_nav.console@ == "Ctrl+1"@,
            r.quick_nav.radar@ == "Ctrl+2"@,
            r.quick_nav.incidents@ == "Ctrl+3"@,
    {
        ShortcutConfig { flight_console: owned("Alt+Space"), quick_nav: QuickNavShortcuts::default() }
    }
}

#[derive(Debug, Clone, Copy, PartialEq, Eq, Structural)]
pub enum ThemeMode {
    Light,
    Dark,
    System,
}

impl ThemeMode {
    /// The name of the mode in stored settings.
    pub open spec fn name(self) -> Seq<char> {
        match self {
            ThemeMode::Light => "light"@,
            ThemeMode::Dark => "dark"@,
            ThemeMode::System => "system"@,
        }
    }

    /// The name of the mode in stored settings.
    pub fn as_str(&self) -> (r: &'static str)
        ensures
            r@ == self.name(),
    {
        match self {
            ThemeMode::Light => "light",
            ThemeMode::Dark => "dark",
            ThemeMode::System => "system",
        }
    }
}

/// What the user prefers.
#[derive(Debug, Clone, Copy, PartialEq, Eq, Structural)]
pub struct PreferencesConfig {
    /// After how many hours without an update a pull request is stale.
    pub pr_stale_threshold_hours: u32,
    pub store_analysis_history: bool,
}

impl Default for PreferencesConfig {
    fn default() -> (r: Self)
        ensures
            r == (PreferencesConfig { pr_stale_threshold_hours: 48, store_analysis_history: true }),
    {
        PreferencesConfig { pr_stale_threshold_hours: 48, store_analysis_history: true }
    }
}

} // verus!
