//! Tickets, pull requests and incidents as the trackers report them, the queries
//! sent to the trackers, and the ways in which a request to a tracker can fail.
//! Instants are milliseconds since the Unix epoch.

use crate::text::owned;
use vstd::prelude::*;
use vstd::string::*;

verus! {

/// How a request to a tracker failed.
#[derive(Debug)]
pub enum IntegrationError {
    Network(String),
    Auth(String),
    RateLimit,
    NotFound(String),
    ApiError(String),
    ParseError(String),
    ConfigError(String),
}

impl IntegrationError {
    /// The message of the error.
    pub fn to_string(&self) -> (r: String)
        ensures
            r@ == match *self {
                IntegrationError::Network(m) => "Network error: "@ + m@,
                IntegrationError::Auth(m) => "Authentication failed: "@ + m@,
                IntegrationError::RateLimit => "Rate limit exceeded"@,
                IntegrationError::NotFound(m) => "Resource not found: "@ + m@,
                IntegrationError::ApiError(m) => "API error: "@ + m@,
                IntegrationError::ParseError(m) => "Parse error: "@ + m@,
                IntegrationError::ConfigError(m) => "Configuration error: "@ + m@,
            },
    {
        match self {
            IntegrationError::Network(m) => owned("Network error: ").concat(m.as_str()),
            IntegrationError::Auth(m) => owned("Authentication failed: ").concat(m.as_str()),
            IntegrationError::RateLimit => owned("Rate limit exceeded"),
            IntegrationError::NotFound(m) => owned("Resource not found: ").concat(m.as_str()),
            IntegrationError::ApiError(m) => owned("API error: ").concat(m.as_str()),
            IntegrationError::ParseError(m) => owned("Parse error: ").concat(m.as_str()),
            IntegrationError::ConfigError(m) => owned("Configuration error: ").concat(m.as_str()),
        }
    }

    /// The error for a request that never got an answer: a timeout and a refused
    /// connection have fixed messages, any other failure keeps its own.
    pub fn from_transport_failure(timed_out: bool, connect_failed: bool, message: String) -> (r:
        Self)
        ensures
            r matches IntegrationError::Network(m) && m@ == if timed_out {
                "Request timeout"@
            } else if connect_failed {
                "Connection failed"@
            } else {
                message@
            },
    {
        if timed_out {
            IntegrationError::Network(owned("Request timeout"))
        } else if connect_failed {
            IntegrationError::Network(owned("Connection failed"))
        } else {
            IntegrationError::Network(message)
        }
    }
}

#[derive(Debug, Clone)]
pub struct User {
    pub id: String,
    pub name: String,
    pub email: Option<String>,
    pub avatar_url: Option<String>,
}

#[derive(Debug, Clone, Copy, PartialEq, Eq, Structural)]
pub enum Priority {
    Highest,
    High,
    Medium,
    Low,
    Lowest,
}

impl Priority {
    pub open spec fn name(self) -> Seq<char> {
        match self {
            Priority::Highest => "Highest"@,
            Priority::High => "High"@,
            Priority::Medium => "Medium"@,
            Priority::Low => "Low"@,
            Priority::Lowest => "Lowest"@,
        }
    }

    pub fn as_str(&self) -> (r: &'static str)
        ensures
            r@ == self.name(),
    {
        match self {
            Priority::Highest => "Highest",
            Priority::High => "High",
            Priority::Medium => "Medium",
            Priority::Low => "Low",
            Priority::Lowest => "Lowest",
        }
    }
}

#[derive(Debug, Clone)]
pub struct TicketStatus {
    pub name: String,
    pub category: StatusCategory,
}

#[derive(Debug, Clone, Copy, PartialEq, Eq, Structural)]
pub enum StatusCategory {
    Todo,
    InProgress,
    Done,
}

#[derive(Debug, Clone)]
pub struct Ticket {
    pub id: String,
    /// The identifier shown to users, such as `PROJ-123`.
    pub key: String,
    pub summary: String,
    pub description: Option<String>,
    pub status: TicketStatus,
    pub assignee: Option<User>,
    pub reporter: Option<User>,
    pub priority: Option<Priority>,
    pub sprint: Option<String>,
    pub labels: Vec<String>,
    pub updated_at: i64,
    pub created_at: i64,
}

#[derive(Debug, Clone, Copy, PartialEq, Eq, Structural)]
pub enum PrState {
    Open,
    Merged,
    Declined,
    Draft,
}

impl PrState {
    pub open spec fn name(self) -> Seq<char> {
        match self {
            PrState::Open => "Open"@,
            PrState::Merged => "Merged"@,
            PrState::Declined => "Declined"@,
            PrState::Draft => "Draft"@,
        }
    }

    pub fn as_str(&self) -> (r: &'static str)
        ensures
            r@ == self.name(),
    {
        match self {
            PrState::Open => "Open",
            PrState::Merged => "Merged",
            PrState::Declined => "Declined",
            PrState::Draft => "Draft",
        }
    }
}

#[derive(Debug, Clone, Copy, PartialEq, Eq, Structural)]
pub enum ChecksStatus {
    Pass,
    Fail,
    Running,
    /// No check has run.
    NotRun,
}

#[derive(Debug, Clone)]
pub struct Reviewer {
    pub user: User,
    pub approved: bool,
}

#[derive(Debug, Clone)]
pub struct PullRequest {
    pub id: String,
    pub repository: String,
    pub title: String,
    pub description: Option<String>,
    pub state: PrState,
    pub author: User,
    pub reviewers: Vec<Reviewer>,
    pub source_branch: String,
    pub target_branch: String,
    pub checks_status: ChecksStatus,
    /// What the tracker itself said about staleness when it reported the item.
    pub is_stale: bool,
    pub updated_at: i64,
    pub created_at: i64,
    pub url: String,
}

/// The severity of an incident. The severities are totally ordered:
/// `Low < Medium < High < Critical`.
#[derive(Debug, Clone, Copy, PartialEq, Eq, PartialOrd, Ord, Structural)]
pub enum Severity {
    Low,
    Medium,
    High,
    Critical,
}

impl Severity {
    /// The place of a severity in the order, from 0 (`Low`) to 3 (`Critical`).
    pub open spec fn rank(self) -> int {
        match self {
            Severity::Low => 0,
            Severity::Medium => 1,
            Severity::High => 2,
            Severity::Critical => 3,
        }
    }

    pub open spec fn name(self) -> Seq<char> {
        match self {
            Severity::Low => "Low"@,
            Severity::Medium => "Medium"@,
            Severity::High => "High"@,
            Severity::Critical => "Critical"@,
        }
    }

    pub fn as_str(&self) -> (r: &'static str)
        ensures
            r@ == self.name(),
    {
        match self {
            Severity::Low => "Low",
            Severity::Medium => "Medium",
            Severity::High => "High",
            Severity::Critical => "Critical",
        }
    }

    /// The place of the severity in the order.
    pub fn level(&self) -> (r: u8)
        ensures
            r == self.rank(),
    {
        match self {
            Severity::Low => 0,
            Severity::Medium => 1,
            Severity::High => 2,
            Severity::Critical => 3,
        }
    }
}

/// The order of the severities is strict and total.
pub proof fn lemma_severities_totally_ordered(a: Severity, b: Severity)
    ensures
        0 <= a.rank() <= 3,
        a.rank() == b.rank() <==> a == b,
        Severity::Low.rank() < Severity::Medium.rank(),
        Severity::Medium.rank() < Severity::High.rank(),
        Severity::High.rank() < Severity::Critical.rank(),
{
}

#[derive(Debug, Clone, Copy, PartialEq, Eq, Structural)]
pub enum IncidentStatus {
    Firing,
    Resolved,
}

#[derive(Debug, Clone)]
pub struct Incident {
    pub id: String,
    pub service: String,
    pub severity: Severity,
    pub status: IncidentStatus,
    pub started_at: i64,
    pub resolved_at: Option<i64>,
    pub description: String,
    pub runbook_url: Option<String>,
}

/// A search sent to the ticket tracker.
#[derive(Debug, Clone)]
pub struct TicketSearchQuery {
    pub text: Option<String>,
    pub project: Option<String>,
    pub assignee: Option<String>,
    pub status: Option<String>,
    pub limit: usize,
}

impl Default for TicketSearchQuery {
    fn default() -> (r: Self)
        ensures
            r.text is None,
            r.project is None,
            r.assignee is None,
            r.status is None,
            r.limit == 0,
    {
        TicketSearchQuery { text: None, project: None, assignee: None, status: None, limit: 0 }
    }
}

impl TicketSearchQuery {
    /// A query without conditions for at most ten tickets.
    pub fn new() -> (r: Self)
        ensures
            r.text is None,
            r.project is None,
            r.assignee is None,
            r.status is None,
            r.limit == 10,
    {
        TicketSearchQuery { text: None, project: None, assignee: None, status: None, limit: 10 }
    }

    pub fn with_text(self, text: &str) -> (r: Self)
        ensures
            r.text matches Some(t) && t@ == text@,
            r.project == self.project,
            r.assignee == self.assignee,
            r.status == self.status,
            r.limit == self.limit,
    {
        let mut query = self;
        query.text = Some(owned(text));
        query
    }

    pub fn with_project(self, project: &str) -> (r: Self)
        ensures
            r.project matches Some(p) && p@ == project@,
            r.text == self.text,
            r.assignee == self.assignee,
            r.status == self.status,
            r.limit == self.limit,
    {
        let mut query = self;
        query.project = Some(owned(project));
        query
    }

    pub fn with_limit(self, limit: usize) -> (r: Self)
        ensures
            r.limit == limit,
            r.text == self.text,
            r.project == self.project,
            r.assignee == self.assignee,
            r.status == self.status,
    {
        let mut query = self;
        query.limit = limit;
        query
    }
}

/// Which pull requests a tracker is asked for.
#[derive(Debug, Clone)]
pub struct PrFilter {
    /// The repositories to look in; none means all that are configured.
    pub repositories: Vec<String>,
    pub state: Option<PrState>,
    pub stale_only: bool,
    pub stale_threshold_hours: u32,
    pub limit: usize,
}

impl Default for PrFilter {
    fn default() -> (r: Self)
        ensures
            r.repositories@.len() == 0,
            r.state is None,
            !r.stale_only,
            r.stale_threshold_hours == 0,
            r.limit == 0,
    {
        PrFilter {
            repositories: Vec::new(),
            state: None,
            stale_only: false,
            stale_threshold_hours: 0,
            limit: 0,
        }
    }
}

impl PrFilter {
    /// A filter for at most twenty pull requests of all repositories, with a
    /// staleness threshold of 48 hours.
    pub fn new() -> (r: Self)
        ensures
            r.repositories@.len() == 0,
            r.state is None,
            !r.stale_only,
            r.stale_threshold_hours == 48,
            r.limit == 20,
    {
        PrFilter {
            repositories: Vec::new(),
            state: None,
            stale_only: false,
            stale_threshold_hours: 48,
            limit: 20,
        }
    }

    pub fn with_repositories(self, repos: Vec<String>) -> (r: Self)
        ensures
            r.repositories == repos,
            r.state == self.state,
            r.stale_only == self.stale_only,
            r.stale_threshold_hours == self.stale_threshold_hours,
            r.limit == self.limit,
    {
        let mut filter = self;
        filter.repositories = repos;
        filter
    }

    pub fn stale_only(self) -> (r: Self)
        ensures
            r.stale_only,
            r.repositories == self.repositories,
            r.state == self.state,
            r.stale_threshold_hours == self.stale_threshold_hours,
            r.limit == self.limit,
    {
        let mut filter = self;
        filter.stale_only = true;
        filter
    }
}

} // verus!
