//! The items that the outside trackers supply, and the settings of their clients.

pub mod ai;
pub mod git;
pub mod jira;
pub mod monitoring;
pub mod traits;

pub use traits::{
    ChecksStatus, Incident, IncidentStatus, IntegrationError, PrFilter, PrState, Priority,
    PullRequest, Reviewer, Severity, StatusCategory, Ticket, TicketSearchQuery, TicketStatus, User,
};
