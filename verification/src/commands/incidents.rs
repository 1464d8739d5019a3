//! Incidents as sent to the user interface.

use crate::commands::search::{is_refusal, CommandError};
use vstd::prelude::*;
use vstd::string::*;

verus! {

/// Whether only firing incidents are asked for where the request does not say.
pub fn default_true() -> (r: bool)
    ensures
        r,
{
    true
}

/// A request for a list of incidents.
#[derive(Debug, Clone)]
pub struct IncidentFilterParams {
    pub services: Vec<String>,
    pub min_severity: Option<String>,
    pub active_only: bool,
}

#[derive(Debug, Clone)]
pub struct IncidentSummaryResponse {
    pub total_active: usize,
    pub critical_count: usize,
    pub high_count: usize,
    pub medium_count: usize,
    pub low_count: usize,
    pub by_service: Vec<(String, usize)>,
    pub tray_state: String,
    pub most_severe: Option<String>,
}

#[derive(Debug, Clone)]
pub struct IncidentItemDto {
    pub id: String,
    pub service: String,
    pub severity: String,
    /// From 4 for critical down to 1 for low.
    pub severity_level: u8,
    pub status: String,
    pub description: String,
    pub started_at: String,
    pub resolved_at: Option<String>,
    pub duration_mins: i64,
    pub runbook_url: Option<String>,
}

/// Acknowledges an incident. An empty identifier is refused.
pub fn acknowledge_incident(incident_id: &str) -> (r: Result<(), CommandError>)
    ensures
        incident_id@.len() > 0 ==> r is Ok,
        incident_id@.len() == 0 ==> is_refusal(r, "Incident ID is required"@),
{
    if incident_id.unicode_len() == 0 {
        Err(CommandError::validation("Incident ID is required"))
    } else {
        Ok(())
    }
}

} // verus!
