//! The client of the monitoring platform, as far as it computes.

use crate::integrations::traits::{Incident, IncidentStatus, IntegrationError, Severity};
use crate::text::{copied, lowercase, lowercase_of, owned, same};
use vstd::prelude::*;
use vstd::string::*;

verus! {

/// The severity that a label in lower case stands for; `Medium` for a label
/// that is not known.
pub open spec fn severity_labelled(lower: Seq<char>) -> Severity {
    if lower == "critical"@ || lower == "p1"@ {
        Severity::Critical
    } else if lower == "high"@ || lower == "p2"@ {
        Severity::High
    } else if lower == "medium"@ || lower == "warning"@ || lower == "p3"@ {
        Severity::Medium
    } else if lower == "low"@ || lower == "info"@ || lower == "p4"@ {
        Severity::Low
    } else {
        Severity::Medium
    }
}

/// The severity that a label in lower case stands for.
pub fn severity_for(lower: &str) -> (r: Severity)
    ensures
        r == severity_labelled(lower@),
{
    if same(lower, "critical") || same(lower, "p1") {
        Severity::Critical
    } else if same(lower, "high") || same(lower, "p2") {
        Severity::High
    } else if same(lower, "medium") || same(lower, "warning") || same(lower, "p3") {
        Severity::Medium
    } else if same(lower, "low") || same(lower, "info") || same(lower, "p4") {
        Severity::Low
    } else {
        Severity::Medium
    }
}

/// The severity of an alert, from the label it carries, whatever its case;
/// `Medium` for an alert without the label.
pub fn severity_from_label(label: Option<&str>) -> (r: Severity)
    ensures
        r == match label {
            Some(text) => severity_labelled(lowercase_of(text@)),
            None => Severity::Medium,
        },
{
    match label {
        Some(text) => {
            let lower = lowercase(text);
            severity_for(lower.as_str())
        },
        None => Severity::Medium,
    }
}

/// Whether an alert in this state counts as an incident.
pub fn is_active_state(state: &str) -> (r: bool)
    ensures
        r == (state@ == "active"@),
{
    same(state, "active")
}

/// An alert as the platform reports one: what the labels and annotations say, as
/// far as it is read; the instant in milliseconds since the Unix epoch.
#[derive(Debug, Clone)]
pub struct GrafanaAlert {
    pub fingerprint: String,
    /// The label `service`.
    pub service: Option<String>,
    /// The label `severity`.
    pub severity: Option<String>,
    /// The annotation `description`.
    pub description: Option<String>,
    /// The annotation `runbook_url`.
    pub runbook_url: Option<String>,
    pub starts_at: i64,
    pub state: String,
}

/// Whether `incident` says what the platform reports of an alert: it is firing,
/// an alert without a service belongs to the service `unknown`, and an alert
/// without a description is described by its fingerprint.
pub open spec fn is_incident_of(incident: Incident, alert: GrafanaAlert) -> bool {
    &&& incident.id == alert.fingerprint
    &&& incident.service@ == match alert.service {
        Some(service) => service@,
        None => "unknown"@,
    }
    &&& incident.severity == match alert.severity {
        Some(label) => severity_labelled(lowercase_of(label@)),
        None => Severity::Medium,
    }
    &&& incident.status == IncidentStatus::Firing
    &&& incident.started_at == alert.starts_at
    &&& incident.resolved_at is None
    &&& incident.description@ == match alert.description {
        Some(description) => description@,
        None => alert.fingerprint@,
    }
    &&& incident.runbook_url == alert.runbook_url
}

/// The alerts that are active, in their order.
pub open spec fn active_alerts(alerts: Seq<GrafanaAlert>) -> Seq<GrafanaAlert>
    decreases alerts.len(),
{
    if alerts.len() == 0 {
        Seq::empty()
    } else if alerts.last().state@ == "active"@ {
        active_alerts(alerts.drop_last()).push(alerts.last())
    } else {
        active_alerts(alerts.drop_last())
    }
}

/// The incident that stands for an alert.
pub fn map_alert(alert: &GrafanaAlert) -> (incident: Incident)
    ensures
        is_incident_of(incident, *alert),
{
    Incident {
        id: alert.fingerprint.clone(),
        service: match &alert.service {
            Some(service) => service.clone(),
            None => owned("unknown"),
        },
        severity: match &alert.severity {
            Some(label) => severity_from_label(Some(label.as_str())),
            None => severity_from_label(None),
        },
        status: IncidentStatus::Firing,
        started_at: alert.starts_at,
        resolved_at: None,
        description: match &alert.description {
            Some(description) => description.clone(),
            None => alert.fingerprint.clone(),
        },
        runbook_url: copied(&alert.runbook_url),
    }
}

/// The incidents that stand for the active ones among the alerts, in their order.
pub fn incidents_from(alerts: &Vec<GrafanaAlert>) -> (r: Vec<Incident>)
    ensures
        r@.len() == active_alerts(alerts@).len(),
        forall|i: int|
            0 <= i < r@.len() ==> is_incident_of(#[trigger] r@[i], active_alerts(alerts@)[i]),
{
    let mut out: Vec<Incident> = Vec::new();
    let mut i: usize = 0;
    assert(alerts@.subrange(0, 0) =~= Seq::<GrafanaAlert>::empty());
    while i < alerts.len()
        invariant
            i <= alerts.len(),
            out@.len() == active_alerts(alerts@.subrange(0, i as int)).len(),
            forall|k: int|
                0 <= k < out@.len() ==> is_incident_of(
                    #[trigger] out@[k],
                    active_alerts(alerts@.subrange(0, i as int))[k],
                ),
        decreases alerts.len() - i,
    {
        let ghost before = active_alerts(alerts@.subrange(0, i as int));
        let ghost shown = out@;
        assert(alerts@.subrange(0, i + 1).drop_last() =~= alerts@.subrange(0, i as int));
        assert(alerts@.subrange(0, i + 1).last() == alerts@[i as int]);
        if is_active_state(alerts[i].state.as_str()) {
            out.push(map_alert(&alerts[i]));
            proof {
                let after = active_alerts(alerts@.subrange(0, i + 1));
                assert forall|k: int| 0 <= k < out@.len() implies is_incident_of(
                    #[trigger] out@[k],
                    after[k],
                ) by {
                    if k < shown.len() {
                        assert(out@[k] == shown[k]);
                        assert(after[k] == before[k]);
                    }
                }
            }
        }
        i = i + 1;
    }
    assert(alerts@.subrange(0, alerts@.len() as int) =~= alerts@);
    out
}

/// The value of the authorization header for a key; an empty key where none is set.
pub fn bearer_header(api_key: Option<&str>) -> (r: String)
    ensures
        r@ == "Bearer "@ + match api_key {
            Some(key) => key@,
            None => ""@,
        },
{
    match api_key {
        Some(key) => owned("Bearer ").concat(key),
        None => owned("Bearer ").concat(""),
    }
}

/// Refuses settings without a key.
pub fn require_api_key(api_key: Option<&str>) -> (r: Result<(), IntegrationError>)
    ensures
        api_key is Some ==> r is Ok,
        api_key is None ==> (r matches Err(IntegrationError::ConfigError(m)) && m@
            == "Grafana API key is required"@),
{
    match api_key {
        Some(_) => Ok(()),
        None => Err(IntegrationError::ConfigError(owned("Grafana API key is required"))),
    }
}

} // verus!
