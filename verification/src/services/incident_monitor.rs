//! Monitoring of incidents: the summary with its counts by severity and by
//! service, the most severe incident, the alert level, and the filter. Instants
//! are milliseconds since the Unix epoch; the present instant is an argument.

use crate::integrations::traits::{Incident, IncidentStatus, Severity};
use crate::system::tray::TrayState;
use crate::tally::{count_label, label_count, lemma_tally, table_view, tally, tally_count};
use crate::text::texts;
use vstd::prelude::*;
use vstd::string::*;

verus! {

/// The key under which the summary is cached.
pub fn summary_cache_key() -> (r: &'static str)
    ensures
        r@ == "incident_summary"@,
{
    "incident_summary"
}

/// The whole minutes in a span of milliseconds, rounded towards zero.
pub open spec fn whole_minutes(millis: int) -> int {
    if millis >= 0 {
        millis / 60_000
    } else {
        -((-millis) / 60_000)
    }
}

/// The incidents that are firing, in their order.
pub open spec fn firing(incidents: Seq<Incident>) -> Seq<Incident>
    decreases incidents.len(),
{
    if incidents.len() == 0 {
        Seq::empty()
    } else if incidents.last().status == IncidentStatus::Firing {
        firing(incidents.drop_last()).push(incidents.last())
    } else {
        firing(incidents.drop_last())
    }
}

/// The number of incidents of a severity.
pub open spec fn severity_count(incidents: Seq<Incident>, severity: Severity) -> nat
    decreases incidents.len(),
{
    if incidents.len() == 0 {
        0
    } else {
        severity_count(incidents.drop_last(), severity) + if incidents.last().severity
            == severity {
            1nat
        } else {
            0nat
        }
    }
}

/// The services of the incidents, in their order.
pub open spec fn services_of(incidents: Seq<Incident>) -> Seq<Seq<char>> {
    Seq::new(incidents.len(), |i: int| incidents[i].service@)
}

/// The highest severity among the incidents.
pub open spec fn most_severe(incidents: Seq<Incident>) -> Option<Severity>
    decreases incidents.len(),
{
    if incidents.len() == 0 {
        None
    } else {
        match most_severe(incidents.drop_last()) {
            Some(highest) => Some(
                if highest.rank() >= incidents.last().severity.rank() {
                    highest
                } else {
                    incidents.last().severity
                },
            ),
            None => Some(incidents.last().severity),
        }
    }
}

/// The alert level for a list of incidents: `Red` where one of them is critical
/// or high, otherwise `Amber` where there is any, otherwise `Green`.
pub open spec fn incident_level(incidents: Seq<Incident>) -> TrayState {
    if exists|i: int|
        0 <= i < incidents.len() && (#[trigger] incidents[i]).severity.rank() >= Severity::High.rank() {
        TrayState::Red
    } else if incidents.len() > 0 {
        TrayState::Amber
    } else {
        TrayState::Green
    }
}

/// For how many whole minutes the incident that started first has been running.
pub open spec fn longest_minutes(incidents: Seq<Incident>, now: i64) -> Option<int>
    decreases incidents.len(),
{
    if incidents.len() == 0 {
        None
    } else {
        let minutes = whole_minutes(now - incidents.last().started_at);
        match longest_minutes(incidents.drop_last(), now) {
            Some(longest) => Some(
                if longest >= minutes {
                    longest
                } else {
                    minutes
                },
            ),
            None => Some(minutes),
        }
    }
}

/// The counts of a summary agree with one another: the firing incidents are no
/// more than the incidents, every one of them is firing, and the counts by
/// severity add up to their number.
pub proof fn lemma_summary_counts(incidents: Seq<Incident>)
    ensures
        firing(incidents).len() <= incidents.len(),
        forall|i: int|
            0 <= i < firing(incidents).len() ==> (#[trigger] firing(incidents)[i]).status
                == IncidentStatus::Firing,
        severity_count(firing(incidents), Severity::Critical) + severity_count(
            firing(incidents),
            Severity::High,
        ) + severity_count(firing(incidents), Severity::Medium) + severity_count(
            firing(incidents),
            Severity::Low,
        ) == firing(incidents).len(),
    decreases incidents.len(),
{
    if incidents.len() > 0 {
        lemma_summary_counts(incidents.drop_last());
        let before = firing(incidents.drop_last());
        let after = firing(incidents);
        assert forall|i: int| 0 <= i < after.len() implies (#[trigger] after[i]).status
            == IncidentStatus::Firing by {
            if i < before.len() {
                assert(after[i] == before[i]);
            }
        }
        if incidents.last().status == IncidentStatus::Firing {
            assert(after.drop_last() =~= before);
        }
    }
}

/// The most severe incident is as severe as any, and is one of them.
pub proof fn lemma_most_severe(incidents: Seq<Incident>)
    ensures
        most_severe(incidents) is None <==> incidents.len() == 0,
        most_severe(incidents) matches Some(highest) ==> (forall|i: int|
            0 <= i < incidents.len() ==> (#[trigger] incidents[i]).severity.rank() <= highest.rank())
            && (exists|i: int| 0 <= i < incidents.len() && (#[trigger] incidents[i]).severity == highest),
    decreases incidents.len(),
{
    if incidents.len() > 0 {
        let front = incidents.drop_last();
        lemma_most_severe(front);
        let highest = most_severe(incidents)->0;
        assert forall|i: int| 0 <= i < incidents.len() implies (#[trigger] incidents[i]).severity.rank()
            <= highest.rank() by {
            if i < front.len() {
                assert(front[i] == incidents[i]);
            }
        }
        if highest == incidents.last().severity {
            assert(incidents[incidents.len() - 1].severity == highest);
        } else {
            let i = choose|i: int| 0 <= i < front.len() && (#[trigger] front[i]).severity == highest;
            assert(incidents[i] == front[i]);
        }
    }
}

/// The alert level follows the most severe incident: `Red` for critical or
/// high, `Amber` for medium or low, `Green` where there is no incident.
pub proof fn lemma_level_follows_most_severe(incidents: Seq<Incident>)
    ensures
        incident_level(incidents) == match most_severe(incidents) {
            Some(highest) => if highest.rank() >= Severity::High.rank() {
                TrayState::Red
            } else {
                TrayState::Amber
            },
            None => TrayState::Green,
        },
{
    lemma_most_severe(incidents);
}

/// The counts of the incidents.
#[derive(Debug, Clone)]
pub struct IncidentSummary {
    /// The number of incidents that are firing.
    pub total_active: usize,
    pub critical_count: usize,
    pub high_count: usize,
    pub medium_count: usize,
    pub low_count: usize,
    /// The number of firing incidents of each service, the services in the order
    /// in which they first occur.
    pub by_service: Vec<(String, usize)>,
    /// The highest severity among all incidents, firing or not.
    pub most_severe: Option<Severity>,
    pub tray_state: TrayState,
    /// For how many whole minutes the longest firing incident has been running.
    pub longest_duration_mins: Option<i64>,
}

impl Default for IncidentSummary {
    fn default() -> (r: Self)
        ensures
            r.total_active == 0,
            r.critical_count == 0,
            r.high_count == 0,
            r.medium_count == 0,
            r.low_count == 0,
            r.by_service@.len() == 0,
            r.most_severe is None,
            r.tray_state == TrayState::Neutral,
            r.longest_duration_mins is None,
    {
        IncidentSummary {
            total_active: 0,
            critical_count: 0,
            high_count: 0,
            medium_count: 0,
            low_count: 0,
            by_service: Vec::new(),
            most_severe: None,
            tray_state: TrayState::Neutral,
            longest_duration_mins: None,
        }
    }
}

impl IncidentSummary {
    pub fn new() -> (r: Self)
        ensures
            r.total_active == 0,
            r.critical_count == 0,
            r.high_count == 0,
            r.medium_count == 0,
            r.low_count == 0,
            r.by_service@.len() == 0,
            r.most_severe is None,
            r.tray_state == TrayState::Neutral,
            r.longest_duration_mins is None,
    {
        IncidentSummary {
            total_active: 0,
            critical_count: 0,
            high_count: 0,
            medium_count: 0,
            low_count: 0,
            by_service: Vec::new(),
            most_severe: None,
            tray_state: TrayState::Neutral,
            longest_duration_mins: None,
        }
    }

    /// The alert level for a list of incidents.
    pub fn calculate_tray_state(incidents: &Vec<Incident>) -> (r: TrayState)
        ensures
            r == incident_level(incidents@),
    {
        let mut i: usize = 0;
        while i < incidents.len()
            invariant
                i <= incidents.len(),
                forall|k: int|
                    0 <= k < i ==> (#[trigger] incidents@[k]).severity.rank() < Severity::High.rank(),
            decreases incidents.len() - i,
        {
            if incidents[i].severity.level() >= Severity::High.level() {
                return TrayState::Red;
            }
            i = i + 1;
        }
        if incidents.len() > 0 {
            TrayState::Amber
        } else {
            TrayState::Green
        }
    }

    /// The highest severity among the incidents.
    pub fn get_most_severe(incidents: &Vec<Incident>) -> (r: Option<Severity>)
        ensures
            r == most_severe(incidents@),
    {
        let mut highest: Option<Severity> = None;
        let mut i: usize = 0;
        assert(incidents@.subrange(0, 0) =~= Seq::<Incident>::empty());
        while i < incidents.len()
            invariant
                i <= incidents.len(),
                highest == most_severe(incidents@.subrange(0, i as int)),
            decreases incidents.len() - i,
        {
            assert(incidents@.subrange(0, i + 1).drop_last() =~= incidents@.subrange(0, i as int));
            assert(incidents@.subrange(0, i + 1).last() == incidents@[i as int]);
            let severity = incidents[i].severity;
            highest = match highest {
                Some(so_far) => Some(
                    if so_far.level() >= severity.level() {
                        so_far
                    } else {
                        severity
                    },
                ),
                None => Some(severity),
            };
            i = i + 1;
        }
        assert(incidents@.subrange(0, incidents@.len() as int) =~= incidents@);
        highest
    }

    /// The number of firing incidents of a service, if it has any.
    pub fn service_count(&self, service: &str) -> (r: Option<usize>)
        ensures
            match r {
                Some(n) => tally_count(table_view(self.by_service@), service@) == Some(n as nat),
                None => tally_count(table_view(self.by_service@), service@) is None,
            },
    {
        label_count(&self.by_service, service)
    }
}

/// Which incidents are wanted.
#[derive(Debug, Clone)]
pub struct IncidentFilter {
    /// The lowest severity that is wanted; none means all.
    pub min_severity: Option<Severity>,
    /// The services that are wanted; none means all.
    pub services: Vec<String>,
    /// Whether only firing incidents are wanted.
    pub active_only: bool,
}

impl Default for IncidentFilter {
    fn default() -> (r: Self)
        ensures
            r.min_severity is None,
            r.services@.len() == 0,
            !r.active_only,
    {
        IncidentFilter { min_severity: None, services: Vec::new(), active_only: false }
    }
}

/// Whether an incident is wanted: it is at least as severe as `min_severity`
/// asks, its service is among `services` where there are any, and it is firing
/// where only firing ones are wanted.
pub open spec fn wanted(
    incident: &Incident,
    min_severity: Option<Severity>,
    services: Seq<Seq<char>>,
    active_only: bool,
) -> bool {
    &&& min_severity matches Some(lowest) ==> incident.severity.rank() >= lowest.rank()
    &&& services.len() > 0 ==> services.contains(incident.service@)
    &&& active_only ==> incident.status == IncidentStatus::Firing
}

/// The incidents that are wanted, in their order.
pub open spec fn wanted_among(
    incidents: Seq<Incident>,
    min_severity: Option<Severity>,
    services: Seq<Seq<char>>,
    active_only: bool,
) -> Seq<Incident>
    decreases incidents.len(),
{
    if incidents.len() == 0 {
        Seq::empty()
    } else if wanted(&incidents.last(), min_severity, services, active_only) {
        wanted_among(incidents.drop_last(), min_severity, services, active_only).push(
            incidents.last(),
        )
    } else {
        wanted_among(incidents.drop_last(), min_severity, services, active_only)
    }
}

impl IncidentFilter {
    /// Whether the filter lets the incident pass.
    pub open spec fn admits(&self, incident: &Incident) -> bool {
        wanted(incident, self.min_severity, texts(self.services@), self.active_only)
    }

    /// A filter for the firing incidents of all services and severities.
    pub fn new() -> (r: Self)
        ensures
            r.min_severity is None,
            r.services@.len() == 0,
            r.active_only,
    {
        IncidentFilter { min_severity: None, services: Vec::new(), active_only: true }
    }

    pub fn with_min_severity(self, severity: Severity) -> (r: Self)
        ensures
            r.min_severity == Some(severity),
            r.services == self.services,
            r.active_only == self.active_only,
    {
        let mut filter = self;
        filter.min_severity = Some(severity);
        filter
    }

    pub fn with_services(self, services: Vec<String>) -> (r: Self)
        ensures
            r.services == services,
            r.min_severity == self.min_severity,
            r.active_only == self.active_only,
    {
        let mut filter = self;
        filter.services = services;
        filter
    }

    pub fn include_resolved(self) -> (r: Self)
        ensures
            !r.active_only,
            r.services == self.services,
            r.min_severity == self.min_severity,
    {
        let mut filter = self;
        filter.active_only = false;
        filter
    }

    fn names_service(&self, service: &String) -> (r: bool)
        ensures
            r == texts(self.services@).contains(service@),
    {
        let mut i: usize = 0;
        while i < self.services.len()
            invariant
                i <= self.services.len(),
                forall|k: int| 0 <= k < i ==> (#[trigger] texts(self.services@)[k]) != service@,
            decreases self.services.len() - i,
        {
            if self.services[i] == *service {
                assert(texts(self.services@)[i as int] == service@);
                return true;
            }
            assert(texts(self.services@)[i as int] != service@);
            i = i + 1;
        }
        false
    }

    /// Whether the filter lets the incident pass.
    pub fn matches(&self, incident: &Incident) -> (r: bool)
        ensures
            r == self.admits(incident),
    {
        match self.min_severity {
            Some(lowest) => {
                if incident.severity.level() < lowest.level() {
                    return false;
                }
            },
            None => {},
        }
        if self.services.len() > 0 && !self.names_service(&incident.service) {
            return false;
        }
        if self.active_only && incident.status != IncidentStatus::Firing {
            return false;
        }
        true
    }
}

/// The incidents that the filter lets pass, in their order.
pub open spec fn admitted(incidents: Seq<Incident>, filter: IncidentFilter) -> Seq<Incident> {
    wanted_among(incidents, filter.min_severity, texts(filter.services@), filter.active_only)
}

/// The settings of the monitor.
#[derive(Debug, Clone)]
pub struct IncidentMonitorConfig {
    /// For how long a summary stays fresh, in milliseconds.
    pub refresh_interval: i64,
    pub services: Vec<String>,
    /// From which severity on an incident calls for an alert.
    pub alert_on_severity: Severity,
}

impl Default for IncidentMonitorConfig {
    /// Summaries fresh for thirty seconds, all services, alerts from `High` on.
    fn default() -> (r: Self)
        ensures
            r.refresh_interval == 30_000,
            r.services@.len() == 0,
            r.alert_on_severity == Severity::High,
    {
        IncidentMonitorConfig {
            refresh_interval: 30_000,
            services: Vec::new(),
            alert_on_severity: Severity::High,
        }
    }
}

impl IncidentMonitorConfig {
    pub fn new() -> (r: Self)
        ensures
            r.refresh_interval == 30_000,
            r.services@.len() == 0,
            r.alert_on_severity == Severity::High,
    {
        IncidentMonitorConfig {
            refresh_interval: 30_000,
            services: Vec::new(),
            alert_on_severity: Severity::High,
        }
    }

    pub fn with_services(self, services: Vec<String>) -> (r: Self)
        ensures
            r.services == services,
            r.refresh_interval == self.refresh_interval,
            r.alert_on_severity == self.alert_on_severity,
    {
        let mut config = self;
        config.services = services;
        config
    }

    pub fn alert_on(self, severity: Severity) -> (r: Self)
        ensures
            r.alert_on_severity == severity,
            r.refresh_interval == self.refresh_interval,
            r.services == self.services,
    {
        let mut config = self;
        config.alert_on_severity = severity;
        config
    }
}

/// The whole minutes between `started_at` and `now`, rounded towards zero.
pub fn minutes_since(started_at: i64, now: i64) -> (r: i64)
    ensures
        r == whole_minutes(now - started_at),
{
    let span: i128 = now as i128 - started_at as i128;
    if span >= 0 {
        (span / 60_000i128) as i64
    } else {
        let back: i128 = (0 - span) / 60_000i128;
        (0 - back) as i64
    }
}

/// The monitor and its settings.
pub struct IncidentMonitor {
    config: IncidentMonitorConfig,
}

impl IncidentMonitor {
    /// From which severity on an incident calls for an alert.
    pub closed spec fn alert_severity(&self) -> Severity {
        self.config.alert_on_severity
    }

    /// For how long a summary stays fresh, in milliseconds.
    pub closed spec fn refresh_millis(&self) -> i64 {
        self.config.refresh_interval
    }

    pub fn new(config: IncidentMonitorConfig) -> (r: Self)
        ensures
            r.alert_severity() == config.alert_on_severity,
            r.refresh_millis() == config.refresh_interval,
    {
        IncidentMonitor { config }
    }

    /// For how long a summary stays fresh, in milliseconds.
    pub fn refresh_interval(&self) -> (r: i64)
        ensures
            r == self.refresh_millis(),
    {
        self.config.refresh_interval
    }

    /// The summary of the incidents at `now`, computed from the whole list. The
    /// counts, the services and the duration are those of the firing incidents;
    /// the most severe incident and the alert level are those of all.
    pub fn compute_summary(&self, incidents: &Vec<Incident>, now: i64) -> (r: IncidentSummary)
        ensures
            r.total_active == firing(incidents@).len(),
            r.critical_count == severity_count(firing(incidents@), Severity::Critical),
            r.high_count == severity_count(firing(incidents@), Severity::High),
            r.medium_count == severity_count(firing(incidents@), Severity::Medium),
            r.low_count == severity_count(firing(incidents@), Severity::Low),
            table_view(r.by_service@) == tally(services_of(firing(incidents@))),
            r.most_severe == most_severe(incidents@),
            r.tray_state == incident_level(incidents@),
            match longest_minutes(firing(incidents@), now) {
                Some(minutes) => r.longest_duration_mins == Some(minutes as i64) && minutes
                    == minutes as i64,
                None => r.longest_duration_mins is None,
            },
    {
        let mut active: usize = 0;
        let mut critical: usize = 0;
        let mut high: usize = 0;
        let mut medium: usize = 0;
        let mut low: usize = 0;
        let mut by_service: Vec<(String, usize)> = Vec::new();
        let mut longest: Option<i64> = None;
        let mut i: usize = 0;
        assert(incidents@.subrange(0, 0) =~= Seq::<Incident>::empty());
        assert(services_of(Seq::<Incident>::empty()) =~= Seq::<Seq<char>>::empty());
        assert(table_view(by_service@) =~= Seq::<(Seq<char>, nat)>::empty());
        while i < incidents.len()
            invariant
                i <= incidents.len(),
                active <= i,
                critical <= i,
                high <= i,
                medium <= i,
                low <= i,
                firing(incidents@.subrange(0, i as int)).len() == active,
                critical == severity_count(
                    firing(incidents@.subrange(0, i as int)),
                    Severity::Critical,
                ),
                high == severity_count(firing(incidents@.subrange(0, i as int)), Severity::High),
                medium == severity_count(
                    firing(incidents@.subrange(0, i as int)),
                    Severity::Medium,
                ),
                low == severity_count(firing(incidents@.subrange(0, i as int)), Severity::Low),
                table_view(by_service@) == tally(
                    services_of(firing(incidents@.subrange(0, i as int))),
                ),
                match longest_minutes(firing(incidents@.subrange(0, i as int)), now) {
                    Some(minutes) => longest == Some(minutes as i64) && minutes == minutes as i64,
                    None => longest is None,
                },
            decreases incidents.len() - i,
        {
            let ghost done = incidents@.subrange(0, i as int);
            let ghost next = incidents@.subrange(0, i + 1);
            let incident = &incidents[i];
            proof {
                assert(next.drop_last() =~= done);
                assert(next.last() == *incident);
                let names = services_of(firing(done));
                lemma_tally(names, incident.service@);
                assert forall|k: int| 0 <= k < by_service@.len() implies (
                #[trigger] by_service@[k]).1 < usize::MAX by {
                    assert(table_view(by_service@)[k].1 <= names.len());
                }
                if incident.status == IncidentStatus::Firing {
                    let more = firing(next);
                    assert(more.drop_last() =~= firing(done));
                    assert(services_of(more).drop_last() =~= names);
                    assert(services_of(more).last() == incident.service@);
                }
            }
            if incident.status == IncidentStatus::Firing {
                active = active + 1;
                match incident.severity {
                    Severity::Critical => {
                        critical = critical + 1;
                    },
                    Severity::High => {
                        high = high + 1;
                    },
                    Severity::Medium => {
                        medium = medium + 1;
                    },
                    Severity::Low => {
                        low = low + 1;
                    },
                }
                count_label(&mut by_service, incident.service.as_str());
                let minutes = minutes_since(incident.started_at, now);
                longest = match longest {
                    Some(so_far) => Some(
                        if so_far >= minutes {
                            so_far
                        } else {
                            minutes
                        },
                    ),
                    None => Some(minutes),
                };
            }
            i = i + 1;
        }
        assert(incidents@.subrange(0, incidents@.len() as int) =~= incidents@);
        IncidentSummary {
            total_active: active,
            critical_count: critical,
            high_count: high,
            medium_count: medium,
            low_count: low,
            by_service,
            most_severe: IncidentSummary::get_most_severe(incidents),
            tray_state: IncidentSummary::calculate_tray_state(incidents),
            longest_duration_mins: longest,
        }
    }

    /// The incidents that the filter lets pass, in their order.
    pub fn get_incidents(&self, incidents: Vec<Incident>, filter: &IncidentFilter) -> (r: Vec<
        Incident,
    >)
        ensures
            r@ == admitted(incidents@, *filter),
    {
        let mut out: Vec<Incident> = Vec::new();
        let ghost all = incidents@;
        assert(all.subrange(0, 0) =~= Seq::<Incident>::empty());
        for incident in it: incidents
            invariant
                it.seq() == all,
                out@ == wanted_among(
                    all.subrange(0, it.index() as int),
                    filter.min_severity,
                    texts(filter.services@),
                    filter.active_only,
                ),
        {
            assert(all.subrange(0, it.index() + 1).drop_last() =~= all.subrange(
                0,
                it.index() as int,
            ));
            assert(all.subrange(0, it.index() + 1).last() == incident);
            if filter.matches(&incident) {
                out.push(incident);
            }
        }
        assert(all.subrange(0, all.len() as int) =~= all);
        out
    }

    /// The filter for the incidents that call for an alert: firing, and at least
    /// as severe as the settings say.
    pub fn alert_filter(&self) -> (r: IncidentFilter)
        ensures
            r.min_severity == Some(self.alert_severity()),
            r.services@.len() == 0,
            r.active_only,
    {
        IncidentFilter::new().with_min_severity(self.config.alert_on_severity)
    }

    /// The firing incidents that call for an alert, in their order.
    pub fn get_alertable_incidents(&self, incidents: Vec<Incident>) -> (r: Vec<Incident>)
        ensures
            r@ == wanted_among(incidents@, Some(self.alert_severity()), Seq::empty(), true),
    {
        let filter = self.alert_filter();
        assert(texts(filter.services@) =~= Seq::<Seq<char>>::empty());
        self.get_incidents(incidents, &filter)
    }

    /// Whether an incident is firing that is critical.
    pub fn has_critical_incidents(&self, incidents: &Vec<Incident>) -> (r: bool)
        ensures
            r == exists|i: int|
                0 <= i < incidents@.len() && wanted(
                    &#[trigger] incidents@[i],
                    Some(Severity::Critical),
                    Seq::empty(),
                    true,
                ),
    {
        let mut i: usize = 0;
        while i < incidents.len()
            invariant
                i <= incidents.len(),
                forall|k: int|
                    0 <= k < i ==> !wanted(
                        &#[trigger] incidents@[k],
                        Some(Severity::Critical),
                        Seq::empty(),
                        true,
                    ),
            decreases incidents.len() - i,
        {
            if incidents[i].severity == Severity::Critical && incidents[i].status
                == IncidentStatus::Firing {
                return true;
            }
            i = i + 1;
        }
        false
    }

    /// The alert level for a list of incidents.
    pub fn get_tray_state(&self, incidents: &Vec<Incident>) -> (r: TrayState)
        ensures
            r == incident_level(incidents@),
    {
        IncidentSummary::calculate_tray_state(incidents)
    }
}

} // verus!
