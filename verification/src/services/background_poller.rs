//! The poller. For each of its two domains, pull requests and incidents, it
//! keeps the instant of the last poll, the number of polls and the number of
//! failures in a row, and it keeps the alert level that was published last.
//! Fetching is not its part: a poll is begun here, carried out elsewhere, and
//! recorded here together with its result; what is to be published comes back as
//! a list of events. Instants and intervals are in milliseconds.

use crate::clock::{now_millis, MAX_CLOCK_MILLIS};
use crate::kernel::events::AppEvent;
use crate::system::tray::TrayState;
use crate::text::{copies, decimal, decimal_digits, owned, texts};
use vstd::prelude::*;
use vstd::string::*;

verus! {

/// The settings of the poller.
#[derive(Debug, Clone, Copy, PartialEq, Eq, Structural)]
pub struct PollerConfig {
    pub pr_poll_interval: u64,
    pub incident_poll_interval: u64,
    pub pr_polling_enabled: bool,
    pub incident_polling_enabled: bool,
    pub max_retries: usize,
    pub retry_backoff: u64,
}

impl Default for PollerConfig {
    /// Pull requests every two minutes, incidents every thirty seconds, both
    /// enabled.
    fn default() -> (r: Self)
        ensures
            r == (PollerConfig {
                pr_poll_interval: 120_000,
                incident_poll_interval: 30_000,
                pr_polling_enabled: true,
                incident_polling_enabled: true,
                max_retries: 3,
                retry_backoff: 5_000,
            }),
    {
        PollerConfig {
            pr_poll_interval: 120_000,
            incident_poll_interval: 30_000,
            pr_polling_enabled: true,
            incident_polling_enabled: true,
            max_retries: 3,
            retry_backoff: 5_000,
        }
    }
}

impl PollerConfig {
    pub fn new() -> (r: Self)
        ensures
            r == (PollerConfig {
                pr_poll_interval: 120_000,
                incident_poll_interval: 30_000,
                pr_polling_enabled: true,
                incident_polling_enabled: true,
                max_retries: 3,
                retry_backoff: 5_000,
            }),
    {
        PollerConfig {
            pr_poll_interval: 120_000,
            incident_poll_interval: 30_000,
            pr_polling_enabled: true,
            incident_polling_enabled: true,
            max_retries: 3,
            retry_backoff: 5_000,
        }
    }

    pub fn with_pr_interval(self, interval: u64) -> (r: Self)
        ensures
            r == (PollerConfig { pr_poll_interval: interval, ..self }),
    {
        PollerConfig { pr_poll_interval: interval, ..self }
    }

    pub fn with_incident_interval(self, interval: u64) -> (r: Self)
        ensures
            r == (PollerConfig { incident_poll_interval: interval, ..self }),
    {
        PollerConfig { incident_poll_interval: interval, ..self }
    }

    pub fn disable_pr_polling(self) -> (r: Self)
        ensures
            r == (PollerConfig { pr_polling_enabled: false, ..self }),
    {
        PollerConfig { pr_polling_enabled: false, ..self }
    }

    pub fn disable_incident_polling(self) -> (r: Self)
        ensures
            r == (PollerConfig { incident_polling_enabled: false, ..self }),
    {
        PollerConfig { incident_polling_enabled: false, ..self }
    }
}

/// What a poll brought, when, and whether it succeeded.
#[derive(Debug, Clone)]
pub struct PollResult<T> {
    pub data: T,
    pub timestamp: i64,
    pub success: bool,
    pub error_message: Option<String>,
}

impl<T> PollResult<T> {
    /// The result of a poll that succeeded at `now`.
    pub fn success_at(data: T, now: i64) -> (r: Self)
        ensures
            r.data == data,
            r.timestamp == now,
            r.success,
            r.error_message is None,
    {
        PollResult { data, timestamp: now, success: true, error_message: None }
    }

    /// The result of a poll that failed at `now`.
    pub fn failure_at(data: T, message: String, now: i64) -> (r: Self)
        ensures
            r.data == data,
            r.timestamp == now,
            !r.success,
            r.error_message == Some(message),
    {
        PollResult { data, timestamp: now, success: false, error_message: Some(message) }
    }

    /// The result of a poll that succeeded just now.
    pub fn success(data: T) -> (r: Self)
        ensures
            r.data == data,
            0 <= r.timestamp <= MAX_CLOCK_MILLIS,
            r.success,
            r.error_message is None,
    {
        Self::success_at(data, now_millis())
    }

    /// The result of a poll that failed just now.
    pub fn failure(data: T, message: String) -> (r: Self)
        ensures
            r.data == data,
            0 <= r.timestamp <= MAX_CLOCK_MILLIS,
            !r.success,
            r.error_message == Some(message),
    {
        Self::failure_at(data, message, now_millis())
    }
}

#[derive(Debug, Clone, Copy, PartialEq, Eq, Structural)]
pub struct PrPollData {
    pub total_open: usize,
    pub stale_count: usize,
    pub pending_review: usize,
}

impl Default for PrPollData {
    fn default() -> (r: Self)
        ensures
            r == (PrPollData { total_open: 0, stale_count: 0, pending_review: 0 }),
    {
        PrPollData { total_open: 0, stale_count: 0, pending_review: 0 }
    }
}

#[derive(Debug, Clone)]
pub struct IncidentPollData {
    pub active_count: usize,
    pub critical_count: usize,
    pub new_incident_ids: Vec<String>,
}

impl Default for IncidentPollData {
    fn default() -> (r: Self)
        ensures
            r.active_count == 0,
            r.critical_count == 0,
            r.new_incident_ids@.len() == 0,
    {
        IncidentPollData { active_count: 0, critical_count: 0, new_incident_ids: Vec::new() }
    }
}

/// What the poller remembers.
#[derive(Debug, Clone, Copy, PartialEq, Eq, Structural)]
pub struct PollerState {
    pub last_pr_poll: Option<i64>,
    pub last_incident_poll: Option<i64>,
    pub pr_poll_count: usize,
    pub incident_poll_count: usize,
    pub consecutive_pr_failures: usize,
    pub consecutive_incident_failures: usize,
    pub current_tray_state: TrayState,
}

impl Default for PollerState {
    fn default() -> (r: Self)
        ensures
            r == PollerState::initial(),
    {
        PollerState {
            last_pr_poll: None,
            last_incident_poll: None,
            pr_poll_count: 0,
            incident_poll_count: 0,
            consecutive_pr_failures: 0,
            consecutive_incident_failures: 0,
            current_tray_state: TrayState::Neutral,
        }
    }
}

impl PollerState {
    /// The state before the first poll.
    pub open spec fn initial() -> PollerState {
        PollerState {
            last_pr_poll: None,
            last_incident_poll: None,
            pr_poll_count: 0,
            incident_poll_count: 0,
            consecutive_pr_failures: 0,
            consecutive_incident_failures: 0,
            current_tray_state: TrayState::Neutral,
        }
    }

    /// The state after a poll of pull requests that ended at `now`: one poll more;
    /// a success clears the failures in a row, a failure adds one.
    pub open spec fn after_pr_poll(self, success: bool, now: i64) -> PollerState {
        PollerState {
            last_pr_poll: Some(now),
            pr_poll_count: (self.pr_poll_count + 1) as usize,
            consecutive_pr_failures: if success {
                0
            } else {
                (self.consecutive_pr_failures + 1) as usize
            },
            ..self
        }
    }

    /// The state after a poll of incidents that ended at `now` and that calls for
    /// the alert level `level`.
    pub open spec fn after_incident_poll(self, success: bool, now: i64, level: TrayState) -> PollerState {
        PollerState {
            last_incident_poll: Some(now),
            incident_poll_count: (self.incident_poll_count + 1) as usize,
            consecutive_incident_failures: if success {
                0
            } else {
                (self.consecutive_incident_failures + 1) as usize
            },
            current_tray_state: level,
            ..self
        }
    }

    /// The state after a series of polls of pull requests, each given by its
    /// outcome and the instant at which it ended.
    pub open spec fn after_pr_polls(self, polls: Seq<(bool, i64)>) -> PollerState
        decreases polls.len(),
    {
        if polls.len() == 0 {
            self
        } else {
            self.after_pr_polls(polls.drop_last()).after_pr_poll(polls.last().0, polls.last().1)
        }
    }
}

/// The counts of the poller, for display.
#[derive(Debug, Clone, Copy, PartialEq, Eq, Structural)]
pub struct PollingStats {
    pub pr_poll_count: usize,
    pub incident_poll_count: usize,
    pub last_pr_poll: Option<i64>,
    pub last_incident_poll: Option<i64>,
    pub consecutive_pr_failures: usize,
    pub consecutive_incident_failures: usize,
}

/// Where a domain stands between two ticks.
#[derive(Debug, Clone, Copy, PartialEq, Eq, Structural)]
pub enum PollPhase {
    /// No poll is under way.
    Idle,
    /// A poll has begun and has not been recorded yet.
    Polling,
}

/// The alert level that the incident counts of a poll call for: `Red` with a
/// critical incident, otherwise `Amber` with an active one, otherwise `Green`.
pub open spec fn incident_poll_level(active_count: nat, critical_count: nat) -> TrayState {
    if critical_count > 0 {
        TrayState::Red
    } else if active_count > 0 {
        TrayState::Amber
    } else {
        TrayState::Green
    }
}

/// Whether a poll is due at `now`, given the instant of the last one and the
/// interval: at once where there was none, else after the interval has passed.
pub open spec fn poll_due(last: Option<i64>, interval: u64, now: i64) -> bool {
    match last {
        Some(at) => now - at >= interval,
        None => true,
    }
}

fn is_due(last: Option<i64>, interval: u64, now: i64) -> (r: bool)
    ensures
        r == poll_due(last, interval, now),
{
    match last {
        Some(at) => now as i128 - at as i128 >= interval as i128,
        None => true,
    }
}

/// The reason given for a change of the alert level.
pub open spec fn transition_reason(active_count: nat, critical_count: nat) -> Seq<char> {
    "Active: "@ + decimal_digits(active_count) + ", Critical: "@ + decimal_digits(critical_count)
}

/// Whether the event is the tick that closes a poll.
pub open spec fn is_tick(event: AppEvent, domain: Seq<char>, now: i64, succeeded: bool) -> bool {
    event matches AppEvent::PollingTick { poll_type, timestamp, success } && poll_type@ == domain
        && timestamp == now && success == succeeded
}

/// Whether the event reports the incident counts of a poll.
pub open spec fn is_incident_report(event: AppEvent, data: &IncidentPollData) -> bool {
    event matches AppEvent::IncidentStateChanged { active_count, critical_count, new_incidents }
        && active_count == data.active_count && critical_count == data.critical_count && texts(
        new_incidents@,
    ) == texts(data.new_incident_ids@)
}

/// Whether the event reports a change of the alert level for these counts.
pub open spec fn is_transition(
    event: AppEvent,
    from: TrayState,
    to: TrayState,
    active_count: nat,
    critical_count: nat,
) -> bool {
    event matches AppEvent::TrayStateChanged { old_state, new_state, reason } && old_state == from
        && new_state == to && reason@ == transition_reason(active_count, critical_count)
}

/// The poller.
pub struct BackgroundPoller {
    config: PollerConfig,
    state: PollerState,
    running: bool,
    pr_phase: PollPhase,
    incident_phase: PollPhase,
}

impl BackgroundPoller {
    /// The settings.
    pub closed spec fn settings(&self) -> PollerConfig {
        self.config
    }

    /// What the poller remembers.
    pub closed spec fn state(&self) -> PollerState {
        self.state
    }

    /// Whether ticks are being scheduled.
    pub closed spec fn running(&self) -> bool {
        self.running
    }

    /// Where the domain of pull requests stands.
    pub closed spec fn pr_phase(&self) -> PollPhase {
        self.pr_phase
    }

    /// Where the domain of incidents stands.
    pub closed spec fn incident_phase(&self) -> PollPhase {
        self.incident_phase
    }

    /// A poller that has not polled yet and is not running.
    pub fn new(config: PollerConfig) -> (r: Self)
        ensures
            r.settings() == config,
            r.state() == PollerState::initial(),
            !r.running(),
            r.pr_phase() == PollPhase::Idle,
            r.incident_phase() == PollPhase::Idle,
    {
        BackgroundPoller {
            config,
            state: PollerState::default(),
            running: false,
            pr_phase: PollPhase::Idle,
            incident_phase: PollPhase::Idle,
        }
    }

    pub fn is_running(&self) -> (r: bool)
        ensures
            r == self.running(),
    {
        self.running
    }

    pub fn get_state(&self) -> (r: PollerState)
        ensures
            r == self.state(),
    {
        self.state
    }

    /// The settings.
    pub fn config(&self) -> (r: PollerConfig)
        ensures
            r == self.settings(),
    {
        self.config
    }

    /// Lets ticks be scheduled. The result says whether the poller was stopped
    /// before; a poller that runs already stays as it is.
    pub fn start(&mut self) -> (started: bool)
        ensures
            started == !old(self).running(),
            final(self).running(),
            final(self).state() == old(self).state(),
            final(self).settings() == old(self).settings(),
            final(self).pr_phase() == old(self).pr_phase(),
            final(self).incident_phase() == old(self).incident_phase(),
    {
        let started = !self.running;
        self.running = true;
        started
    }

    /// Lets no further tick be scheduled. A poll that is under way may still be
    /// recorded.
    pub fn stop(&mut self)
        ensures
            !final(self).running(),
            final(self).state() == old(self).state(),
            final(self).settings() == old(self).settings(),
            final(self).pr_phase() == old(self).pr_phase(),
            final(self).incident_phase() == old(self).incident_phase(),
    {
        self.running = false;
    }

    /// Whether a tick of the pull request domain is to be scheduled at `now`: the
    /// poller runs, the domain is enabled, no poll of it is under way, and its
    /// interval has passed.
    pub fn is_pr_poll_due(&self, now: i64) -> (r: bool)
        ensures
            r == (self.running() && self.settings().pr_polling_enabled && self.pr_phase()
                == PollPhase::Idle && poll_due(
                self.state().last_pr_poll,
                self.settings().pr_poll_interval,
                now,
            )),
    {
        self.running && self.config.pr_polling_enabled && self.pr_phase == PollPhase::Idle
            && is_due(self.state.last_pr_poll, self.config.pr_poll_interval, now)
    }

    /// Whether a tick of the incident domain is to be scheduled at `now`.
    pub fn is_incident_poll_due(&self, now: i64) -> (r: bool)
        ensures
            r == (self.running() && self.settings().incident_polling_enabled
                && self.incident_phase() == PollPhase::Idle && poll_due(
                self.state().last_incident_poll,
                self.settings().incident_poll_interval,
                now,
            )),
    {
        self.running && self.config.incident_polling_enabled && self.incident_phase
            == PollPhase::Idle && is_due(
            self.state.last_incident_poll,
            self.config.incident_poll_interval,
            now,
        )
    }

    /// Begins a poll of pull requests, unless one is under way: two polls of one
    /// domain never overlap. The result says whether the poll may be carried out.
    pub fn begin_pr_poll(&mut self) -> (begun: bool)
        ensures
            begun == (old(self).pr_phase() == PollPhase::Idle),
            final(self).pr_phase() == PollPhase::Polling,
            final(self).incident_phase() == old(self).incident_phase(),
            final(self).state() == old(self).state(),
            final(self).settings() == old(self).settings(),
            final(self).running() == old(self).running(),
    {
        let begun = self.pr_phase == PollPhase::Idle;
        self.pr_phase = PollPhase::Polling;
        begun
    }

    /// Begins a poll of incidents, unless one is under way.
    pub fn begin_incident_poll(&mut self) -> (begun: bool)
        ensures
            begun == (old(self).incident_phase() == PollPhase::Idle),
            final(self).incident_phase() == PollPhase::Polling,
            final(self).pr_phase() == old(self).pr_phase(),
            final(self).state() == old(self).state(),
            final(self).settings() == old(self).settings(),
            final(self).running() == old(self).running(),
    {
        let begun = self.incident_phase == PollPhase::Idle;
        self.incident_phase = PollPhase::Polling;
        begun
    }

    /// Records a poll of pull requests that ended at `now` and names what is to
    /// be published: the counts, then the tick. The poll counts whatever its
    /// outcome; a failure is not retried, it adds to the failures in a row, and a
    /// success clears them. The domain is idle again.
    pub fn poll_prs(&mut self, result: &PollResult<PrPollData>, now: i64) -> (events: Vec<AppEvent>)
        requires
            old(self).state().pr_poll_count < usize::MAX,
            !result.success ==> old(self).state().consecutive_pr_failures < usize::MAX,
        ensures
            final(self).state() == old(self).state().after_pr_poll(result.success, now),
            final(self).pr_phase() == PollPhase::Idle,
            final(self).incident_phase() == old(self).incident_phase(),
            final(self).settings() == old(self).settings(),
            final(self).running() == old(self).running(),
            events@.len() == 2,
            events@[0] == (AppEvent::PrDataUpdated {
                total_open: result.data.total_open,
                stale_count: result.data.stale_count,
                pending_review: result.data.pending_review,
            }),
            is_tick(events@[1], "pr"@, now, result.success),
    {
        self.state.last_pr_poll = Some(now);
        self.state.pr_poll_count = self.state.pr_poll_count + 1;
        if result.success {
            self.state.consecutive_pr_failures = 0;
        } else {
            self.state.consecutive_pr_failures = self.state.consecutive_pr_failures + 1;
        }
        self.pr_phase = PollPhase::Idle;
        let mut events: Vec<AppEvent> = Vec::new();
        events.push(
            AppEvent::PrDataUpdated {
                total_open: result.data.total_open,
                stale_count: result.data.stale_count,
                pending_review: result.data.pending_review,
            },
        );
        events.push(
            AppEvent::PollingTick { poll_type: owned("pr"), timestamp: now, success: result.success },
        );
        events
    }

    /// Records a poll of incidents that ended at `now` and names what is to be
    /// published: the counts, then the tick, and, only where the alert level
    /// differs from the one published last, the transition with its reason.
    pub fn poll_incidents(&mut self, result: &PollResult<IncidentPollData>, now: i64) -> (events:
        Vec<AppEvent>)
        requires
            old(self).state().incident_poll_count < usize::MAX,
            !result.success ==> old(self).state().consecutive_incident_failures < usize::MAX,
        ensures
            final(self).state() == old(self).state().after_incident_poll(
                result.success,
                now,
                incident_poll_level(
                    result.data.active_count as nat,
                    result.data.critical_count as nat,
                ),
            ),
            final(self).incident_phase() == PollPhase::Idle,
            final(self).pr_phase() == old(self).pr_phase(),
            final(self).settings() == old(self).settings(),
            final(self).running() == old(self).running(),
            is_incident_report(events@[0], &result.data),
            is_tick(events@[1], "incident"@, now, result.success),
            if final(self).state().current_tray_state == old(self).state().current_tray_state {
                events@.len() == 2
            } else {
                events@.len() == 3 && is_transition(
                    events@[2],
                    old(self).state().current_tray_state,
                    final(self).state().current_tray_state,
                    result.data.active_count as nat,
                    result.data.critical_count as nat,
                )
            },
    {
        self.state.last_incident_poll = Some(now);
        self.state.incident_poll_count = self.state.incident_poll_count + 1;
        if result.success {
            self.state.consecutive_incident_failures = 0;
        } else {
            self.state.consecutive_incident_failures = self.state.consecutive_incident_failures + 1;
        }
        self.incident_phase = PollPhase::Idle;
        let ids = copies(&result.data.new_incident_ids);
        let mut events: Vec<AppEvent> = Vec::new();
        events.push(
            AppEvent::IncidentStateChanged {
                active_count: result.data.active_count,
                critical_count: result.data.critical_count,
                new_incidents: ids,
            },
        );
        events.push(
            AppEvent::PollingTick {
                poll_type: owned("incident"),
                timestamp: now,
                success: result.success,
            },
        );
        match self.update_tray_state(&result.data) {
            Some(transition) => {
                events.push(transition);
            },
            None => {},
        }
        events
    }

    /// Derives the alert level from the incident counts and, where it differs
    /// from the one published last, records it and hands back the transition.
    fn update_tray_state(&mut self, data: &IncidentPollData) -> (transition: Option<AppEvent>)
        ensures
            final(self).state() == (PollerState {
                current_tray_state: incident_poll_level(
                    data.active_count as nat,
                    data.critical_count as nat,
                ),
                ..old(self).state()
            }),
            final(self).settings() == old(self).settings(),
            final(self).running() == old(self).running(),
            final(self).pr_phase() == old(self).pr_phase(),
            final(self).incident_phase() == old(self).incident_phase(),
            match transition {
                Some(event) => final(self).state().current_tray_state != old(
                    self,
                ).state().current_tray_state && is_transition(
                    event,
                    old(self).state().current_tray_state,
                    final(self).state().current_tray_state,
                    data.active_count as nat,
                    data.critical_count as nat,
                ),
                None => final(self).state().current_tray_state == old(
                    self,
                ).state().current_tray_state,
            },
    {
        let new_state = if data.critical_count > 0 {
            TrayState::Red
        } else if data.active_count > 0 {
            TrayState::Amber
        } else {
            TrayState::Green
        };
        if self.state.current_tray_state != new_state {
            let old_state = self.state.current_tray_state;
            self.state.current_tray_state = new_state;
            let reason = owned("Active: ").concat(decimal(data.active_count).as_str()).concat(
                ", Critical: ",
            ).concat(decimal(data.critical_count).as_str());
            Some(AppEvent::TrayStateChanged { old_state, new_state, reason })
        } else {
            None
        }
    }

    pub fn get_stats(&self) -> (r: PollingStats)
        ensures
            r == (PollingStats {
                pr_poll_count: self.state().pr_poll_count,
                incident_poll_count: self.state().incident_poll_count,
                last_pr_poll: self.state().last_pr_poll,
                last_incident_poll: self.state().last_incident_poll,
                consecutive_pr_failures: self.state().consecutive_pr_failures,
                consecutive_incident_failures: self.state().consecutive_incident_failures,
            }),
    {
        PollingStats {
            pr_poll_count: self.state.pr_poll_count,
            incident_poll_count: self.state.incident_poll_count,
            last_pr_poll: self.state.last_pr_poll,
            last_incident_poll: self.state.last_incident_poll,
            consecutive_pr_failures: self.state.consecutive_pr_failures,
            consecutive_incident_failures: self.state.consecutive_incident_failures,
        }
    }
}

/// Whether every poll of the series succeeded.
pub open spec fn all_succeeded(polls: Seq<(bool, i64)>) -> bool {
    forall|i: int| 0 <= i < polls.len() ==> (#[trigger] polls[i]).0
}

/// Every poll counts: after a series of polls the count has risen by their
/// number, whatever their outcomes, and nothing but the record of the pull
/// request domain has changed.
pub proof fn lemma_every_poll_counts(state: PollerState, polls: Seq<(bool, i64)>)
    requires
        state.pr_poll_count + polls.len() <= usize::MAX,
    ensures
        state.after_pr_polls(polls).pr_poll_count == state.pr_poll_count + polls.len(),
        state.after_pr_polls(polls).incident_poll_count == state.incident_poll_count,
        state.after_pr_polls(polls).consecutive_incident_failures
            == state.consecutive_incident_failures,
        state.after_pr_polls(polls).current_tray_state == state.current_tray_state,
        polls.len() > 0 ==> state.after_pr_polls(polls).last_pr_poll == Some(polls.last().1),
    decreases polls.len(),
{
    if polls.len() > 0 {
        lemma_every_poll_counts(state, polls.drop_last());
    }
}

/// After a series of polls that all succeeded, no failure is on record: ten
/// successes in a row from the start leave a count of ten and no failure.
pub proof fn lemma_successes_clear_failures(state: PollerState, polls: Seq<(bool, i64)>)
    requires
        state.pr_poll_count + polls.len() <= usize::MAX,
        polls.len() > 0,
        all_succeeded(polls),
    ensures
        state.after_pr_polls(polls).pr_poll_count == state.pr_poll_count + polls.len(),
        state.after_pr_polls(polls).consecutive_pr_failures == 0,
{
    lemma_every_poll_counts(state, polls);
    assert(polls.last().0) by {
        assert(polls[polls.len() - 1].0);
    }
}

/// A poll that fails adds one to the failures in a row and one to the count of
/// polls; it resets neither.
pub proof fn lemma_failure_adds_up(state: PollerState, now: i64)
    requires
        state.pr_poll_count < usize::MAX,
        state.consecutive_pr_failures < usize::MAX,
    ensures
        state.after_pr_poll(false, now).consecutive_pr_failures == state.consecutive_pr_failures
            + 1,
        state.after_pr_poll(false, now).pr_poll_count == state.pr_poll_count + 1,
{
}

/// The failures in a row never exceed the polls: if they did not before a
/// series of polls, they do not after it.
pub proof fn lemma_failures_within_polls(state: PollerState, polls: Seq<(bool, i64)>)
    requires
        state.pr_poll_count + polls.len() <= usize::MAX,
        state.consecutive_pr_failures <= state.pr_poll_count,
    ensures
        state.after_pr_polls(polls).consecutive_pr_failures <= state.after_pr_polls(
            polls,
        ).pr_poll_count,
    decreases polls.len(),
{
    if polls.len() > 0 {
        lemma_failures_within_polls(state, polls.drop_last());
        lemma_every_poll_counts(state, polls.drop_last());
    }
}

} // verus!
