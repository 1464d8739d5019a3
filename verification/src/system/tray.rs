//! The four-level alert state, the status it is derived from, and the manager
//! that records transitions between levels.

use crate::text::{decimal, decimal_digits, join, joined, owned, texts};
use vstd::prelude::*;
use vstd::string::*;

verus! {

/// What can go wrong in the display shell around the alert state.
#[derive(Debug)]
pub enum TrayError {
    CreationFailed(String),
    UpdateFailed(String),
    NotInitialized,
    LockError(String),
}

impl TrayError {
    /// The message of the error.
    pub fn to_string(&self) -> (r: String)
        ensures
            r@ == match *self {
                TrayError::CreationFailed(m) => "Failed to create tray icon: "@ + m@,
                TrayError::UpdateFailed(m) => "Failed to update tray icon: "@ + m@,
                TrayError::NotInitialized => "Tray not initialized"@,
                TrayError::LockError(m) => "Lock error: "@ + m@,
            },
    {
        match self {
            TrayError::CreationFailed(m) => owned("Failed to create tray icon: ").concat(m.as_str()),
            TrayError::UpdateFailed(m) => owned("Failed to update tray icon: ").concat(m.as_str()),
            TrayError::NotInitialized => owned("Tray not initialized"),
            TrayError::LockError(m) => owned("Lock error: ").concat(m.as_str()),
        }
    }
}

/// The alert level. The levels are totally ordered: `Neutral < Green < Amber < Red`.
#[derive(Debug, Clone, Copy, PartialEq, Eq, Hash, Structural)]
pub enum TrayState {
    /// Work is pending, none of it stale.
    Neutral,
    /// Nothing is pending and nothing is wrong.
    Green,
    /// Something is stale.
    Amber,
    /// An incident is active.
    Red,
}

impl TrayState {
    /// The place of a level in the order, from 0 (`Neutral`) to 3 (`Red`).
    pub open spec fn rank(self) -> int {
        match self {
            TrayState::Neutral => 0,
            TrayState::Green => 1,
            TrayState::Amber => 2,
            TrayState::Red => 3,
        }
    }

    /// The greater of two levels.
    pub open spec fn max(self, other: TrayState) -> TrayState {
        if self.rank() >= other.rank() {
            self
        } else {
            other
        }
    }

    /// The level for the three counts. The first rule that applies decides: an
    /// active incident gives `Red`, otherwise a stale item gives `Amber`, otherwise
    /// no pending item gives `Green`, otherwise `Neutral`.
    pub open spec fn level_for(active_incidents: nat, stale: nat, pending: nat) -> TrayState {
        if active_incidents > 0 {
            TrayState::Red
        } else if stale > 0 {
            TrayState::Amber
        } else if pending == 0 {
            TrayState::Green
        } else {
            TrayState::Neutral
        }
    }

    /// The colour of a level, as a hexadecimal code.
    pub open spec fn color_of(self) -> Seq<char> {
        match self {
            TrayState::Neutral => "#6B7280"@,
            TrayState::Green => "#10B981"@,
            TrayState::Amber => "#F59E0B"@,
            TrayState::Red => "#EF4444"@,
        }
    }

    /// The words shown for a level.
    pub open spec fn description(self) -> Seq<char> {
        match self {
            TrayState::Neutral => "Neutral"@,
            TrayState::Green => "All Clear"@,
            TrayState::Amber => "Attention Needed"@,
            TrayState::Red => "Critical"@,
        }
    }

    /// Computes the level for the three counts.
    pub fn from_counts(active_incidents: usize, stale: usize, pending: usize) -> (r: TrayState)
        ensures
            r == Self::level_for(active_incidents as nat, stale as nat, pending as nat),
    {
        if active_incidents > 0 {
            TrayState::Red
        } else if stale > 0 {
            TrayState::Amber
        } else if pending == 0 {
            TrayState::Green
        } else {
            TrayState::Neutral
        }
    }

    pub fn color_hex(&self) -> (r: &'static str)
        ensures
            r@ == self.color_of(),
    {
        match self {
            TrayState::Neutral => "#6B7280",
            TrayState::Green => "#10B981",
            TrayState::Amber => "#F59E0B",
            TrayState::Red => "#EF4444",
        }
    }

    /// The urgency of a level; a higher number is more urgent.
    pub fn priority(&self) -> (r: u8)
        ensures
            r == self.rank(),
    {
        match self {
            TrayState::Neutral => 0,
            TrayState::Green => 1,
            TrayState::Amber => 2,
            TrayState::Red => 3,
        }
    }

    pub fn should_alert(&self) -> (r: bool)
        ensures
            r == (*self == TrayState::Red),
    {
        match self {
            TrayState::Red => true,
            _ => false,
        }
    }

    pub fn is_critical(&self) -> (r: bool)
        ensures
            r == (*self == TrayState::Red),
    {
        match self {
            TrayState::Red => true,
            _ => false,
        }
    }

    pub fn is_warning(&self) -> (r: bool)
        ensures
            r == (*self == TrayState::Amber),
    {
        match self {
            TrayState::Amber => true,
            _ => false,
        }
    }

    /// The more severe of two levels.
    pub fn combine(&self, other: &TrayState) -> (r: TrayState)
        ensures
            r == self.max(*other),
    {
        if self.priority() >= other.priority() {
            *self
        } else {
            *other
        }
    }

    /// The words shown for the level.
    pub fn to_string(&self) -> (r: String)
        ensures
            r@ == self.description(),
    {
        match self {
            TrayState::Neutral => owned("Neutral"),
            TrayState::Green => owned("All Clear"),
            TrayState::Amber => owned("Attention Needed"),
            TrayState::Red => owned("Critical"),
        }
    }
}

impl Default for TrayState {
    fn default() -> (r: Self)
        ensures
            r == TrayState::Neutral,
    {
        TrayState::Neutral
    }
}

/// The order of the levels is strict and total: two levels have the same rank
/// only if they are the same level, and of two different levels one is below the
/// other.
pub proof fn lemma_levels_totally_ordered(a: TrayState, b: TrayState)
    ensures
        0 <= a.rank() <= 3,
        a.rank() == b.rank() <==> a == b,
        a != b ==> (a.rank() < b.rank() || b.rank() < a.rank()),
        TrayState::Neutral.rank() < TrayState::Green.rank(),
        TrayState::Green.rank() < TrayState::Amber.rank(),
        TrayState::Amber.rank() < TrayState::Red.rank(),
{
}

/// Combining picks the greater level: the result is one of the two, it is below
/// neither, and the operation is idempotent, commutative and associative.
pub proof fn lemma_combine_is_maximum(a: TrayState, b: TrayState, c: TrayState)
    ensures
        a.max(b) == a || a.max(b) == b,
        a.max(b).rank() >= a.rank(),
        a.max(b).rank() >= b.rank(),
        a.max(a) == a,
        a.max(b) == b.max(a),
        a.max(b).max(c) == a.max(b.max(c)),
{
}

/// The counts and the level derived from them, with an optional message.
#[derive(Debug)]
pub struct TrayStatus {
    pub state: TrayState,
    /// Pull requests that wait for review.
    pub pending_prs: usize,
    /// Pull requests that are stale.
    pub stale_prs: usize,
    pub active_incidents: usize,
    pub message: Option<String>,
}

impl Default for TrayStatus {
    fn default() -> (r: Self)
        ensures
            r.state == TrayState::Neutral,
            r.pending_prs == 0,
            r.stale_prs == 0,
            r.active_incidents == 0,
            r.message is None,
    {
        TrayStatus {
            state: TrayState::Neutral,
            pending_prs: 0,
            stale_prs: 0,
            active_incidents: 0,
            message: None,
        }
    }
}

impl Clone for TrayStatus {
    fn clone(&self) -> (r: Self)
        ensures
            r == *self,
    {
        TrayStatus {
            state: self.state,
            pending_prs: self.pending_prs,
            stale_prs: self.stale_prs,
            active_incidents: self.active_incidents,
            message: match &self.message {
                Some(m) => Some(m.clone()),
                None => None,
            },
        }
    }
}

/// The plural ending for a count.
pub open spec fn plural_ending(n: nat) -> Seq<char> {
    if n == 1 {
        ""@
    } else {
        "s"@
    }
}

impl TrayStatus {
    /// The level that the counts of this status call for.
    pub open spec fn level(&self) -> TrayState {
        TrayState::level_for(
            self.active_incidents as nat,
            self.stale_prs as nat,
            self.pending_prs as nat,
        )
    }

    /// One sentence for each count that is not zero: pending, stale, incidents.
    pub open spec fn tooltip_parts(&self) -> Seq<Seq<char>> {
        let pending: Seq<Seq<char>> = if self.pending_prs > 0 {
            seq![
                decimal_digits(self.pending_prs as nat) + " PR"@ + plural_ending(
                    self.pending_prs as nat,
                ) + " waiting"@,
            ]
        } else {
            seq![]
        };
        let stale: Seq<Seq<char>> = if self.stale_prs > 0 {
            seq![
                decimal_digits(self.stale_prs as nat) + " stale PR"@ + plural_ending(
                    self.stale_prs as nat,
                ),
            ]
        } else {
            seq![]
        };
        let incidents: Seq<Seq<char>> = if self.active_incidents > 0 {
            seq![
                decimal_digits(self.active_incidents as nat) + " active incident"@ + plural_ending(
                    self.active_incidents as nat,
                ),
            ]
        } else {
            seq![]
        };
        pending + stale + incidents
    }

    /// The text shown over the icon: the sentences joined and closed with a full
    /// stop; with all counts at zero, the message, or else a fixed sentence.
    pub open spec fn tooltip_text(&self) -> Seq<char> {
        let parts = self.tooltip_parts();
        if parts.len() == 0 {
            match self.message {
                Some(m) => m@,
                None => "All systems nominal."@,
            }
        } else {
            joined(parts, ". "@) + "."@
        }
    }

    pub fn new() -> (r: Self)
        ensures
            r.state == TrayState::Neutral,
            r.pending_prs == 0,
            r.stale_prs == 0,
            r.active_incidents == 0,
            r.message is None,
    {
        TrayStatus {
            state: TrayState::Neutral,
            pending_prs: 0,
            stale_prs: 0,
            active_incidents: 0,
            message: None,
        }
    }

    /// Sets the two pull request counts and derives the level again.
    pub fn with_prs(self, pending: usize, stale: usize) -> (r: Self)
        ensures
            r.pending_prs == pending,
            r.stale_prs == stale,
            r.active_incidents == self.active_incidents,
            r.message == self.message,
            r.state == r.level(),
    {
        let mut status = self;
        status.pending_prs = pending;
        status.stale_prs = stale;
        status.recalculate_state();
        status
    }

    /// Sets the incident count and derives the level again.
    pub fn with_incidents(self, count: usize) -> (r: Self)
        ensures
            r.active_incidents == count,
            r.pending_prs == self.pending_prs,
            r.stale_prs == self.stale_prs,
            r.message == self.message,
            r.state == r.level(),
    {
        let mut status = self;
        status.active_incidents = count;
        status.recalculate_state();
        status
    }

    /// Sets the message; counts and level stay.
    pub fn with_message(self, message: &str) -> (r: Self)
        ensures
            r.message matches Some(m) && m@ == message@,
            r.state == self.state,
            r.pending_prs == self.pending_prs,
            r.stale_prs == self.stale_prs,
            r.active_incidents == self.active_incidents,
    {
        let mut status = self;
        status.message = Some(owned(message));
        status
    }

    /// Derives the level from the counts.
    pub fn recalculate_state(&mut self)
        ensures
            final(self).state == old(self).level(),
            final(self).pending_prs == old(self).pending_prs,
            final(self).stale_prs == old(self).stale_prs,
            final(self).active_incidents == old(self).active_incidents,
            final(self).message == old(self).message,
    {
        self.state = TrayState::from_counts(self.active_incidents, self.stale_prs, self.pending_prs);
    }

    /// The text shown over the icon.
    pub fn tooltip(&self) -> (r: String)
        ensures
            r@ == self.tooltip_text(),
    {
        let mut parts: Vec<String> = Vec::new();
        if self.pending_prs > 0 {
            let mut part = decimal(self.pending_prs);
            part.append(" PR");
            part.append(if self.pending_prs == 1 { "" } else { "s" });
            part.append(" waiting");
            parts.push(part);
        }
        if self.stale_prs > 0 {
            let mut part = decimal(self.stale_prs);
            part.append(" stale PR");
            part.append(if self.stale_prs == 1 { "" } else { "s" });
            parts.push(part);
        }
        if self.active_incidents > 0 {
            let mut part = decimal(self.active_incidents);
            part.append(" active incident");
            part.append(if self.active_incidents == 1 { "" } else { "s" });
            parts.push(part);
        }
        assert(texts(parts@) =~= self.tooltip_parts());
        if parts.len() == 0 {
            return match &self.message {
                Some(m) => m.clone(),
                None => owned("All systems nominal."),
            };
        }
        let mut text = join(&parts, ". ");
        text.append(".");
        text
    }
}

/// What the context menu offers.
#[derive(Debug, Clone, Copy, PartialEq, Eq, Hash, Structural)]
pub enum TrayMenuAction {
    OpenFlightConsole,
    OpenRadarPanel,
    OpenIncidentRadar,
    OpenHangar,
    Quit,
}

impl TrayMenuAction {
    /// The text of the menu entry.
    pub open spec fn label_of(&self) -> Seq<char> {
        match *self {
            TrayMenuAction::OpenFlightConsole => "Open Flight Console"@,
            TrayMenuAction::OpenRadarPanel => "Open Radar Panel"@,
            TrayMenuAction::OpenIncidentRadar => "Open Incident Radar"@,
            TrayMenuAction::OpenHangar => "Open Hangar (Settings)"@,
            TrayMenuAction::Quit => "Quit"@,
        }
    }

    pub fn label(&self) -> (r: &'static str)
        ensures
            r@ == self.label_of(),
    {
        match self {
            TrayMenuAction::OpenFlightConsole => "Open Flight Console",
            TrayMenuAction::OpenRadarPanel => "Open Radar Panel",
            TrayMenuAction::OpenIncidentRadar => "Open Incident Radar",
            TrayMenuAction::OpenHangar => "Open Hangar (Settings)",
            TrayMenuAction::Quit => "Quit",
        }
    }

    /// The entries of the menu, from top to bottom.
    pub fn all() -> (r: Vec<TrayMenuAction>)
        ensures
            r@ == seq![
                TrayMenuAction::OpenFlightConsole,
                TrayMenuAction::OpenRadarPanel,
                TrayMenuAction::OpenIncidentRadar,
                TrayMenuAction::OpenHangar,
                TrayMenuAction::Quit,
            ],
    {
        let mut actions: Vec<TrayMenuAction> = Vec::new();
        actions.push(TrayMenuAction::OpenFlightConsole);
        actions.push(TrayMenuAction::OpenRadarPanel);
        actions.push(TrayMenuAction::OpenIncidentRadar);
        actions.push(TrayMenuAction::OpenHangar);
        actions.push(TrayMenuAction::Quit);
        assert(actions@ =~= seq![
            TrayMenuAction::OpenFlightConsole,
            TrayMenuAction::OpenRadarPanel,
            TrayMenuAction::OpenIncidentRadar,
            TrayMenuAction::OpenHangar,
            TrayMenuAction::Quit,
        ]);
        actions
    }
}

/// A transition from one level to another.
#[derive(Debug, Clone, Copy, PartialEq, Eq, Structural)]
pub struct StateChange {
    pub from: TrayState,
    pub to: TrayState,
    /// Set where the level changed.
    pub should_animate: bool,
    /// Set where the level became `Red`.
    pub should_alert: bool,
}

impl StateChange {
    /// The transition from `from` to `to`: it animates where the two differ and
    /// alerts where `to` is `Red` and `from` is not.
    pub open spec fn between(from: TrayState, to: TrayState) -> StateChange {
        StateChange {
            from,
            to,
            should_animate: from != to,
            should_alert: to == TrayState::Red && from != TrayState::Red,
        }
    }

    /// Whether the level rose.
    pub fn is_escalation(&self) -> (r: bool)
        ensures
            r == (self.to.rank() > self.from.rank()),
    {
        self.to.priority() > self.from.priority()
    }

    /// Whether the level fell.
    pub fn is_de_escalation(&self) -> (r: bool)
        ensures
            r == (self.to.rank() < self.from.rank()),
    {
        self.to.priority() < self.from.priority()
    }
}

/// A transition is recorded as a change only where the level differs, and then
/// it is either a rise or a fall, never both.
pub proof fn lemma_transition_kinds(from: TrayState, to: TrayState)
    ensures
        StateChange::between(from, to).should_animate <==> from != to,
        from != to <==> (to.rank() > from.rank() || to.rank() < from.rank()),
        !(to.rank() > from.rank() && to.rank() < from.rank()),
        StateChange::between(from, to).should_alert ==> to.rank() > from.rank(),
{
}

/// Holds the current status and the level before the last update.
pub struct TrayManager {
    status: TrayStatus,
    previous_state: TrayState,
    initialized: bool,
}

impl TrayManager {
    /// The status held now.
    pub closed spec fn status(&self) -> TrayStatus {
        self.status
    }

    /// The level that was current before the last update.
    pub closed spec fn previous(&self) -> TrayState {
        self.previous_state
    }

    /// Whether `initialize` has been called.
    pub closed spec fn initialized(&self) -> bool {
        self.initialized
    }

    pub fn new() -> (r: Self)
        ensures
            r.status().state == TrayState::Neutral,
            r.status().pending_prs == 0,
            r.status().stale_prs == 0,
            r.status().active_incidents == 0,
            r.status().message is None,
            r.previous() == TrayState::Neutral,
            !r.initialized(),
    {
        TrayManager {
            status: TrayStatus::new(),
            previous_state: TrayState::Neutral,
            initialized: false,
        }
    }

    /// Marks the manager as initialized. Always succeeds.
    pub fn initialize(&mut self) -> (r: Result<(), TrayError>)
        ensures
            r is Ok,
            final(self).initialized(),
            final(self).status() == old(self).status(),
            final(self).previous() == old(self).previous(),
    {
        self.initialized = true;
        Ok(())
    }

    pub fn is_initialized(&self) -> (r: bool)
        ensures
            r == self.initialized(),
    {
        self.initialized
    }

    /// A copy of the status. Always succeeds.
    pub fn get_status(&self) -> (r: Result<TrayStatus, TrayError>)
        ensures
            r matches Ok(s) && s == self.status(),
    {
        Ok(self.status.clone())
    }

    /// The current level. Always succeeds.
    pub fn get_state(&self) -> (r: Result<TrayState, TrayError>)
        ensures
            r matches Ok(s) && s == self.status().state,
    {
        Ok(self.status.state)
    }

    /// Replaces the status and reports the transition from the level held before
    /// to the level of `new_status`. Always succeeds.
    pub fn update_status(&mut self, new_status: TrayStatus) -> (r: Result<StateChange, TrayError>)
        ensures
            r matches Ok(change) && change == StateChange::between(
                old(self).status().state,
                new_status.state,
            ),
            final(self).status() == new_status,
            final(self).previous() == old(self).status().state,
            final(self).initialized() == old(self).initialized(),
    {
        let previous = self.status.state;
        let to = new_status.state;
        self.status = new_status;
        self.previous_state = previous;
        Ok(
            StateChange {
                from: previous,
                to,
                should_animate: previous != to,
                should_alert: to.should_alert() && !previous.should_alert(),
            },
        )
    }

    /// Sets the two pull request counts, derives the level and reports the
    /// transition. Always succeeds.
    pub fn update_prs(&mut self, pending: usize, stale: usize) -> (r: Result<StateChange, TrayError>)
        ensures
            final(self).status().pending_prs == pending,
            final(self).status().stale_prs == stale,
            final(self).status().active_incidents == old(self).status().active_incidents,
            final(self).status().message == old(self).status().message,
            final(self).status().state == final(self).status().level(),
            r matches Ok(change) && change == StateChange::between(
                old(self).status().state,
                final(self).status().state,
            ),
            final(self).previous() == old(self).status().state,
            final(self).initialized() == old(self).initialized(),
    {
        let mut status = self.status.clone();
        status.pending_prs = pending;
        status.stale_prs = stale;
        status.recalculate_state();
        self.update_status(status)
    }

    /// Sets the incident count, derives the level and reports the transition.
    /// Always succeeds.
    pub fn update_incidents(&mut self, count: usize) -> (r: Result<StateChange, TrayError>)
        ensures
            final(self).status().active_incidents == count,
            final(self).status().pending_prs == old(self).status().pending_prs,
            final(self).status().stale_prs == old(self).status().stale_prs,
            final(self).status().message == old(self).status().message,
            final(self).status().state == final(self).status().level(),
            r matches Ok(change) && change == StateChange::between(
                old(self).status().state,
                final(self).status().state,
            ),
            final(self).previous() == old(self).status().state,
            final(self).initialized() == old(self).initialized(),
    {
        let mut status = self.status.clone();
        status.active_incidents = count;
        status.recalculate_state();
        self.update_status(status)
    }

    /// The text shown over the icon for the current status. Always succeeds.
    pub fn get_tooltip(&self) -> (r: Result<String, TrayError>)
        ensures
            r matches Ok(text) && text@ == self.status().tooltip_text(),
    {
        Ok(self.status.tooltip())
    }

    /// Returns to a status with all counts at zero, no message and the level
    /// `Neutral`. Always succeeds.
    pub fn reset(&mut self) -> (r: Result<(), TrayError>)
        ensures
            r is Ok,
            final(self).status().state == TrayState::Neutral,
            final(self).status().pending_prs == 0,
            final(self).status().stale_prs == 0,
            final(self).status().active_incidents == 0,
            final(self).status().message is None,
            final(self).previous() == old(self).status().state,
            final(self).initialized() == old(self).initialized(),
    {
        let _ = self.update_status(TrayStatus::new());
        Ok(())
    }
}

impl Default for TrayManager {
    fn default() -> (r: Self)
        ensures
            r.status().state == TrayState::Neutral,
            r.previous() == TrayState::Neutral,
            !r.initialized(),
    {
        TrayManager::new()
    }
}

} // verus!
