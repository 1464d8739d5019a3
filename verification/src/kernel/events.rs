//! The event bus. It keeps the table of subscriptions in the order of their
//! registration and a bounded history of what was published. Handlers are values
//! of a type that the application chooses; the bus stores them and says, for each
//! publication, which of them are to be called and in which order. Calling them,
//! and containing a handler that fails, is the application's part.

use crate::clock::{now_millis, MAX_CLOCK_MILLIS};
use crate::system::tray::TrayState;
use vstd::prelude::*;

verus! {

/// Something that happened and that other parts may want to know.
#[derive(Debug, Clone)]
pub enum AppEvent {
    /// The alert level changed.
    TrayStateChanged { old_state: TrayState, new_state: TrayState, reason: String },
    PrDataUpdated { total_open: usize, stale_count: usize, pending_review: usize },
    IncidentStateChanged { active_count: usize, critical_count: usize, new_incidents: Vec<String> },
    SearchCompleted { query: String, result_count: usize, duration_ms: u64 },
    CacheInvalidated { cache_type: String, keys: Vec<String> },
    SettingsChanged { section: String },
    ErrorOccurred { source: String, message: String, recoverable: bool },
    /// One poll of a domain ended, at `timestamp` (milliseconds since the epoch).
    PollingTick { poll_type: String, timestamp: i64, success: bool },
}

impl AppEvent {
    /// The name of the kind of event.
    pub open spec fn kind_name(&self) -> Seq<char> {
        match *self {
            AppEvent::TrayStateChanged { .. } => "TrayStateChanged"@,
            AppEvent::PrDataUpdated { .. } => "PrDataUpdated"@,
            AppEvent::IncidentStateChanged { .. } => "IncidentStateChanged"@,
            AppEvent::SearchCompleted { .. } => "SearchCompleted"@,
            AppEvent::CacheInvalidated { .. } => "CacheInvalidated"@,
            AppEvent::SettingsChanged { .. } => "SettingsChanged"@,
            AppEvent::ErrorOccurred { .. } => "ErrorOccurred"@,
            AppEvent::PollingTick { .. } => "PollingTick"@,
        }
    }

    pub fn event_name(&self) -> (r: &'static str)
        ensures
            r@ == self.kind_name(),
    {
        match self {
            AppEvent::TrayStateChanged { .. } => "TrayStateChanged",
            AppEvent::PrDataUpdated { .. } => "PrDataUpdated",
            AppEvent::IncidentStateChanged { .. } => "IncidentStateChanged",
            AppEvent::SearchCompleted { .. } => "SearchCompleted",
            AppEvent::CacheInvalidated { .. } => "CacheInvalidated",
            AppEvent::SettingsChanged { .. } => "SettingsChanged",
            AppEvent::ErrorOccurred { .. } => "ErrorOccurred",
            AppEvent::PollingTick { .. } => "PollingTick",
        }
    }
}

/// The handle of a subscription. Handles are numbered in the order of issue.
#[derive(Debug, Clone, Copy, PartialEq, Eq, Hash, Structural)]
pub struct SubscriptionId(pub usize);

/// The position of the first subscription with this handle, or -1.
pub open spec fn subscription_index<H>(subs: Seq<(SubscriptionId, H)>, id: SubscriptionId) -> int
    decreases subs.len(),
{
    if subs.len() == 0 {
        -1
    } else if subs.last().0 == id {
        if subscription_index(subs.drop_last(), id) >= 0 {
            subscription_index(subs.drop_last(), id)
        } else {
            subs.len() - 1
        }
    } else {
        subscription_index(subs.drop_last(), id)
    }
}

/// The handles of the subscriptions, in their order.
pub open spec fn handles<H>(subs: Seq<(SubscriptionId, H)>) -> Seq<SubscriptionId> {
    Seq::new(subs.len(), |i: int| subs[i].0)
}

/// The most recent `limit` entries of a history, or all of it where it is shorter.
pub open spec fn retained(history: Seq<(i64, AppEvent)>, limit: nat) -> Seq<(i64, AppEvent)> {
    if history.len() <= limit {
        history
    } else {
        history.subrange(history.len() - limit, history.len() as int)
    }
}

/// The history after the given events have been published one after the other.
pub open spec fn history_after(
    history: Seq<(i64, AppEvent)>,
    limit: nat,
    published: Seq<(i64, AppEvent)>,
) -> Seq<(i64, AppEvent)>
    decreases published.len(),
{
    if published.len() == 0 {
        history
    } else {
        retained(history_after(history, limit, published.drop_last()).push(published.last()), limit)
    }
}

/// Whether the handles rise strictly along the table and all lie below `issued`.
pub open spec fn handles_in_order<H>(subs: Seq<(SubscriptionId, H)>, issued: nat) -> bool {
    &&& forall|i: int, j: int|
        0 <= i < j < subs.len() ==> (#[trigger] subs[i]).0.0 < (#[trigger] subs[j]).0.0
    &&& forall|i: int| 0 <= i < subs.len() ==> (#[trigger] subs[i]).0.0 < issued
}

/// Where the handles rise along the table, a publication reaches every
/// subscription exactly once: the list of handles names each subscription and
/// names none twice.
pub proof fn lemma_delivery_exactly_once<H>(subs: Seq<(SubscriptionId, H)>, issued: nat)
    requires
        handles_in_order(subs, issued),
    ensures
        handles(subs).len() == subs.len(),
        handles(subs).no_duplicates(),
        forall|i: int| 0 <= i < subs.len() ==> handles(subs).contains((#[trigger] subs[i]).0),
{
    let ids = handles(subs);
    assert forall|i: int, j: int| 0 <= i < ids.len() && 0 <= j < ids.len() && i != j implies ids[i]
        != ids[j] by {
        if i < j {
            assert(subs[i].0.0 < subs[j].0.0);
        } else {
            assert(subs[j].0.0 < subs[i].0.0);
        }
    }
    assert forall|i: int| 0 <= i < subs.len() implies ids.contains((#[trigger] subs[i]).0) by {
        assert(ids[i] == subs[i].0);
    }
}

/// `subscription_index` finds the first subscription with the handle, and -1
/// only where there is none.
pub proof fn lemma_subscription_index<H>(subs: Seq<(SubscriptionId, H)>, id: SubscriptionId)
    ensures
        -1 <= subscription_index(subs, id) < subs.len(),
        subscription_index(subs, id) >= 0 ==> subs[subscription_index(subs, id)].0 == id,
        forall|i: int|
            0 <= i < subs.len() && (subscription_index(subs, id) < 0 || i < subscription_index(
                subs,
                id,
            )) ==> (#[trigger] subs[i]).0 != id,
    decreases subs.len(),
{
    if subs.len() > 0 {
        let front = subs.drop_last();
        lemma_subscription_index(front, id);
        let at = subscription_index(subs, id);
        assert forall|i: int| 0 <= i < subs.len() && (at < 0 || i < at) implies (
        #[trigger] subs[i]).0 != id by {
            if i < front.len() {
                assert(front[i] == subs[i]);
            }
        }
        if at >= 0 && at < front.len() {
            assert(front[at] == subs[at]);
        }
    }
}

/// The bus: subscriptions in the order of their registration, the number of
/// handles issued so far, and the history with its limit.
pub struct EventBus<H> {
    subscribers: Vec<(SubscriptionId, H)>,
    next_id: usize,
    history: Vec<(i64, AppEvent)>,
    max_history: usize,
}

impl<H> EventBus<H> {
    /// The subscriptions, in the order of their registration.
    pub closed spec fn subscriptions(&self) -> Seq<(SubscriptionId, H)> {
        self.subscribers@
    }

    /// The number of handles issued so far; the next handle has this number.
    pub closed spec fn issued(&self) -> nat {
        self.next_id as nat
    }

    /// The instants and events retained, oldest first.
    pub closed spec fn retained_history(&self) -> Seq<(i64, AppEvent)> {
        self.history@
    }

    /// The number of entries that the history may hold.
    pub closed spec fn history_limit(&self) -> nat {
        self.max_history as nat
    }

    /// The handles rise in the order of registration, and the history is within
    /// its limit.
    pub open spec fn wf(&self) -> bool {
        &&& handles_in_order(self.subscriptions(), self.issued())
        &&& self.retained_history().len() <= self.history_limit()
    }

    /// A bus without subscriptions that retains the last hundred events.
    pub fn new() -> (r: Self)
        ensures
            r.subscriptions() == Seq::<(SubscriptionId, H)>::empty(),
            r.issued() == 0,
            r.retained_history() == Seq::<(i64, AppEvent)>::empty(),
            r.history_limit() == 100,
            r.wf(),
    {
        EventBus { subscribers: Vec::new(), next_id: 0, history: Vec::new(), max_history: 100 }
    }

    /// A bus without subscriptions that retains the last `max_history` events.
    pub fn with_history_size(max_history: usize) -> (r: Self)
        ensures
            r.subscriptions() == Seq::<(SubscriptionId, H)>::empty(),
            r.issued() == 0,
            r.retained_history() == Seq::<(i64, AppEvent)>::empty(),
            r.history_limit() == max_history,
            r.wf(),
    {
        EventBus { subscribers: Vec::new(), next_id: 0, history: Vec::new(), max_history }
    }

    /// The number of handles issued so far.
    pub fn handles_issued(&self) -> (r: usize)
        ensures
            r == self.issued(),
    {
        self.next_id
    }

    /// Registers a handler behind all others and issues its handle. Handles are
    /// never reused: each is greater than every handle issued before.
    pub fn subscribe(&mut self, handler: H) -> (id: SubscriptionId)
        requires
            old(self).issued() < usize::MAX,
        ensures
            id.0 == old(self).issued(),
            final(self).issued() == old(self).issued() + 1,
            final(self).subscriptions() == old(self).subscriptions().push((id, handler)),
            final(self).retained_history() == old(self).retained_history(),
            final(self).history_limit() == old(self).history_limit(),
            old(self).wf() ==> final(self).wf() && forall|i: int|
                0 <= i < old(self).subscriptions().len() ==> (
                #[trigger] old(self).subscriptions()[i]).0.0 < id.0,
    {
        let id = SubscriptionId(self.next_id);
        self.next_id = self.next_id + 1;
        let ghost before = self.subscribers@;
        self.subscribers.push((id, handler));
        proof {
            let after = self.subscribers@;
            if handles_in_order(before, old(self).issued()) {
                assert forall|i: int, j: int| 0 <= i < j < after.len() implies (
                #[trigger] after[i]).0.0 < (#[trigger] after[j]).0.0 by {
                    assert(after[i] == before[i]);
                    if j < before.len() {
                        assert(after[j] == before[j]);
                    }
                }
                assert forall|i: int| 0 <= i < after.len() implies (#[trigger] after[i]).0.0
                    < final(self).issued() by {
                    if i < before.len() {
                        assert(after[i] == before[i]);
                    }
                }
            }
        }
        id
    }

    fn position(&self, id: SubscriptionId) -> (r: Option<usize>)
        ensures
            match r {
                Some(at) => at == subscription_index(self.subscriptions(), id) && at
                    < self.subscriptions().len(),
                None => subscription_index(self.subscriptions(), id) < 0,
            },
    {
        let mut i: usize = 0;
        proof {
            lemma_subscription_index(self.subscribers@, id);
        }
        while i < self.subscribers.len()
            invariant
                i <= self.subscribers.len(),
                forall|k: int| 0 <= k < i ==> (#[trigger] self.subscribers@[k]).0 != id,
                -1 <= subscription_index(self.subscribers@, id) < self.subscribers@.len(),
                subscription_index(self.subscribers@, id) >= 0
                    ==> self.subscribers@[subscription_index(self.subscribers@, id)].0 == id,
                forall|k: int|
                    0 <= k < self.subscribers@.len() && (subscription_index(self.subscribers@, id)
                        < 0 || k < subscription_index(self.subscribers@, id)) ==> (
                    #[trigger] self.subscribers@[k]).0 != id,
            decreases self.subscribers.len() - i,
        {
            if self.subscribers[i].0 == id {
                return Some(i);
            }
            i = i + 1;
        }
        None
    }

    /// Removes the subscription with this handle and says whether there was one.
    /// The other subscriptions keep their order.
    pub fn unsubscribe(&mut self, id: SubscriptionId) -> (r: bool)
        ensures
            r == (subscription_index(old(self).subscriptions(), id) >= 0),
            final(self).subscriptions() == if r {
                old(self).subscriptions().remove(subscription_index(old(self).subscriptions(), id))
            } else {
                old(self).subscriptions()
            },
            final(self).issued() == old(self).issued(),
            final(self).retained_history() == old(self).retained_history(),
            final(self).history_limit() == old(self).history_limit(),
            old(self).wf() ==> final(self).wf() && subscription_index(
                final(self).subscriptions(),
                id,
            ) < 0,
    {
        match self.position(id) {
            Some(at) => {
                let ghost before = self.subscribers@;
                let _ = self.subscribers.remove(at);
                proof {
                    let after = self.subscribers@;
                    lemma_subscription_index(after, id);
                    lemma_subscription_index(before, id);
                    if handles_in_order(before, old(self).issued()) {
                        assert forall|i: int| 0 <= i < after.len() implies (
                        #[trigger] after[i]).0.0 < old(self).issued() by {
                            let si = if i < at {
                                i
                            } else {
                                i + 1
                            };
                            assert(after[i] == before[si]);
                        }
                        assert forall|i: int| 0 <= i < after.len() implies #[trigger] after[i]
                            == before[if i < at {
                            i
                        } else {
                            i + 1
                        }] by {}
                        assert forall|i: int, j: int| 0 <= i < j < after.len() implies (
                        #[trigger] after[i]).0.0 < (#[trigger] after[j]).0.0 by {
                            let si = if i < at {
                                i
                            } else {
                                i + 1
                            };
                            let sj = if j < at {
                                j
                            } else {
                                j + 1
                            };
                            assert(after[i] == before[si] && after[j] == before[sj]);
                        }
                        let again = subscription_index(after, id);
                        if again >= 0 {
                            let source = if again < at {
                                again
                            } else {
                                again + 1
                            };
                            assert(after[again] == before[source]);
                            if source < at {
                                assert(before[source].0.0 < before[at as int].0.0);
                            } else {
                                assert(before[at as int].0.0 < before[source].0.0);
                            }
                        }
                    }
                }
                true
            },
            None => false,
        }
    }

    /// The handler of the subscription with this handle.
    pub fn handler(&self, id: SubscriptionId) -> (r: Option<&H>)
        ensures
            match r {
                Some(h) => subscription_index(self.subscriptions(), id) >= 0
                    && *h == self.subscriptions()[subscription_index(self.subscriptions(), id)].1,
                None => subscription_index(self.subscriptions(), id) < 0,
            },
    {
        match self.position(id) {
            Some(at) => Some(&self.subscribers[at].1),
            None => None,
        }
    }

    /// Records an event published at `now` and names the subscriptions to notify.
    /// The event joins the history, and the oldest entries leave it until the
    /// history is within its limit. The result holds the handle of every
    /// subscription once, in the order of registration.
    pub fn publish_at(&mut self, event: AppEvent, now: i64) -> (delivery: Vec<SubscriptionId>)
        ensures
            final(self).retained_history() == retained(
                old(self).retained_history().push((now, event)),
                old(self).history_limit(),
            ),
            delivery@ == handles(old(self).subscriptions()),
            final(self).subscriptions() == old(self).subscriptions(),
            final(self).issued() == old(self).issued(),
            final(self).history_limit() == old(self).history_limit(),
            old(self).wf() ==> final(self).wf() && delivery@.no_duplicates(),
    {
        self.history.push((now, event));
        let ghost pushed = self.history@;
        assert(self.history@ =~= pushed.subrange(0, pushed.len() as int));
        while self.history.len() > self.max_history
            invariant
                self.max_history == old(self).max_history,
                self.subscribers == old(self).subscribers,
                self.next_id == old(self).next_id,
                self.history@.len() <= pushed.len(),
                pushed.len() <= self.max_history ==> self.history@.len() == pushed.len(),
                pushed.len() > self.max_history ==> self.history@.len() >= self.max_history,
                self.history@ == pushed.subrange(
                    pushed.len() - self.history@.len(),
                    pushed.len() as int,
                ),
            decreases self.history.len(),
        {
            let ghost before = self.history@;
            let _ = self.history.remove(0);
            assert(self.history@ =~= pushed.subrange(
                pushed.len() - self.history@.len(),
                pushed.len() as int,
            ));
        }
        proof {
            if pushed.len() <= self.max_history {
                assert(self.history@ =~= pushed);
            }
        }
        let mut delivery: Vec<SubscriptionId> = Vec::new();
        let mut i: usize = 0;
        while i < self.subscribers.len()
            invariant
                i <= self.subscribers.len(),
                delivery@ == handles(self.subscribers@).subrange(0, i as int),
            decreases self.subscribers.len() - i,
        {
            delivery.push(self.subscribers[i].0);
            i = i + 1;
            assert(delivery@ =~= handles(self.subscribers@).subrange(0, i as int));
        }
        assert(delivery@ =~= handles(self.subscribers@));
        proof {
            if old(self).wf() {
                lemma_delivery_exactly_once(self.subscribers@, self.next_id as nat);
            }
        }
        delivery
    }

    /// Records an event published at the present instant and names the
    /// subscriptions to notify, as `publish_at` does for whatever the clock says.
    pub fn publish(&mut self, event: AppEvent) -> (delivery: Vec<SubscriptionId>)
        ensures
            exists|now: i64|
                0 <= now <= MAX_CLOCK_MILLIS && final(self).retained_history() == retained(
                    #[trigger] old(self).retained_history().push((now, event)),
                    old(self).history_limit(),
                ),
            delivery@ == handles(old(self).subscriptions()),
            final(self).subscriptions() == old(self).subscriptions(),
            final(self).issued() == old(self).issued(),
            final(self).history_limit() == old(self).history_limit(),
            old(self).wf() ==> final(self).wf() && delivery@.no_duplicates(),
    {
        let now = now_millis();
        let delivery = self.publish_at(event, now);
        assert(final(self).retained_history() == retained(
            old(self).retained_history().push((now, event)),
            old(self).history_limit(),
        ));
        delivery
    }

    pub fn subscriber_count(&self) -> (r: usize)
        ensures
            r == self.subscriptions().len(),
    {
        self.subscribers.len()
    }

    /// The instants and events retained, oldest first.
    pub fn get_history(&self) -> (r: &Vec<(i64, AppEvent)>)
        ensures
            r@ == self.retained_history(),
    {
        &self.history
    }

    /// Forgets the history.
    pub fn clear_history(&mut self)
        ensures
            final(self).retained_history() == Seq::<(i64, AppEvent)>::empty(),
            final(self).subscriptions() == old(self).subscriptions(),
            final(self).issued() == old(self).issued(),
            final(self).history_limit() == old(self).history_limit(),
            old(self).wf() ==> final(self).wf(),
    {
        self.history = Vec::new();
    }

    /// Removes every subscription. Handles issued before are not reused.
    pub fn clear_subscribers(&mut self)
        ensures
            final(self).subscriptions() == Seq::<(SubscriptionId, H)>::empty(),
            final(self).issued() == old(self).issued(),
            final(self).retained_history() == old(self).retained_history(),
            final(self).history_limit() == old(self).history_limit(),
            old(self).wf() ==> final(self).wf(),
    {
        self.subscribers = Vec::new();
    }
}

impl<H> Default for EventBus<H> {
    fn default() -> (r: Self)
        ensures
            r.subscriptions() == Seq::<(SubscriptionId, H)>::empty(),
            r.issued() == 0,
            r.retained_history() == Seq::<(i64, AppEvent)>::empty(),
            r.history_limit() == 100,
    {
        EventBus::new()
    }
}

/// Trimming before and after adding an entry leaves what trimming after adding
/// it leaves.
pub proof fn lemma_retained_step(history: Seq<(i64, AppEvent)>, limit: nat, entry: (i64, AppEvent))
    ensures
        retained(retained(history, limit).push(entry), limit) == retained(
            history.push(entry),
            limit,
        ),
{
    assert(retained(retained(history, limit).push(entry), limit) =~= retained(
        history.push(entry),
        limit,
    ));
}

/// The history is bounded: after any number of publications it holds exactly the
/// most recent entries, as many as its limit allows. In particular, more
/// publications than the limit leave exactly the last `limit` of them.
pub proof fn lemma_history_bounded(
    history: Seq<(i64, AppEvent)>,
    limit: nat,
    published: Seq<(i64, AppEvent)>,
)
    requires
        history.len() <= limit,
    ensures
        history_after(history, limit, published) == retained(history + published, limit),
        history_after(history, limit, published).len() <= limit,
        published.len() > limit ==> history_after(history, limit, published) == published.subrange(
            published.len() - limit,
            published.len() as int,
        ),
    decreases published.len(),
{
    if published.len() == 0 {
        assert(history + published =~= history);
    } else {
        let front = published.drop_last();
        lemma_history_bounded(history, limit, front);
        lemma_retained_step(history + front, limit, published.last());
        assert((history + front).push(published.last()) =~= history + published);
    }
    if published.len() > limit {
        assert(retained(history + published, limit) =~= published.subrange(
            published.len() - limit,
            published.len() as int,
        ));
    }
}

} // verus!
