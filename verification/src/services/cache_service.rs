//! The cache facade. It owns the fast tier and the policy of both tiers: expiry,
//! eviction on read, and promotion of what the durable tier still holds. The
//! durable tier itself is storage outside this library: its rows are handed in,
//! and the outcome says what is to be done with them. Payloads are opaque text;
//! instants and time-to-live are in milliseconds.

use crate::clock::{now_millis, MAX_CLOCK_MILLIS};
use crate::services::lru_tier::{
    keys_distinct, lemma_put, lemma_remove, lemma_slot_index, lemma_touch, lru_capacity, lru_clear,
    lru_get, lru_new, lru_peek, lru_pop, lru_put, lru_slots, slot_index, slots_lookup, slots_put,
    slots_remove, slots_touch,
};
use crate::text::owned;
use vstd::prelude::*;
use vstd::string::*;

verus! {

/// The number of entries that the fast tier holds.
pub const DEFAULT_MEMORY_CACHE_SIZE: usize = 100;

/// Why a cache operation failed.
#[derive(Debug)]
pub enum CacheError {
    /// No tier holds the key.
    NotFound(String),
    /// The durable tier held the key, but the entry had lapsed.
    Expired(String),
    /// A payload could not be encoded or decoded.
    SerializationError(String),
    /// The durable tier failed.
    DatabaseError(String),
    LockError(String),
}

impl CacheError {
    /// The message of the error.
    pub open spec fn message(&self) -> Seq<char> {
        match *self {
            CacheError::NotFound(m) => "Cache entry not found: "@ + m@,
            CacheError::Expired(m) => "Cache entry expired: "@ + m@,
            CacheError::SerializationError(m) => "Serialization error: "@ + m@,
            CacheError::DatabaseError(m) => "Database error: "@ + m@,
            CacheError::LockError(m) => "Lock error: "@ + m@,
        }
    }

    /// The message of the error.
    pub fn to_string(&self) -> (r: String)
        ensures
            r@ == self.message(),
    {
        match self {
            CacheError::NotFound(m) => owned("Cache entry not found: ").concat(m.as_str()),
            CacheError::Expired(m) => owned("Cache entry expired: ").concat(m.as_str()),
            CacheError::SerializationError(m) => owned("Serialization error: ").concat(m.as_str()),
            CacheError::DatabaseError(m) => owned("Database error: ").concat(m.as_str()),
            CacheError::LockError(m) => owned("Lock error: ").concat(m.as_str()),
        }
    }
}

/// How long each kind of result stays fresh, in milliseconds.
#[derive(Debug, Clone, Copy, PartialEq, Eq, Structural)]
pub struct CacheConfig {
    pub ticket_search_ttl: i64,
    pub pr_list_ttl: i64,
    pub incident_list_ttl: i64,
    pub spec_analysis_ttl: i64,
}

impl Default for CacheConfig {
    /// Five minutes for ticket searches, two for pull requests, thirty seconds for
    /// incidents and one hour for analyses.
    fn default() -> (r: Self)
        ensures
            r.ticket_search_ttl == 300_000,
            r.pr_list_ttl == 120_000,
            r.incident_list_ttl == 30_000,
            r.spec_analysis_ttl == 3_600_000,
    {
        CacheConfig {
            ticket_search_ttl: 300_000,
            pr_list_ttl: 120_000,
            incident_list_ttl: 30_000,
            spec_analysis_ttl: 3_600_000,
        }
    }
}

/// Whether an entry of the fast tier that expires at `expires_at` has lapsed at
/// `now`.
pub open spec fn lapsed(expires_at: i64, now: i64) -> bool {
    now > expires_at
}

/// A payload and the instant at which it lapses.
#[derive(Debug, Clone)]
pub struct CacheEntry {
    pub value: String,
    pub expires_at: i64,
}

impl CacheEntry {
    /// An entry that lapses `ttl` after `now`.
    pub fn expiring(value: String, ttl: i64, now: i64) -> (r: Self)
        requires
            i64::MIN <= now + ttl <= i64::MAX,
        ensures
            r.value == value,
            r.expires_at == now + ttl,
    {
        CacheEntry { value, expires_at: now + ttl }
    }

    /// An entry that lapses `ttl` after the present instant.
    pub fn new(value: String, ttl: i64) -> (r: Self)
        requires
            ttl <= i64::MAX - MAX_CLOCK_MILLIS,
        ensures
            r.value == value,
            0 <= r.expires_at - ttl <= MAX_CLOCK_MILLIS,
    {
        let now = now_millis();
        Self::expiring(value, ttl, now)
    }

    /// Whether the entry has lapsed at `now`, by the rule of the fast tier: an
    /// entry is still good at the very instant of its expiry.
    pub fn is_expired_at(&self, now: i64) -> (r: bool)
        ensures
            r == lapsed(self.expires_at, now),
    {
        now > self.expires_at
    }

    /// Whether the entry has lapsed at the present instant, whatever the clock says.
    pub fn is_expired(&self) -> (r: bool)
        ensures
            exists|now: i64| 0 <= now <= MAX_CLOCK_MILLIS && r == #[trigger] lapsed(self.expires_at, now),
    {
        let now = now_millis();
        let r = self.is_expired_at(now);
        assert(r == lapsed(self.expires_at, now));
        r
    }

    /// The entry as a row of the durable tier; `None` where its expiry lies
    /// beyond the calendar.
    pub fn durable_row(&self) -> (r: Option<DurableRow>)
        ensures
            match rfc3339_text(self.expires_at) {
                Some(text) => r matches Some(row) && row.value == self.value && row.expires_at@
                    == text,
                None => r is None,
            },
    {
        match format_rfc3339(self.expires_at) {
            Some(expires_at) => Some(DurableRow { value: self.value.clone(), expires_at }),
            None => None,
        }
    }

    /// Whether a row of the durable tier is still good at `now`: it must lapse
    /// strictly later.
    pub fn is_live_row_at(&self, now: i64) -> (r: bool)
        ensures
            r == (now < self.expires_at),
    {
        now < self.expires_at
    }
}

/// The instant, in milliseconds since the Unix epoch, that `chrono` reads from a
/// text in the notation of RFC 3339; `None` where it reads none.
pub uninterp spec fn rfc3339_millis(text: Seq<char>) -> Option<i64>;

/// The notation of RFC 3339 that `chrono` writes for an instant given in
/// milliseconds since the Unix epoch; `None` for an instant beyond its calendar.
pub uninterp spec fn rfc3339_text(millis: i64) -> Option<Seq<char>>;

/// Reads an instant with `chrono::DateTime::parse_from_rfc3339` and converts it to
/// milliseconds. Trusted: the instant is named `rfc3339_millis`; it depends on the
/// text alone. Of the message for a text that is not read, nothing is claimed.
#[verifier::external_body]
fn parse_rfc3339(text: &str) -> (r: Result<i64, String>)
    ensures
        match rfc3339_millis(text@) {
            Some(millis) => r == Ok::<i64, String>(millis),
            None => r is Err,
        },
{
    chrono::DateTime::parse_from_rfc3339(text).map(
        |instant| instant.with_timezone(&chrono::Utc).timestamp_millis(),
    ).map_err(|e| e.to_string())
}

/// Writes an instant with `chrono::DateTime::to_rfc3339`, after
/// `DateTime::from_timestamp_millis` has made it from milliseconds. Trusted: the
/// text is named `rfc3339_text`; it depends on the number alone.
#[verifier::external_body]
fn format_rfc3339(millis: i64) -> (r: Option<String>)
    ensures
        match rfc3339_text(millis) {
            Some(text) => r matches Some(s) && s@ == text,
            None => r is None,
        },
{
    chrono::DateTime::from_timestamp_millis(millis).map(|instant| instant.to_rfc3339())
}

/// A row of the durable tier as it is stored: the payload, and the instant at
/// which it lapses in the notation of RFC 3339.
#[derive(Debug, Clone)]
pub struct DurableRow {
    pub value: String,
    pub expires_at: String,
}

/// Whether `serde_json` reads a text as one JSON value.
pub uninterp spec fn is_json_text(text: Seq<char>) -> bool;

/// Parses a text with `serde_json::from_str` into a `serde_json::Value` and says
/// whether that succeeded. Trusted: the answer is named `is_json_text`; it depends
/// on the text alone.
#[verifier::external_body]
fn payload_is_json(text: &str) -> (r: bool)
    ensures
        r == is_json_text(text@),
{
    serde_json::from_str::<serde_json::Value>(text).is_ok()
}

/// The payload that a read of the fast tier at `now` yields: that of the entry
/// under the key, unless it has lapsed.
pub open spec fn fresh_payload(
    slots: Seq<(Seq<char>, Seq<char>, i64)>,
    key: Seq<char>,
    now: i64,
) -> Option<Seq<char>> {
    match slots_lookup(slots, key) {
        Some((payload, expires_at)) => if now > expires_at {
            None
        } else {
            Some(payload)
        },
        None => None,
    }
}

/// The fast tier after a read at `now`: an entry that is still good counts as
/// used, a lapsed entry is evicted, and a missing key changes nothing.
pub open spec fn slots_after_read(
    slots: Seq<(Seq<char>, Seq<char>, i64)>,
    key: Seq<char>,
    now: i64,
) -> Seq<(Seq<char>, Seq<char>, i64)> {
    match slots_lookup(slots, key) {
        Some((payload, expires_at)) => if now > expires_at {
            slots_remove(slots, key)
        } else {
            slots_touch(slots, key)
        },
        None => slots,
    }
}

/// The fast tier after a write at `now` with time-to-live `ttl`.
pub open spec fn slots_after_set(
    slots: Seq<(Seq<char>, Seq<char>, i64)>,
    capacity: nat,
    key: Seq<char>,
    payload: Seq<char>,
    ttl: i64,
    now: i64,
) -> Seq<(Seq<char>, Seq<char>, i64)> {
    slots_put(slots, capacity, key, payload, (now + ttl) as i64)
}

/// Whether a text is the given one.
pub open spec fn is_text(got: Option<String>, text: Option<Seq<char>>) -> bool {
    match text {
        Some(t) => got matches Some(s) && s@ == t,
        None => got is None,
    }
}

/// Whether a read handed out the payload, or else reported the key as not found.
pub open spec fn is_read_result(
    got: Result<String, CacheError>,
    payload: Option<Seq<char>>,
    key: Seq<char>,
) -> bool {
    match payload {
        Some(p) => got matches Ok(s) && s@ == p,
        None => got matches Err(CacheError::NotFound(k)) && k@ == key,
    }
}

/// The two-tier cache, as far as it lives in memory.
pub struct CacheService {
    memory: lru::LruCache<String, (String, i64)>,
    config: CacheConfig,
}

impl CacheService {
    /// The entries of the fast tier: key, payload and expiry, the entry used most
    /// recently first.
    pub closed spec fn slots(&self) -> Seq<(Seq<char>, Seq<char>, i64)> {
        lru_slots(self.memory)
    }

    /// The number of entries that the fast tier was made to hold.
    pub closed spec fn capacity(&self) -> nat {
        lru_capacity(self.memory)
    }

    /// The settings that the cache was made with.
    pub closed spec fn settings(&self) -> CacheConfig {
        self.config
    }

    /// Payload and expiry of the entry that the fast tier holds under the key.
    pub open spec fn lookup(&self, key: Seq<char>) -> Option<(Seq<char>, i64)> {
        slots_lookup(self.slots(), key)
    }

    /// The fast tier is within its capacity and holds every key once.
    pub open spec fn wf(&self) -> bool {
        &&& self.capacity() > 0
        &&& self.slots().len() <= self.capacity()
        &&& keys_distinct(self.slots())
    }

    /// An empty cache with the default settings. Always succeeds.
    pub fn new_in_memory() -> (r: Result<Self, CacheError>)
        ensures
            r matches Ok(cache) && cache.slots() == Seq::<(Seq<char>, Seq<char>, i64)>::empty()
                && cache.capacity() == DEFAULT_MEMORY_CACHE_SIZE && cache.wf() && cache.settings()
                == (CacheConfig {
                ticket_search_ttl: 300_000,
                pr_list_ttl: 120_000,
                incident_list_ttl: 30_000,
                spec_analysis_ttl: 3_600_000,
            }),
    {
        Ok(CacheService { memory: lru_new(DEFAULT_MEMORY_CACHE_SIZE), config: CacheConfig::default() })
    }

    /// An empty cache with the given settings. Always succeeds.
    pub fn with_config(config: CacheConfig) -> (r: Result<Self, CacheError>)
        ensures
            r matches Ok(cache) && cache.slots() == Seq::<(Seq<char>, Seq<char>, i64)>::empty()
                && cache.capacity() == DEFAULT_MEMORY_CACHE_SIZE && cache.wf() && cache.settings()
                == config,
    {
        Ok(CacheService { memory: lru_new(DEFAULT_MEMORY_CACHE_SIZE), config })
    }

    /// Writes a payload that lapses `ttl` after `now` into the fast tier. An entry
    /// under the same key is replaced; in a full tier the entry used least recently
    /// leaves without notice. Always succeeds.
    pub fn set_at(&mut self, key: &str, value: String, ttl: i64, now: i64) -> (r: Result<
        (),
        CacheError,
    >)
        requires
            i64::MIN <= now + ttl <= i64::MAX,
        ensures
            r is Ok,
            final(self).slots() == slots_after_set(
                old(self).slots(),
                old(self).capacity(),
                key@,
                value@,
                ttl,
                now,
            ),
            final(self).capacity() == old(self).capacity(),
            final(self).settings() == old(self).settings(),
            old(self).wf() ==> final(self).wf() && final(self).lookup(key@) == Some(
                (value@, (now + ttl) as i64),
            ),
    {
        proof {
            if self.wf() {
                lemma_put(self.slots(), self.capacity(), key@, value@, (now + ttl) as i64);
            }
        }
        let entry = CacheEntry::expiring(value, ttl, now);
        let _ = lru_put(&mut self.memory, key, entry.value, entry.expires_at);
        Ok(())
    }

    /// Writes a payload that lapses `ttl` after the present instant. Always
    /// succeeds; the instant is whatever the clock says.
    pub fn set(&mut self, key: &str, value: String, ttl: i64) -> (r: Result<(), CacheError>)
        requires
            ttl <= i64::MAX - MAX_CLOCK_MILLIS,
        ensures
            r is Ok,
            exists|now: i64|
                0 <= now <= MAX_CLOCK_MILLIS && final(self).slots() == #[trigger] slots_after_set(
                    old(self).slots(),
                    old(self).capacity(),
                    key@,
                    value@,
                    ttl,
                    now,
                ),
            final(self).capacity() == old(self).capacity(),
            final(self).settings() == old(self).settings(),
            old(self).wf() ==> final(self).wf(),
    {
        let now = now_millis();
        let r = self.set_at(key, value, ttl, now);
        assert(final(self).slots() == slots_after_set(
            old(self).slots(),
            old(self).capacity(),
            key@,
            value@,
            ttl,
            now,
        ));
        r
    }

    /// Reads the fast tier at `now`. An entry that is still good is handed out and
    /// counts as used; a lapsed entry is evicted. `None` means that the durable
    /// tier is to be asked.
    pub fn read_fast_at(&mut self, key: &str, now: i64) -> (r: Option<String>)
        ensures
            is_text(r, fresh_payload(old(self).slots(), key@, now)),
            final(self).slots() == slots_after_read(old(self).slots(), key@, now),
            final(self).capacity() == old(self).capacity(),
            final(self).settings() == old(self).settings(),
            old(self).wf() ==> final(self).wf(),
    {
        proof {
            lemma_slot_index(self.slots(), key@);
            if self.wf() {
                lemma_touch(self.slots(), key@, key@);
                lemma_remove(self.slots(), key@, key@);
            }
        }
        let ghost before = self.slots();
        match lru_get(&mut self.memory, key) {
            Some(pair) => {
                let entry = CacheEntry { value: pair.0, expires_at: pair.1 };
                if !entry.is_expired_at(now) {
                    Some(entry.value)
                } else {
                    let _ = lru_pop(&mut self.memory, key);
                    proof {
                        let at = slot_index(before, key@);
                        let touched = slots_touch(before, key@);
                        assert(touched[0] == before[at]);
                        assert(slot_index(touched, key@) == 0);
                        assert(touched.remove(0) =~= before.remove(at));
                    }
                    None
                }
            },
            None => None,
        }
    }

    /// Settles a read that the fast tier could not answer, given the row that the
    /// durable tier holds under the key. A row that is still good is promoted into
    /// the fast tier and handed out. For a lapsed row the result is `Expired`, and
    /// the caller deletes the row. Without a row the key is `NotFound`.
    pub fn read_durable_at(&mut self, key: &str, row: Option<CacheEntry>, now: i64) -> (r: Result<
        String,
        CacheError,
    >)
        ensures
            final(self).capacity() == old(self).capacity(),
            final(self).settings() == old(self).settings(),
            old(self).wf() ==> final(self).wf(),
            match row {
                None => final(self).slots() == old(self).slots() && (r matches Err(
                    CacheError::NotFound(k),
                ) && k@ == key@),
                Some(entry) => if now < entry.expires_at {
                    &&& r matches Ok(payload) && payload@ == entry.value@
                    &&& final(self).slots() == slots_put(
                        old(self).slots(),
                        old(self).capacity(),
                        key@,
                        entry.value@,
                        entry.expires_at,
                    )
                } else {
                    &&& r matches Err(CacheError::Expired(k)) && k@ == key@
                    &&& final(self).slots() == old(self).slots()
                },
            },
    {
        match row {
            None => Err(CacheError::NotFound(owned(key))),
            Some(entry) => {
                if entry.is_live_row_at(now) {
                    proof {
                        if self.wf() {
                            lemma_put(
                                self.slots(),
                                self.capacity(),
                                key@,
                                entry.value@,
                                entry.expires_at,
                            );
                        }
                    }
                    let payload = entry.value.clone();
                    let _ = lru_put(&mut self.memory, key, entry.value, entry.expires_at);
                    Ok(payload)
                } else {
                    Err(CacheError::Expired(owned(key)))
                }
            },
        }
    }

    /// Settles a read that the fast tier could not answer, given the row as the
    /// durable tier stores it. A row whose expiry cannot be read is a
    /// `SerializationError` and changes nothing; any other row is settled as
    /// `read_durable_at` settles the entry that it stands for.
    pub fn read_durable_row_at(&mut self, key: &str, row: Option<DurableRow>, now: i64) -> (r:
        Result<String, CacheError>)
        ensures
            final(self).capacity() == old(self).capacity(),
            final(self).settings() == old(self).settings(),
            old(self).wf() ==> final(self).wf(),
            match row {
                None => final(self).slots() == old(self).slots() && (r matches Err(
                    CacheError::NotFound(k),
                ) && k@ == key@),
                Some(stored) => match rfc3339_millis(stored.expires_at@) {
                    None => r matches Err(CacheError::SerializationError(_)) && final(self).slots()
                        == old(self).slots(),
                    Some(expires_at) => if now < expires_at {
                        &&& r matches Ok(payload) && payload@ == stored.value@
                        &&& final(self).slots() == slots_put(
                            old(self).slots(),
                            old(self).capacity(),
                            key@,
                            stored.value@,
                            expires_at,
                        )
                    } else {
                        &&& r matches Err(CacheError::Expired(k)) && k@ == key@
                        &&& final(self).slots() == old(self).slots()
                    },
                },
            },
    {
        match row {
            None => self.read_durable_at(key, None, now),
            Some(stored) => match parse_rfc3339(stored.expires_at.as_str()) {
                Err(message) => Err(CacheError::SerializationError(message)),
                Ok(expires_at) => self.read_durable_at(
                    key,
                    Some(CacheEntry { value: stored.value, expires_at }),
                    now,
                ),
            },
        }
    }

    /// Reads a cache that has no durable tier, at `now`: the payload of an entry
    /// that is still good, else `NotFound`. A lapsed entry is evicted on the way.
    pub fn get_at(&mut self, key: &str, now: i64) -> (r: Result<String, CacheError>)
        ensures
            is_read_result(r, fresh_payload(old(self).slots(), key@, now), key@),
            final(self).slots() == slots_after_read(old(self).slots(), key@, now),
            final(self).capacity() == old(self).capacity(),
            final(self).settings() == old(self).settings(),
            old(self).wf() ==> final(self).wf(),
    {
        match self.read_fast_at(key, now) {
            Some(payload) => Ok(payload),
            None => self.read_durable_at(key, None, now),
        }
    }

    /// Reads a cache that has no durable tier, at the present instant. The result
    /// is that of `get_at` for whatever the clock says.
    pub fn get(&mut self, key: &str) -> (r: Result<String, CacheError>)
        ensures
            exists|now: i64|
                0 <= now <= MAX_CLOCK_MILLIS && is_read_result(
                    r,
                    #[trigger] fresh_payload(old(self).slots(), key@, now),
                    key@,
                ) && final(self).slots() == slots_after_read(old(self).slots(), key@, now),
            final(self).capacity() == old(self).capacity(),
            final(self).settings() == old(self).settings(),
            old(self).wf() ==> final(self).wf(),
    {
        let now = now_millis();
        let r = self.get_at(key, now);
        assert(is_read_result(r, fresh_payload(old(self).slots(), key@, now), key@));
        r
    }

    /// Whether a read at `now` would hand out a payload that is one JSON value.
    /// The read takes place: it counts as a use, and a lapsed entry is evicted.
    pub fn contains_at(&mut self, key: &str, now: i64) -> (r: bool)
        ensures
            r == (fresh_payload(old(self).slots(), key@, now) matches Some(payload)
                && is_json_text(payload)),
            final(self).slots() == slots_after_read(old(self).slots(), key@, now),
            final(self).capacity() == old(self).capacity(),
            final(self).settings() == old(self).settings(),
            old(self).wf() ==> final(self).wf(),
    {
        match self.get_at(key, now) {
            Ok(payload) => payload_is_json(payload.as_str()),
            Err(_) => false,
        }
    }

    /// Whether a read at the present instant would hand out a payload that is one
    /// JSON value.
    pub fn contains(&mut self, key: &str) -> (r: bool)
        ensures
            exists|now: i64|
                0 <= now <= MAX_CLOCK_MILLIS && r == (#[trigger] fresh_payload(
                    old(self).slots(),
                    key@,
                    now,
                ) matches Some(payload) && is_json_text(payload)) && final(self).slots()
                    == slots_after_read(old(self).slots(), key@, now),
            final(self).capacity() == old(self).capacity(),
            final(self).settings() == old(self).settings(),
            old(self).wf() ==> final(self).wf(),
    {
        let now = now_millis();
        let r = self.contains_at(key, now);
        assert(r == (fresh_payload(old(self).slots(), key@, now) matches Some(payload)
            && is_json_text(payload)));
        r
    }

    /// Removes the entry under the key from the fast tier. Always succeeds, also
    /// where there is no such entry.
    pub fn delete(&mut self, key: &str) -> (r: Result<(), CacheError>)
        ensures
            r is Ok,
            final(self).slots() == slots_remove(old(self).slots(), key@),
            final(self).capacity() == old(self).capacity(),
            final(self).settings() == old(self).settings(),
            old(self).wf() ==> final(self).wf() && final(self).lookup(key@) is None,
    {
        proof {
            if self.wf() {
                lemma_remove(self.slots(), key@, key@);
            }
        }
        let _ = lru_pop(&mut self.memory, key);
        Ok(())
    }

    /// Removes every entry from the fast tier. Always succeeds.
    pub fn clear(&mut self) -> (r: Result<(), CacheError>)
        ensures
            r is Ok,
            final(self).slots() == Seq::<(Seq<char>, Seq<char>, i64)>::empty(),
            final(self).capacity() == old(self).capacity(),
            final(self).settings() == old(self).settings(),
            old(self).wf() ==> final(self).wf(),
    {
        lru_clear(&mut self.memory);
        Ok(())
    }

    /// The payload under the key in the fast tier, lapsed or not. The read does
    /// not count as a use and evicts nothing.
    pub fn get_stale(&self, key: &str) -> (r: Option<String>)
        ensures
            match self.lookup(key@) {
                Some((payload, expires_at)) => r matches Some(s) && s@ == payload,
                None => r is None,
            },
    {
        match lru_peek(&self.memory, key) {
            Some(pair) => Some(pair.0),
            None => None,
        }
    }

    /// The settings that the cache was made with.
    pub fn config(&self) -> (r: &CacheConfig)
        ensures
            *r == self.settings(),
    {
        &self.config
    }
}

/// A payload written with a positive time-to-live is read back unchanged at every
/// instant from the write until the time-to-live has elapsed; after that the read
/// finds nothing.
pub proof fn lemma_set_then_get(
    slots: Seq<(Seq<char>, Seq<char>, i64)>,
    capacity: nat,
    key: Seq<char>,
    payload: Seq<char>,
    ttl: i64,
    now: i64,
    later: i64,
)
    requires
        keys_distinct(slots),
        slots.len() <= capacity,
        capacity > 0,
        ttl > 0,
        now + ttl <= i64::MAX,
        now <= later,
    ensures
        later <= now + ttl ==> fresh_payload(
            slots_after_set(slots, capacity, key, payload, ttl, now),
            key,
            later,
        ) == Some(payload),
        later > now + ttl ==> fresh_payload(
            slots_after_set(slots, capacity, key, payload, ttl, now),
            key,
            later,
        ) is None,
{
    lemma_put(slots, capacity, key, payload, (now + ttl) as i64);
}

/// After a write followed by a removal of the same key, a read finds nothing,
/// whatever the instant, and so the key does not count as present either.
pub proof fn lemma_set_then_delete(
    slots: Seq<(Seq<char>, Seq<char>, i64)>,
    capacity: nat,
    key: Seq<char>,
    payload: Seq<char>,
    ttl: i64,
    now: i64,
    later: i64,
)
    requires
        keys_distinct(slots),
        slots.len() <= capacity,
        capacity > 0,
        i64::MIN <= now + ttl <= i64::MAX,
    ensures
        fresh_payload(
            slots_remove(slots_after_set(slots, capacity, key, payload, ttl, now), key),
            key,
            later,
        ) is None,
{
    lemma_put(slots, capacity, key, payload, (now + ttl) as i64);
    lemma_remove(slots_after_set(slots, capacity, key, payload, ttl, now), key, key);
}

/// Removing a key twice leaves what removing it once leaves.
pub proof fn lemma_delete_idempotent(slots: Seq<(Seq<char>, Seq<char>, i64)>, key: Seq<char>)
    requires
        keys_distinct(slots),
    ensures
        slots_remove(slots_remove(slots, key), key) == slots_remove(slots, key),
{
    lemma_remove(slots, key, key);
}

/// A row that only the durable tier holds and that is still good is, once a read
/// has promoted it, answered by the fast tier alone: at every instant up to its
/// expiry a read of the fast tier yields its payload.
pub proof fn lemma_promotion(
    slots: Seq<(Seq<char>, Seq<char>, i64)>,
    capacity: nat,
    key: Seq<char>,
    payload: Seq<char>,
    expires_at: i64,
    now: i64,
    later: i64,
)
    requires
        keys_distinct(slots),
        slots.len() <= capacity,
        capacity > 0,
        slots_lookup(slots, key) is None,
        now < expires_at,
        later <= expires_at,
    ensures
        fresh_payload(slots_put(slots, capacity, key, payload, expires_at), key, later) == Some(
            payload,
        ),
{
    lemma_put(slots, capacity, key, payload, expires_at);
}

} // verus!
