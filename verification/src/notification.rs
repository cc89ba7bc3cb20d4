//! The notification value type and its expiry and sort-key rules.

use vstd::prelude::*;

verus! {

/// A push notification as the core routes and stores it.
///
/// `ttl == 0` marks a direct-only notification: it is delivered to a
/// connected client but never persisted. A notification carrying a `topic`
/// is deduplicated per `(channel_id, topic)` in storage; a non-topic stored
/// notification is ordered by `sortkey_timestamp`.
#[derive(Debug)]
pub struct Notification {
    /// Identifier of the subscription this notification belongs to.
    pub channel_id: String,
    /// Opaque version tag; acknowledgements name `(channel_id, version)`.
    pub version: String,
    /// Seconds to live from `timestamp`; `0` means direct-only.
    pub ttl: u64,
    /// Optional dedup key: at most one stored row per `(channel_id, topic)`.
    pub topic: Option<String>,
    /// Seconds since epoch at server receipt.
    pub timestamp: u64,
    /// Monotonic paging key for non-topic stored notifications.
    pub sortkey_timestamp: Option<u64>,
    /// Opaque payload.
    pub data: Option<String>,
}

/// Clones an optional string exactly.
fn clone_opt_string(s: &Option<String>) -> (r: Option<String>)
    ensures
        r == *s,
{
    match s {
        Some(v) => Some(v.clone()),
        None => None,
    }
}

/// Clones an optional integer exactly.
fn clone_opt_u64(s: &Option<u64>) -> (r: Option<u64>)
    ensures
        r == *s,
{
    match s {
        Some(v) => Some(*v),
        None => None,
    }
}

impl Clone for Notification {
    /// A clone is equal to the original, field for field.
    fn clone(&self) -> (r: Self)
        ensures
            r == *self,
    {
        Notification {
            channel_id: self.channel_id.clone(),
            version: self.version.clone(),
            ttl: self.ttl,
            topic: clone_opt_string(&self.topic),
            timestamp: self.timestamp,
            sortkey_timestamp: clone_opt_u64(&self.sortkey_timestamp),
            data: clone_opt_string(&self.data),
        }
    }
}

/// The key under which a notification is stored: topic rows are keyed by
/// `(channel_id, topic)`, all other rows by `(sortkey_timestamp, channel_id)`.
#[derive(Debug, Clone)]
pub enum SortKey {
    Topic { channel_id: String, topic: String },
    Timestamp { sortkey_timestamp: u64, channel_id: String },
}

/// The mathematical value of a [`SortKey`].
pub enum SortKeyV {
    Topic { channel_id: Seq<char>, topic: Seq<char> },
    Timestamp { sortkey_timestamp: u64, channel_id: Seq<char> },
}

impl View for SortKey {
    type V = SortKeyV;

    open spec fn view(&self) -> SortKeyV {
        match self {
            SortKey::Topic { channel_id, topic } => SortKeyV::Topic {
                channel_id: channel_id@,
                topic: topic@,
            },
            SortKey::Timestamp { sortkey_timestamp, channel_id } => SortKeyV::Timestamp {
                sortkey_timestamp: *sortkey_timestamp,
                channel_id: channel_id@,
            },
        }
    }
}

/// Decides equality of two sort keys.
pub fn sort_key_eq(a: &SortKey, b: &SortKey) -> (r: bool)
    ensures
        r == (a@ == b@),
{
    match (a, b) {
        (
            SortKey::Topic { channel_id: c1, topic: t1 },
            SortKey::Topic { channel_id: c2, topic: t2 },
        ) => *c1 == *c2 && *t1 == *t2,
        (
            SortKey::Timestamp { sortkey_timestamp: s1, channel_id: c1 },
            SortKey::Timestamp { sortkey_timestamp: s2, channel_id: c2 },
        ) => *s1 == *s2 && *c1 == *c2,
        _ => false,
    }
}

impl Notification {
    /// A notification is expired once `timestamp + ttl` lies strictly
    /// before `now`.
    pub open spec fn spec_expired(self, now: u64) -> bool {
        self.timestamp + self.ttl < now
    }

    /// Executable expiry test; the sum is taken in 128 bits so it cannot
    /// overflow.
    pub fn expired(&self, now: u64) -> (b: bool)
        ensures
            b == self.spec_expired(now),
    {
        (self.timestamp as u128) + (self.ttl as u128) < (now as u128)
    }

    /// The sort key of a missing `sortkey_timestamp` defaults to zero.
    pub open spec fn spec_sortkey_val(self) -> u64 {
        match self.sortkey_timestamp {
            Some(v) => v,
            None => 0,
        }
    }

    /// The sort key value, zero when unset.
    pub fn sortkey_val(&self) -> (v: u64)
        ensures
            v == self.spec_sortkey_val(),
    {
        match self.sortkey_timestamp {
            Some(v) => v,
            None => 0,
        }
    }

    /// The storage key this notification is filed under.
    pub open spec fn spec_sort_key(self) -> SortKeyV {
        match self.topic {
            Some(t) => SortKeyV::Topic { channel_id: self.channel_id@, topic: t@ },
            None => SortKeyV::Timestamp {
                sortkey_timestamp: self.spec_sortkey_val(),
                channel_id: self.channel_id@,
            },
        }
    }

    /// Builds the storage key: the topic key when a topic is present, else
    /// the timestamp key (zero when `sortkey_timestamp` is unset).
    pub fn sort_key(&self) -> (k: SortKey)
        ensures
            k@ == self.spec_sort_key(),
    {
        match &self.topic {
            Some(t) => SortKey::Topic { channel_id: self.channel_id.clone(), topic: t.clone() },
            None => SortKey::Timestamp {
                sortkey_timestamp: match self.sortkey_timestamp {
                    Some(v) => v,
                    None => 0,
                },
                channel_id: self.channel_id.clone(),
            },
        }
    }
}

} // verus!
