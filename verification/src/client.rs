//! The per-connection state machine: direct delivery, the storage sweep,
//! the high-water commit, acknowledgements and shutdown.

use vstd::prelude::*;
use vstd::seq_lib::*;

use crate::notification::{Notification, SortKeyV};
use crate::protocol::{AckEntry, SMError, ServerMessage, ServerNotification};
use crate::storage::{spec_max_sortkey, StorageModel, lemma_filter_mem};

verus! {

/// How many rows one topic fetch may read: one more than a sweep batch, so
/// an overflowing topic table can be detected.
pub const TOPIC_FETCH_LIMIT: usize = 11;

/// How many stored notifications one sweep may emit.
pub const SWEEP_BATCH_LIMIT: usize = 10;

/// Per-connection control flags.
#[derive(Debug, PartialEq, Eq, Structural, Clone, Copy)]
pub struct ClientFlags {
    /// The next fetch should read the per-topic table.
    pub include_topic: bool,
    /// A storage sweep is in progress or pending.
    pub check_storage: bool,
    /// The high-water mark must be committed before the next sweep.
    pub increment_storage: bool,
}

impl ClientFlags {
    /// Flags of a fresh connection: the first sweep reads the topic table.
    pub fn new() -> (r: Self)
        ensures
            r == (ClientFlags { include_topic: true, check_storage: false, increment_storage: false }),
    {
        ClientFlags { include_topic: true, check_storage: false, increment_storage: false }
    }
}

/// What the client has been sent and has not yet acknowledged.
#[derive(Debug)]
pub struct AckState {
    /// Directly delivered notifications, in delivery order.
    pub unacked_direct_notifs: Vec<Notification>,
    /// Notifications delivered from storage, in delivery order.
    pub unacked_stored_notifs: Vec<Notification>,
    /// High-water mark to commit once the client has acked up to it.
    pub unacked_stored_highest: Option<u64>,
}

/// The authority for one authenticated client connection.
#[derive(Debug)]
pub struct WebPushClient {
    /// The user this connection belongs to.
    pub uaid: u128,
    /// Arbitration value of this session.
    pub connected_at: u64,
    pub flags: ClientFlags,
    pub ack_state: AckState,
    /// Stored notifications sent on this connection.
    pub sent_from_storage: u32,
    /// Cap on `sent_from_storage`; crossing it drops the user's queue.
    pub msg_limit: u32,
}

impl WebPushClient {
    /// Every unacked stored notification is either a topic message or
    /// carries a sort key.
    pub open spec fn wf(self) -> bool {
        forall|i: int|
            0 <= i < self.ack_state.unacked_stored_notifs@.len() ==> (
            #[trigger] self.ack_state.unacked_stored_notifs@[i]).topic is Some
                || self.ack_state.unacked_stored_notifs@[i].sortkey_timestamp is Some
    }

    /// A fresh session for `uaid`.
    pub fn new(uaid: u128, connected_at: u64, msg_limit: u32) -> (r: Self)
        ensures
            r.wf(),
            r.uaid == uaid,
            r.connected_at == connected_at,
            r.msg_limit == msg_limit,
            r.sent_from_storage == 0,
            r.flags == (ClientFlags {
                include_topic: true,
                check_storage: false,
                increment_storage: false,
            }),
            r.ack_state.unacked_direct_notifs@.len() == 0,
            r.ack_state.unacked_stored_notifs@.len() == 0,
            r.ack_state.unacked_stored_highest is None,
    {
        WebPushClient {
            uaid,
            connected_at,
            flags: ClientFlags::new(),
            ack_state: AckState {
                unacked_direct_notifs: Vec::new(),
                unacked_stored_notifs: Vec::new(),
                unacked_stored_highest: None,
            },
            sent_from_storage: 0,
            msg_limit,
        }
    }
}

/// What one round of fetching yields to the sweep.
pub struct SweepYield {
    pub include_topic: bool,
    pub messages: Seq<Notification>,
    pub timestamp: Option<u64>,
}

/// The yield of the fetch phase: the topic table first (when asked for);
/// if it holds anything the sweep works on that, otherwise on the
/// timestamp rows strictly after the high-water mark, the mark itself
/// standing in when no newer row exists.
pub open spec fn spec_fetch_yield(
    include_topic: bool,
    highest: Option<u64>,
    sd: StorageModel,
) -> SweepYield {
    let topic = if include_topic {
        sd.spec_topic_fetch(TOPIC_FETCH_LIMIT as int)
    } else {
        Seq::empty()
    };
    if topic.len() > 0 {
        SweepYield { include_topic: true, messages: topic, timestamp: spec_max_sortkey(topic) }
    } else {
        let a = match highest {
            Some(h) => h,
            None => 0,
        };
        let msgs = sd.spec_ts_fetch(a, SWEEP_BATCH_LIMIT as int);
        let ts = match spec_max_sortkey(msgs) {
            Some(v) => Some(v),
            None => highest,
        };
        SweepYield { include_topic: false, messages: msgs, timestamp: ts }
    }
}

/// One round of fetching, as the sweep consumes it.
#[derive(Debug)]
pub struct CheckStorageResponse {
    pub include_topic: bool,
    pub messages: Vec<Notification>,
    pub timestamp: Option<u64>,
}

/// Performs the fetch phase of a sweep against the store: the topic table
/// when `include_topic` is set, else the timestamp rows after the
/// high-water mark.
pub fn check_storage(client: &WebPushClient, sd: &StorageModel) -> (resp: CheckStorageResponse)
    ensures
        ({
            let y = spec_fetch_yield(
                client.flags.include_topic,
                client.ack_state.unacked_stored_highest,
                *sd,
            );
            resp.include_topic == y.include_topic && resp.messages@ == y.messages
                && resp.timestamp == y.timestamp
        }),
{
    if client.flags.include_topic {
        let resp = sd.fetch_messages(TOPIC_FETCH_LIMIT);
        if resp.messages.len() > 0 {
            return CheckStorageResponse {
                include_topic: true,
                messages: resp.messages,
                timestamp: resp.timestamp,
            };
        }
    }
    let resp = sd.fetch_timestamp_messages(
        client.ack_state.unacked_stored_highest,
        SWEEP_BATCH_LIMIT,
    );
    let timestamp = match resp.timestamp {
        Some(v) => Some(v),
        None => client.ack_state.unacked_stored_highest,
    };
    CheckStorageResponse { include_topic: false, messages: resp.messages, timestamp }
}

/// The storage keys of the expired messages in `s` that carry no
/// `sortkey_timestamp`: these rows the sweep deletes individually; the
/// rest fall to the high-water commit.
pub open spec fn delete_keys(s: Seq<Notification>, now: u64) -> Set<SortKeyV>
    decreases s.len(),
{
    if s.len() == 0 {
        Set::empty()
    } else {
        let rest = delete_keys(s.drop_last(), now);
        if s.last().spec_expired(now) && s.last().sortkey_timestamp is None {
            rest.insert(s.last().spec_sort_key())
        } else {
            rest
        }
    }
}

/// Every message the fetch phase yields is a topic message or carries a
/// sort key: it came out of one of the store's two tables.
proof fn lemma_yield_msgs_keyed(sd: StorageModel, highest: Option<u64>)
    requires
        sd.wf(),
    ensures
        ({
            let y = spec_fetch_yield(true, highest, sd);
            forall|i: int|
                0 <= i < y.messages.len() ==> (#[trigger] y.messages[i]).topic is Some
                    || y.messages[i].sortkey_timestamp is Some
        }),
{
    let y = spec_fetch_yield(true, highest, sd);
    let topic = sd.spec_topic_fetch(TOPIC_FETCH_LIMIT as int);
    if topic.len() > 0 {
        assert forall|i: int| 0 <= i < y.messages.len() implies (#[trigger] y.messages[i]).topic
            is Some || y.messages[i].sortkey_timestamp is Some by {
            assert(y.messages[i] == sd.topic_rows@[i]);
        }
    } else {
        let a = match highest {
            Some(h) => h,
            None => 0,
        };
        let e = sd.spec_ts_eligible(a);
        lemma_filter_mem(sd.timestamp_rows@, |n: Notification| n.spec_sortkey_val() > a);
        assert forall|i: int| 0 <= i < y.messages.len() implies (#[trigger] y.messages[i]).topic
            is Some || y.messages[i].sortkey_timestamp is Some by {
            assert(y.messages[i] == e[i]);
            let x = choose|x: int|
                0 <= x < sd.timestamp_rows@.len() && sd.timestamp_rows@[x] == e[i];
        }
    }
}

/// Composing a key-set filter with one more key equals filtering by the
/// grown set.
proof fn lemma_filter_key_set(s: Seq<Notification>, ks: Set<SortKeyV>, k: SortKeyV)
    ensures
        s.filter(|r: Notification| !ks.contains(r.spec_sort_key())).filter(
            |r: Notification| r.spec_sort_key() != k,
        ) == s.filter(
            ({
                let ks2 = ks.insert(k);
                |r: Notification| !ks2.contains(r.spec_sort_key())
            }),
        ),
    decreases s.len(),
{
    reveal(Seq::filter);
    let ks2 = ks.insert(k);
    let p1 = |r: Notification| !ks.contains(r.spec_sort_key());
    let p2 = |r: Notification| r.spec_sort_key() != k;
    let p3 = |r: Notification| !ks2.contains(r.spec_sort_key());
    if s.len() == 0 {
        assert(s.filter(p1).filter(p2) =~= s.filter(p3));
    } else {
        let sd = s.drop_last();
        lemma_filter_key_set(sd, ks, k);
        let l = s.last();
        if p1(l) {
            assert(s.filter(p1) == sd.filter(p1).push(l));
            assert(s.filter(p1).drop_last() =~= sd.filter(p1));
            assert(s.filter(p1).last() == l);
            if p2(l) {
                assert(s.filter(p1).filter(p2) == sd.filter(p1).filter(p2).push(l));
            } else {
                assert(s.filter(p1).filter(p2) == sd.filter(p1).filter(p2));
            }
        } else {
            assert(s.filter(p1) == sd.filter(p1));
        }
        if p3(l) {
            assert(s.filter(p3) == sd.filter(p3).push(l));
        } else {
            assert(s.filter(p3) == sd.filter(p3));
        }
    }
}

/// Removes the expired messages from `msgs`; an expired message without a
/// sort key has its row deleted from the store, one with a sort key is
/// left to the high-water commit.
fn filter_expired(sd: &mut StorageModel, msgs: &Vec<Notification>, now: u64) -> (kept: Vec<
    Notification,
>)
    requires
        old(sd).wf(),
    ensures
        final(sd).wf(),
        kept@ == msgs@.filter(|r: Notification| !r.spec_expired(now)),
        ({
            let ks = delete_keys(msgs@, now);
            final(sd).topic_rows@ == old(sd).topic_rows@.filter(
                |r: Notification| !ks.contains(r.spec_sort_key()),
            ) && final(sd).timestamp_rows@ == old(sd).timestamp_rows@.filter(
                |r: Notification| !ks.contains(r.spec_sort_key()),
            )
        }),
        final(sd).high_water == old(sd).high_water,
        final(sd).store_log == old(sd).store_log,
{
    let ghost sd0 = *sd;
    proof {
        reveal(Seq::filter);
        assert(msgs@.take(0) =~= Seq::<Notification>::empty());
        let ks = delete_keys(msgs@.take(0), now);
        assert(ks =~= Set::<SortKeyV>::empty());
        crate::storage::lemma_filter_all(
            sd0.topic_rows@,
            |r: Notification| !ks.contains(r.spec_sort_key()),
        );
        crate::storage::lemma_filter_all(
            sd0.timestamp_rows@,
            |r: Notification| !ks.contains(r.spec_sort_key()),
        );
        assert(msgs@.take(0).filter(|r: Notification| !r.spec_expired(now))
            =~= Seq::<Notification>::empty());
    }
    let mut kept: Vec<Notification> = Vec::new();
    let mut i: usize = 0;
    while i < msgs.len()
        invariant
            i <= msgs.len(),
            sd.wf(),
            sd.high_water == sd0.high_water,
            sd.store_log == sd0.store_log,
            kept@ == msgs@.take(i as int).filter(|r: Notification| !r.spec_expired(now)),
            ({
                let ks = delete_keys(msgs@.take(i as int), now);
                sd.topic_rows@ == sd0.topic_rows@.filter(
                    |r: Notification| !ks.contains(r.spec_sort_key()),
                ) && sd.timestamp_rows@ == sd0.timestamp_rows@.filter(
                    |r: Notification| !ks.contains(r.spec_sort_key()),
                )
            }),
        decreases msgs.len() - i,
    {
        let ghost ks = delete_keys(msgs@.take(i as int), now);
        proof {
            reveal(Seq::filter);
            assert(msgs@.take(i + 1).drop_last() =~= msgs@.take(i as int));
            assert(msgs@.take(i + 1).last() == msgs@[i as int]);
            if !msgs@[i as int].spec_expired(now) {
                assert(msgs@.take(i + 1).filter(|r: Notification| !r.spec_expired(now))
                    == msgs@.take(i as int).filter(|r: Notification| !r.spec_expired(now)).push(
                    msgs@[i as int],
                ));
            } else {
                assert(msgs@.take(i + 1).filter(|r: Notification| !r.spec_expired(now))
                    == msgs@.take(i as int).filter(|r: Notification| !r.spec_expired(now)));
            }
        }
        let n = &msgs[i];
        if n.expired(now) {
            if n.sortkey_timestamp.is_none() {
                let key = n.sort_key();
                sd.remove_message(&key);
                proof {
                    lemma_filter_key_set(sd0.topic_rows@, ks, key@);
                    lemma_filter_key_set(sd0.timestamp_rows@, ks, key@);
                    assert(delete_keys(msgs@.take(i + 1), now) == ks.insert(
                        msgs@[i as int].spec_sort_key(),
                    ));
                }
            } else {
                proof {
                    assert(delete_keys(msgs@.take(i + 1), now) == ks);
                }
            }
        } else {
            kept.push(n.clone());
            proof {
                assert(delete_keys(msgs@.take(i + 1), now) == ks);
            }
        }
        i += 1;
    }
    proof {
        assert(msgs@.take(msgs@.len() as int) =~= msgs@);
    }
    kept
}

/// The full relation of one storage sweep: what the fetch phase yields,
/// which expired rows are deleted, how the flags, the high-water mark, the
/// unacked queue and the counter move, and what is emitted. A sweep that
/// yields nothing ends the check-storage flow; one that crosses the
/// message quota drops the user's stored queue and terminates the
/// connection.
pub open spec fn sweep_post(
    pre: WebPushClient,
    sd0: StorageModel,
    post: WebPushClient,
    sd1: StorageModel,
    now: u64,
    r: Result<Vec<ServerMessage>, SMError>,
) -> bool {
    let y = spec_fetch_yield(true, pre.ack_state.unacked_stored_highest, sd0);
    let kept = y.messages.filter(|r: Notification| !r.spec_expired(now));
    let ks = delete_keys(y.messages, now);
    let blen = if kept.len() <= SWEEP_BATCH_LIMIT as int {
        kept.len() as int
    } else {
        SWEEP_BATCH_LIMIT as int
    };
    let batch = kept.take(blen);
    &&& post.uaid == pre.uaid
    &&& post.connected_at == pre.connected_at
    &&& post.msg_limit == pre.msg_limit
    &&& post.ack_state.unacked_direct_notifs@ == pre.ack_state.unacked_direct_notifs@
    &&& post.flags.include_topic == y.include_topic
    &&& post.ack_state.unacked_stored_highest == y.timestamp
    &&& if y.messages.len() == 0 {
        &&& post.flags.check_storage == false
        &&& post.flags.increment_storage == pre.flags.increment_storage
        &&& post.sent_from_storage == 0
        &&& post.ack_state.unacked_stored_notifs@ == pre.ack_state.unacked_stored_notifs@
        &&& sd1 == sd0
        &&& (r matches Ok(v) && v@.len() == 0)
    } else {
        &&& post.flags.check_storage == true
        &&& post.flags.increment_storage == (!y.include_topic && y.timestamp is Some)
        &&& sd1.high_water == sd0.high_water
        &&& sd1.store_log == sd0.store_log
        &&& if kept.len() == 0 {
            &&& sd1.topic_rows@ == sd0.topic_rows@.filter(
                |row: Notification| !ks.contains(row.spec_sort_key()),
            )
            &&& sd1.timestamp_rows@ == sd0.timestamp_rows@.filter(
                |row: Notification| !ks.contains(row.spec_sort_key()),
            )
            &&& post.sent_from_storage == pre.sent_from_storage
            &&& post.ack_state.unacked_stored_notifs@ == pre.ack_state.unacked_stored_notifs@
            &&& (r matches Ok(v) && v@.len() == 0)
        } else if pre.sent_from_storage + blen > pre.msg_limit {
            &&& sd1.topic_rows@.len() == 0
            &&& sd1.timestamp_rows@.len() == 0
            &&& post.sent_from_storage == pre.sent_from_storage
            &&& post.ack_state.unacked_stored_notifs@ == pre.ack_state.unacked_stored_notifs@
            &&& r == Err::<Vec<ServerMessage>, SMError>(SMError::MessageLimitExceeded)
        } else {
            &&& sd1.topic_rows@ == sd0.topic_rows@.filter(
                |row: Notification| !ks.contains(row.spec_sort_key()),
            )
            &&& sd1.timestamp_rows@ == sd0.timestamp_rows@.filter(
                |row: Notification| !ks.contains(row.spec_sort_key()),
            )
            &&& post.ack_state.unacked_stored_notifs@ == pre.ack_state.unacked_stored_notifs@
                + batch
            &&& post.sent_from_storage as int == pre.sent_from_storage as int + blen
            &&& (r matches Ok(v) && v@.len() == batch.len() && forall|i: int|
                0 <= i < batch.len() ==> v@[i] == ServerMessage::Notification(batch[i]))
        }
    }
}

/// The effect of one direct delivery on the session: the notification is
/// queued as unacked unless it is direct-only (`ttl == 0`); nothing else
/// moves. A direct-only notification is therefore never queued and, having
/// never been queued, never reaches the store.
pub open spec fn direct_post(pre: WebPushClient, post: WebPushClient, n: Notification) -> bool {
    &&& post.ack_state.unacked_direct_notifs@ == if n.ttl != 0 {
        pre.ack_state.unacked_direct_notifs@.push(n)
    } else {
        pre.ack_state.unacked_direct_notifs@
    }
    &&& post.ack_state.unacked_stored_notifs@ == pre.ack_state.unacked_stored_notifs@
    &&& post.ack_state.unacked_stored_highest == pre.ack_state.unacked_stored_highest
    &&& post.flags == pre.flags
    &&& post.sent_from_storage == pre.sent_from_storage
    &&& post.uaid == pre.uaid
    &&& post.connected_at == pre.connected_at
    &&& post.msg_limit == pre.msg_limit
}

/// Whether `n` is the notification named by an ack entry.
pub open spec fn notif_matches(n: Notification, ch: Seq<char>, v: Seq<char>) -> bool {
    n.channel_id@ == ch && n.version@ == v
}

/// Whether some element of `s` matches `(ch, v)`.
pub open spec fn has_match(s: Seq<Notification>, ch: Seq<char>, v: Seq<char>) -> bool
    decreases s.len(),
{
    if s.len() == 0 {
        false
    } else {
        notif_matches(s[0], ch, v) || has_match(s.drop_first(), ch, v)
    }
}

/// Index of the first element of `s` matching `(ch, v)`; `s.len()` when
/// none does.
pub open spec fn first_match_idx(s: Seq<Notification>, ch: Seq<char>, v: Seq<char>) -> int
    decreases s.len(),
{
    if s.len() == 0 {
        0
    } else if notif_matches(s[0], ch, v) {
        0
    } else {
        1 + first_match_idx(s.drop_first(), ch, v)
    }
}

/// `s` with its first `(ch, v)` match removed; `s` itself when none
/// matches.
pub open spec fn remove_first(s: Seq<Notification>, ch: Seq<char>, v: Seq<char>) -> Seq<
    Notification,
>
    decreases s.len(),
{
    if s.len() == 0 {
        s
    } else if notif_matches(s[0], ch, v) {
        s.drop_first()
    } else {
        seq![s[0]] + remove_first(s.drop_first(), ch, v)
    }
}

/// A scan that finds the first match at `i` agrees with the recursive
/// description of removal.
proof fn lemma_remove_first_at(s: Seq<Notification>, ch: Seq<char>, v: Seq<char>, i: int)
    requires
        0 <= i < s.len(),
        notif_matches(s[i], ch, v),
        forall|j: int| 0 <= j < i ==> !notif_matches(#[trigger] s[j], ch, v),
    ensures
        has_match(s, ch, v),
        first_match_idx(s, ch, v) == i,
        remove_first(s, ch, v) == s.take(i) + s.skip(i + 1),
    decreases i,
{
    if i == 0 {
        assert(remove_first(s, ch, v) == s.drop_first());
        assert(s.drop_first() =~= s.take(0) + s.skip(1));
    } else {
        let d = s.drop_first();
        assert forall|j: int| 0 <= j < i - 1 implies !notif_matches(#[trigger] d[j], ch, v) by {
            assert(d[j] == s[j + 1]);
        }
        assert(d[i - 1] == s[i]);
        lemma_remove_first_at(d, ch, v, i - 1);
        assert(seq![s[0]] + (d.take(i - 1) + d.skip(i)) =~= s.take(i) + s.skip(i + 1));
    }
}

/// When nothing in `s` matches, removal changes nothing.
proof fn lemma_remove_first_none(s: Seq<Notification>, ch: Seq<char>, v: Seq<char>)
    requires
        forall|j: int| 0 <= j < s.len() ==> !notif_matches(#[trigger] s[j], ch, v),
    ensures
        !has_match(s, ch, v),
        remove_first(s, ch, v) == s,
    decreases s.len(),
{
    if s.len() > 0 {
        let d = s.drop_first();
        assert forall|j: int| 0 <= j < d.len() implies !notif_matches(#[trigger] d[j], ch, v) by {
            assert(d[j] == s[j + 1]);
        }
        lemma_remove_first_none(d, ch, v);
        assert(seq![s[0]] + d =~= s);
    }
}

/// Finds the first notification in `s` acked by `(channel_id, version)`.
fn find_match(s: &Vec<Notification>, channel_id: &String, version: &String) -> (r: Option<usize>)
    ensures
        (r matches Some(i) ==> i < s@.len() && notif_matches(s@[i as int], channel_id@, version@)
            && (forall|j: int|
            0 <= j < i ==> !notif_matches(#[trigger] s@[j], channel_id@, version@))),
        (r is None ==> forall|j: int|
            0 <= j < s@.len() ==> !notif_matches(#[trigger] s@[j], channel_id@, version@)),
{
    let mut i: usize = 0;
    while i < s.len()
        invariant
            i <= s.len(),
            forall|j: int| 0 <= j < i ==> !notif_matches(#[trigger] s@[j], channel_id@, version@),
        decreases s.len() - i,
    {
        let n = &s[i];
        if n.channel_id == *channel_id && n.version == *version {
            return Some(i);
        }
        i += 1;
    }
    None
}

/// One session's view of everything an ack can touch: the two unacked
/// queues and the user's stored rows.
pub struct AckSnap {
    pub direct: Seq<Notification>,
    pub stored: Seq<Notification>,
    pub topic_rows: Seq<Notification>,
    pub ts_rows: Seq<Notification>,
}

/// The effect of acking `(ch, v)` once: the first match leaves the direct
/// queue, else the first match leaves the stored queue and its row leaves
/// the store; with no match nothing moves.
pub open spec fn ack_step_snap(s: AckSnap, ch: Seq<char>, v: Seq<char>) -> AckSnap {
    if has_match(s.direct, ch, v) {
        AckSnap { direct: remove_first(s.direct, ch, v), ..s }
    } else if has_match(s.stored, ch, v) {
        let n = s.stored[first_match_idx(s.stored, ch, v)];
        let k = n.spec_sort_key();
        AckSnap {
            stored: remove_first(s.stored, ch, v),
            topic_rows: s.topic_rows.filter(|r: Notification| r.spec_sort_key() != k),
            ts_rows: s.ts_rows.filter(|r: Notification| r.spec_sort_key() != k),
            ..s
        }
    } else {
        s
    }
}

/// `ack_step_snap` folded over a batch of ack entries, first entry first.
pub open spec fn ack_fold(s: AckSnap, ups: Seq<AckEntry>) -> AckSnap
    decreases ups.len(),
{
    if ups.len() == 0 {
        s
    } else {
        ack_fold(ack_step_snap(s, ups[0].channel_id@, ups[0].version@), ups.drop_first())
    }
}

/// Folding one more entry equals stepping the fold.
proof fn lemma_ack_fold_snoc(s: AckSnap, a: Seq<AckEntry>, x: AckEntry)
    ensures
        ack_fold(s, a.push(x)) == ack_step_snap(ack_fold(s, a), x.channel_id@, x.version@),
    decreases a.len(),
{
    let a2 = a.push(x);
    if a.len() == 0 {
        assert(a2.drop_first() =~= Seq::<AckEntry>::empty());
        assert(a2[0] == x);
        assert(ack_fold(s, a2) == ack_fold(
            ack_step_snap(s, a2[0].channel_id@, a2[0].version@),
            a2.drop_first(),
        ));
        assert(ack_fold(ack_step_snap(s, x.channel_id@, x.version@), a2.drop_first())
            == ack_step_snap(s, x.channel_id@, x.version@));
        assert(ack_fold(s, a) == s);
    } else {
        assert(a2[0] == a[0]);
        assert(a2.drop_first() =~= a.drop_first().push(x));
        assert(ack_fold(s, a2) == ack_fold(
            ack_step_snap(s, a2[0].channel_id@, a2[0].version@),
            a2.drop_first(),
        ));
        lemma_ack_fold_snoc(ack_step_snap(s, a[0].channel_id@, a[0].version@), a.drop_first(), x);
        assert(ack_fold(s, a) == ack_fold(
            ack_step_snap(s, a[0].channel_id@, a[0].version@),
            a.drop_first(),
        ));
    }
}

/// The session/store snapshot the ack logic works on.
pub open spec fn snap_of(c: WebPushClient, sd: StorageModel) -> AckSnap {
    AckSnap {
        direct: c.ack_state.unacked_direct_notifs@,
        stored: c.ack_state.unacked_stored_notifs@,
        topic_rows: sd.topic_rows@,
        ts_rows: sd.timestamp_rows@,
    }
}

/// What one ack entry does to the session and the store, leaving all
/// other session state alone.
pub open spec fn ack_one_post(
    pre: WebPushClient,
    sd0: StorageModel,
    post: WebPushClient,
    sd1: StorageModel,
    ch: Seq<char>,
    v: Seq<char>,
) -> bool {
    &&& snap_of(post, sd1) == ack_step_snap(snap_of(pre, sd0), ch, v)
    &&& sd1.high_water == sd0.high_water
    &&& sd1.store_log == sd0.store_log
    &&& post.flags == pre.flags
    &&& post.ack_state.unacked_stored_highest == pre.ack_state.unacked_stored_highest
    &&& post.sent_from_storage == pre.sent_from_storage
    &&& post.uaid == pre.uaid
    &&& post.connected_at == pre.connected_at
    &&& post.msg_limit == pre.msg_limit
}

/// A batch of ack entries applied in order, with all other session state
/// untouched.
pub open spec fn ack_batch_post(
    pre: WebPushClient,
    sd0: StorageModel,
    post: WebPushClient,
    sd1: StorageModel,
    ups: Seq<AckEntry>,
) -> bool {
    &&& snap_of(post, sd1) == ack_fold(snap_of(pre, sd0), ups)
    &&& sd1.high_water == sd0.high_water
    &&& sd1.store_log == sd0.store_log
    &&& post.flags == pre.flags
    &&& post.ack_state.unacked_stored_highest == pre.ack_state.unacked_stored_highest
    &&& post.sent_from_storage == pre.sent_from_storage
    &&& post.uaid == pre.uaid
    &&& post.connected_at == pre.connected_at
    &&& post.msg_limit == pre.msg_limit
}

/// The conditional high-water commit after an ack batch: it happens
/// exactly when the commit flag is set and a mark exists.
pub open spec fn commit_step_post(
    pre: WebPushClient,
    sd0: StorageModel,
    post: WebPushClient,
    sd1: StorageModel,
) -> bool {
    if pre.flags.increment_storage && pre.ack_state.unacked_stored_highest is Some {
        match pre.ack_state.unacked_stored_highest {
            Some(t) => commit_post(pre, sd0, post, sd1, t),
            None => false,
        }
    } else {
        post == pre && sd1 == sd0
    }
}

/// The effect of committing mark `t`: the stored mark rises to `t` but
/// never falls, the commit flag clears, and nothing else moves.
pub open spec fn commit_post(
    pre: WebPushClient,
    sd0: StorageModel,
    post: WebPushClient,
    sd1: StorageModel,
    t: u64,
) -> bool {
    &&& sd1.high_water == Some(
        match sd0.high_water {
            Some(h) => if h > t {
                h
            } else {
                t
            },
            None => t,
        },
    )
    &&& sd1.topic_rows@ == sd0.topic_rows@
    &&& sd1.timestamp_rows@ == sd0.timestamp_rows@
    &&& sd1.store_log == sd0.store_log
    &&& post.flags.increment_storage == false
    &&& post.flags.include_topic == pre.flags.include_topic
    &&& post.flags.check_storage == pre.flags.check_storage
    &&& post.ack_state.unacked_direct_notifs@ == pre.ack_state.unacked_direct_notifs@
    &&& post.ack_state.unacked_stored_notifs@ == pre.ack_state.unacked_stored_notifs@
    &&& post.ack_state.unacked_stored_highest == pre.ack_state.unacked_stored_highest
    &&& post.sent_from_storage == pre.sent_from_storage
    &&& post.uaid == pre.uaid
    &&& post.connected_at == pre.connected_at
    &&& post.msg_limit == pre.msg_limit
}

impl WebPushClient {
    /// One storage sweep: fetch, expire, update flags and the high-water
    /// mark, then emit the batch, enforcing the stored-message quota.
    pub fn check_storage(&mut self, sd: &mut StorageModel, now: u64) -> (r: Result<
        Vec<ServerMessage>,
        SMError,
    >)
        requires
            old(self).wf(),
            old(sd).wf(),
        ensures
            final(self).wf(),
            final(sd).wf(),
            sweep_post(*old(self), *old(sd), *final(self), *final(sd), now, r),
    {
        self.flags.include_topic = true;
        self.flags.check_storage = true;
        let resp = check_storage(&*self, &*sd);
        let ghost y = spec_fetch_yield(true, old(self).ack_state.unacked_stored_highest, *old(sd));
        self.flags.include_topic = resp.include_topic;
        self.ack_state.unacked_stored_highest = resp.timestamp;
        if resp.messages.len() == 0 {
            self.flags.check_storage = false;
            self.sent_from_storage = 0;
            return Ok(Vec::new());
        }
        let kept = filter_expired(sd, &resp.messages, now);
        self.flags.increment_storage = !resp.include_topic && resp.timestamp.is_some();
        if kept.len() == 0 {
            return Ok(Vec::new());
        }
        let mut batch = kept;
        batch.truncate(SWEEP_BATCH_LIMIT);
        let blen = batch.len();
        proof {
            let keptv = y.messages.filter(|r: Notification| !r.spec_expired(now));
            let bl = if keptv.len() <= SWEEP_BATCH_LIMIT as int {
                keptv.len() as int
            } else {
                SWEEP_BATCH_LIMIT as int
            };
            assert(batch@ =~= keptv.take(bl));
        }
        if (self.sent_from_storage as u64) + (blen as u64) > (self.msg_limit as u64) {
            sd.drop_queue();
            return Err(SMError::MessageLimitExceeded);
        }
        let ghost pre_stored = self.ack_state.unacked_stored_notifs@;
        let mut add: Vec<Notification> = Vec::new();
        let mut out: Vec<ServerMessage> = Vec::new();
        let mut i: usize = 0;
        while i < batch.len()
            invariant
                i <= batch.len(),
                add@ == batch@.take(i as int),
                out@.len() == i,
                forall|j: int|
                    0 <= j < i ==> out@[j] == ServerMessage::Notification(batch@[j]),
            decreases batch.len() - i,
        {
            add.push(batch[i].clone());
            out.push(ServerMessage::Notification(batch[i].clone()));
            proof {
                assert(add@ =~= batch@.take(i + 1));
            }
            i += 1;
        }
        proof {
            assert(batch@.take(batch@.len() as int) =~= batch@);
        }
        self.ack_state.unacked_stored_notifs.append(&mut add);
        self.sent_from_storage = self.sent_from_storage + (blen as u32);
        proof {
            let keptv = y.messages.filter(|r: Notification| !r.spec_expired(now));
            lemma_yield_msgs_keyed(*old(sd), old(self).ack_state.unacked_stored_highest);
            lemma_filter_mem(y.messages, |r: Notification| !r.spec_expired(now));
            assert forall|j: int| 0 <= j < batch@.len() implies (#[trigger] batch@[j]).topic
                is Some || batch@[j].sortkey_timestamp is Some by {
                assert(batch@[j] == keptv[j]);
                let x = choose|x: int| 0 <= x < y.messages.len() && y.messages[x] == keptv[j];
            }
        }
        Ok(out)
    }

    /// Direct delivery: queue the notification as unacked unless it is
    /// direct-only, and emit exactly one outbound frame. No storage read.
    pub fn notif(&mut self, n: Notification) -> (sm: ServerMessage)
        requires
            old(self).wf(),
        ensures
            final(self).wf(),
            direct_post(*old(self), *final(self), n),
            sm == ServerMessage::Notification(n),
    {
        if n.ttl != 0 {
            self.ack_state.unacked_direct_notifs.push(n.clone());
        }
        ServerMessage::Notification(n)
    }

    /// Dispatches one server signal: a sweep request runs a sweep, a
    /// notification is delivered directly, a disconnect surfaces as the
    /// ghost error and the session terminates cleanly.
    pub fn on_server_notif(
        &mut self,
        sd: &mut StorageModel,
        snotif: ServerNotification,
        now: u64,
    ) -> (r: Result<Vec<ServerMessage>, SMError>)
        requires
            old(self).wf(),
            old(sd).wf(),
        ensures
            final(self).wf(),
            final(sd).wf(),
            (snotif matches ServerNotification::CheckStorage ==> sweep_post(
                *old(self),
                *old(sd),
                *final(self),
                *final(sd),
                now,
                r,
            )),
            (snotif matches ServerNotification::Notification(n) ==> *final(sd) == *old(sd)
                && direct_post(*old(self), *final(self), n) && (r matches Ok(v) && v@.len() == 1
                && v@[0] == ServerMessage::Notification(n))),
            (snotif matches ServerNotification::Disconnect ==> *final(self) == *old(self)
                && *final(sd) == *old(sd) && r == Err::<Vec<ServerMessage>, SMError>(
                SMError::GhostDisconnect,
            )),
    {
        match snotif {
            ServerNotification::CheckStorage => self.check_storage(sd, now),
            ServerNotification::Notification(n) => {
                let sm = self.notif(n);
                let mut v: Vec<ServerMessage> = Vec::new();
                v.push(sm);
                Ok(v)
            },
            ServerNotification::Disconnect => Err(SMError::GhostDisconnect),
        }
    }

    /// A signal arriving while the session drains: a notification is
    /// queued for the shutdown flush (unless direct-only, which is never
    /// persisted); sweep requests and disconnects are ignored.
    pub fn on_server_notif_shutdown(&mut self, snotif: ServerNotification)
        requires
            old(self).wf(),
        ensures
            final(self).wf(),
            (snotif matches ServerNotification::Notification(n) ==> direct_post(
                *old(self),
                *final(self),
                n,
            )),
            (!(snotif matches ServerNotification::Notification(_)) ==> *final(self) == *old(self)),
    {
        if let ServerNotification::Notification(n) = snotif {
            if n.ttl != 0 {
                self.ack_state.unacked_direct_notifs.push(n);
            }
        }
    }

    /// Commits the unacked high-water mark to the store and clears the
    /// commit flag; with no mark set this is an internal invariant
    /// violation and the connection closes.
    pub fn increment_storage(&mut self, sd: &mut StorageModel) -> (r: Result<(), SMError>)
        requires
            old(self).wf(),
            old(sd).wf(),
        ensures
            final(self).wf(),
            final(sd).wf(),
            (old(self).ack_state.unacked_stored_highest is None ==> (r matches Err(e)
                && e matches SMError::Internal(_)) && *final(self) == *old(self) && *final(sd)
                == *old(sd)),
            (old(self).ack_state.unacked_stored_highest matches Some(t) ==> r == Ok::<
                (),
                SMError,
            >(()) && commit_post(*old(self), *old(sd), *final(self), *final(sd), t)),
    {
        let timestamp = match self.ack_state.unacked_stored_highest {
            Some(t) => t,
            None => {
                return Err(SMError::Internal(String::from_str("unacked_stored_highest unset")));
            },
        };
        sd.increment_storage(timestamp);
        self.flags.increment_storage = false;
        Ok(())
    }

    /// Acknowledges one `(channel_id, version)`: the first match leaves
    /// the direct queue; failing that, the first match leaves the stored
    /// queue and its row is deleted from the store; otherwise nothing
    /// happens.
    pub fn ack_one(&mut self, sd: &mut StorageModel, channel_id: &String, version: &String)
        requires
            old(self).wf(),
            old(sd).wf(),
        ensures
            final(self).wf(),
            final(sd).wf(),
            ack_one_post(*old(self), *old(sd), *final(self), *final(sd), channel_id@, version@),
    {
        let ghost d0 = self.ack_state.unacked_direct_notifs@;
        let ghost s0 = self.ack_state.unacked_stored_notifs@;
        let di = find_match(&self.ack_state.unacked_direct_notifs, channel_id, version);
        match di {
            Some(i) => {
                let _removed = self.ack_state.unacked_direct_notifs.remove(i);
                proof {
                    lemma_remove_first_at(d0, channel_id@, version@, i as int);
                    assert(self.ack_state.unacked_direct_notifs@ =~= d0.take(i as int) + d0.skip(
                        i + 1,
                    ));
                }
            },
            None => {
                let si = find_match(&self.ack_state.unacked_stored_notifs, channel_id, version);
                match si {
                    Some(i) => {
                        let n = self.ack_state.unacked_stored_notifs.remove(i);
                        let key = n.sort_key();
                        sd.remove_message(&key);
                        proof {
                            lemma_remove_first_none(d0, channel_id@, version@);
                            lemma_remove_first_at(s0, channel_id@, version@, i as int);
                            assert(self.ack_state.unacked_stored_notifs@ =~= s0.take(i as int)
                                + s0.skip(i + 1));
                            assert(n == s0[first_match_idx(s0, channel_id@, version@)]);
                        }
                    },
                    None => {
                        proof {
                            lemma_remove_first_none(d0, channel_id@, version@);
                            lemma_remove_first_none(s0, channel_id@, version@);
                        }
                    },
                }
            },
        }
    }

    /// Processes a client ack frame: each entry is acked in order; then,
    /// if the commit flag is set and a mark exists, the mark is committed;
    /// then, if both unacked queues are empty and a sweep is pending,
    /// another sweep runs and its batch is emitted. The commit always
    /// precedes the follow-on sweep.
    pub fn ack(&mut self, sd: &mut StorageModel, updates: &Vec<AckEntry>, now: u64) -> (r: Result<
        Vec<ServerMessage>,
        SMError,
    >)
        requires
            old(self).wf(),
            old(sd).wf(),
        ensures
            final(self).wf(),
            final(sd).wf(),
            exists|m1: WebPushClient, s1: StorageModel, m2: WebPushClient, s2: StorageModel|
                #![auto]
                {
                    &&& ack_batch_post(*old(self), *old(sd), m1, s1, updates@)
                    &&& commit_step_post(m1, s1, m2, s2)
                    &&& if m2.ack_state.unacked_direct_notifs@.len() == 0
                        && m2.ack_state.unacked_stored_notifs@.len() == 0
                        && m2.flags.check_storage {
                        sweep_post(m2, s2, *final(self), *final(sd), now, r)
                    } else {
                        *final(self) == m2 && *final(sd) == s2 && (r matches Ok(v) && v@.len()
                            == 0)
                    }
                },
    {
        let ghost pre = *old(self);
        let ghost sd_pre = *old(sd);
        let ghost snap0 = snap_of(pre, sd_pre);
        let mut t: usize = 0;
        while t < updates.len()
            invariant
                t <= updates.len(),
                self.wf(),
                sd.wf(),
                snap_of(*self, *sd) == ack_fold(snap0, updates@.take(t as int)),
                sd.high_water == sd_pre.high_water,
                sd.store_log == sd_pre.store_log,
                self.flags == pre.flags,
                self.ack_state.unacked_stored_highest == pre.ack_state.unacked_stored_highest,
                self.sent_from_storage == pre.sent_from_storage,
                self.uaid == pre.uaid,
                self.connected_at == pre.connected_at,
                self.msg_limit == pre.msg_limit,
            decreases updates.len() - t,
        {
            proof {
                assert(updates@.take(t as int).push(updates@[t as int]) =~= updates@.take(t + 1));
                lemma_ack_fold_snoc(snap0, updates@.take(t as int), updates@[t as int]);
            }
            let e = &updates[t];
            self.ack_one(sd, &e.channel_id, &e.version);
            t += 1;
        }
        proof {
            assert(updates@.take(updates@.len() as int) =~= updates@);
        }
        let ghost m1 = *self;
        let ghost s1 = *sd;
        if self.flags.increment_storage && self.ack_state.unacked_stored_highest.is_some() {
            let _ = self.increment_storage(sd);
        }
        let ghost m2 = *self;
        let ghost s2 = *sd;
        proof {
            assert(ack_batch_post(pre, sd_pre, m1, s1, updates@));
            assert(commit_step_post(m1, s1, m2, s2));
        }
        if self.ack_state.unacked_direct_notifs.len() == 0
            && self.ack_state.unacked_stored_notifs.len() == 0 && self.flags.check_storage {
            self.check_storage(sd, now)
        } else {
            let v: Vec<ServerMessage> = Vec::new();
            Ok(v)
        }
    }

    /// Clean shutdown: every unacked direct notification that may be
    /// persisted (`ttl != 0`) is presented to the store, and the queue is
    /// emptied. Direct notifications carry no sort key yet; the store
    /// assigns one as it persists them.
    pub fn shutdown(&mut self, sd: &mut StorageModel)
        requires
            old(self).wf(),
            old(sd).wf(),
            forall|i: int|
                0 <= i < old(self).ack_state.unacked_direct_notifs@.len() ==> (#[trigger] old(self).ack_state.unacked_direct_notifs@[i]).sortkey_timestamp is None,
            old(sd).spec_key_ceiling() as int + old(self).ack_state.unacked_direct_notifs@.len()
                <= u64::MAX as int,
        ensures
            final(self).wf(),
            final(sd).wf(),
            final(self).ack_state.unacked_direct_notifs@.len() == 0,
            forall|i: int|
                0 <= i < old(self).ack_state.unacked_direct_notifs@.len() && (#[trigger] old(self).ack_state.unacked_direct_notifs@[i]).ttl != 0 ==> final(sd).store_log@.contains(old(self).ack_state.unacked_direct_notifs@[i]),
            final(sd).high_water == old(sd).high_water,
            final(self).ack_state.unacked_stored_notifs@ == old(self).ack_state.unacked_stored_notifs@,
            final(self).flags == old(self).flags,
    {
        let ghost d0 = self.ack_state.unacked_direct_notifs@;
        let ghost ceil0 = sd.spec_key_ceiling();
        let ghost hw0 = sd.high_water;
        let mut i: usize = 0;
        while i < self.ack_state.unacked_direct_notifs.len()
            invariant
                i <= self.ack_state.unacked_direct_notifs.len(),
                self.ack_state.unacked_direct_notifs@ == d0,
                forall|j: int|
                    0 <= j < d0.len() ==> (#[trigger] d0[j]).sortkey_timestamp is None,
                ceil0 as int + d0.len() <= u64::MAX as int,
                sd.wf(),
                sd.high_water == hw0,
                sd.spec_key_ceiling() as int <= ceil0 as int + i,
                forall|j: int|
                    0 <= j < i && (#[trigger] d0[j]).ttl != 0 ==> sd.store_log@.contains(d0[j]),
                self.wf(),
                self.ack_state.unacked_stored_notifs@ == old(self).ack_state.unacked_stored_notifs@,
                self.flags == old(self).flags,
            decreases self.ack_state.unacked_direct_notifs.len() - i,
        {
            let ghost logpre = sd.store_log@;
            let n = &self.ack_state.unacked_direct_notifs[i];
            let nonzero = n.ttl != 0;
            if nonzero {
                let c = n.clone();
                sd.store_message(c);
            }
            proof {
                if nonzero {
                    assert(sd.store_log@ == logpre.push(d0[i as int]));
                    assert(sd.store_log@[logpre.len() as int] == d0[i as int]);
                }
                assert forall|j: int| 0 <= j < i + 1 && (#[trigger] d0[j]).ttl != 0 implies sd
                    .store_log@.contains(d0[j]) by {
                    if j < i {
                        let li = choose|li: int|
                            0 <= li < logpre.len() && logpre[li] == d0[j];
                        assert(sd.store_log@[li] == d0[j]);
                    } else {
                        assert(sd.store_log@[logpre.len() as int] == d0[j]);
                    }
                }
            }
            i += 1;
        }
        self.ack_state.unacked_direct_notifs.clear();
    }
}

} // verus!
