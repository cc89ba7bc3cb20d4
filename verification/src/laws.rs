//! Laws of the core, stated and proved against the contracts of the state
//! machine, the router and the storage model.

use vstd::prelude::*;
use vstd::seq_lib::*;

use crate::client::{
    ack_fold, ack_step_snap, delete_keys, has_match, notif_matches, remove_first,
    spec_fetch_yield, sweep_post, AckSnap, WebPushClient, SWEEP_BATCH_LIMIT, TOPIC_FETCH_LIMIT,
};
use crate::protocol::AckEntry;
use crate::storage::StorageModel;
use crate::notification::{Notification, SortKeyV};
use crate::protocol::{SMError, ServerMessage};
use crate::storage::{lemma_filter_all, spec_max_sortkey};

verus! {

/// How many elements of `s` an ack of `(ch, v)` could name.
pub open spec fn count_matches(s: Seq<Notification>, ch: Seq<char>, v: Seq<char>) -> int
    decreases s.len(),
{
    if s.len() == 0 {
        0
    } else {
        count_matches(s.drop_first(), ch, v) + if notif_matches(s[0], ch, v) {
            1int
        } else {
            0int
        }
    }
}

/// A sequence has a match exactly when it has a positive match count.
proof fn lemma_count_has(s: Seq<Notification>, ch: Seq<char>, v: Seq<char>)
    ensures
        count_matches(s, ch, v) >= 0,
        has_match(s, ch, v) <==> count_matches(s, ch, v) > 0,
    decreases s.len(),
{
    if s.len() > 0 {
        lemma_count_has(s.drop_first(), ch, v);
    }
}

/// Removing the first match lowers the match count by one.
proof fn lemma_remove_first_count(s: Seq<Notification>, ch: Seq<char>, v: Seq<char>)
    requires
        has_match(s, ch, v),
    ensures
        count_matches(remove_first(s, ch, v), ch, v) == count_matches(s, ch, v) - 1,
    decreases s.len(),
{
    lemma_count_has(s, ch, v);
    if notif_matches(s[0], ch, v) {
        assert(remove_first(s, ch, v) == s.drop_first());
    } else {
        lemma_remove_first_count(s.drop_first(), ch, v);
        let rest = remove_first(s.drop_first(), ch, v);
        let whole = seq![s[0]] + rest;
        assert(whole[0] == s[0]);
        assert(whole.drop_first() =~= rest);
    }
}

/// A count of zero means removal changes nothing.
proof fn lemma_zero_count_stable(s: Seq<Notification>, ch: Seq<char>, v: Seq<char>)
    requires
        count_matches(s, ch, v) == 0,
    ensures
        !has_match(s, ch, v),
        remove_first(s, ch, v) == s,
    decreases s.len(),
{
    lemma_count_has(s, ch, v);
    if s.len() > 0 {
        lemma_count_has(s.drop_first(), ch, v);
        lemma_zero_count_stable(s.drop_first(), ch, v);
        assert(seq![s[0]] + s.drop_first() =~= s);
    }
}

/// Ack idempotence: when at most one queued notification carries
/// `(ch, v)`, acking it twice has the same net effect on the queues and
/// the stored rows as acking it once. (With duplicated versions in the
/// queues a second ack names the second copy, so the bound is required.)
pub proof fn lemma_ack_idempotent(s: AckSnap, ch: Seq<char>, v: Seq<char>)
    requires
        count_matches(s.direct, ch, v) + count_matches(s.stored, ch, v) <= 1,
    ensures
        ack_step_snap(ack_step_snap(s, ch, v), ch, v) == ack_step_snap(s, ch, v),
    decreases 0int,
{
    lemma_count_has(s.direct, ch, v);
    lemma_count_has(s.stored, ch, v);
    let s1 = ack_step_snap(s, ch, v);
    if has_match(s.direct, ch, v) {
        lemma_remove_first_count(s.direct, ch, v);
        lemma_zero_count_stable(s1.direct, ch, v);
        lemma_zero_count_stable(s1.stored, ch, v);
        assert(ack_step_snap(s1, ch, v) =~= s1);
    } else if has_match(s.stored, ch, v) {
        lemma_remove_first_count(s.stored, ch, v);
        lemma_zero_count_stable(s1.direct, ch, v);
        lemma_zero_count_stable(s1.stored, ch, v);
        assert(ack_step_snap(s1, ch, v) =~= s1);
    } else {
        assert(s1 == s);
    }
}

/// When the maximum sort key exists, some message carries it.
proof fn lemma_max_sortkey_in(s: Seq<Notification>)
    ensures
        (spec_max_sortkey(s) matches Some(v) ==> (exists|i: int|
            0 <= i < s.len() && #[trigger] s[i].sortkey_timestamp == Some(v))),
    decreases s.len(),
{
    if s.len() > 0 {
        lemma_max_sortkey_in(s.drop_last());
        if let Some(v) = spec_max_sortkey(s) {
            match s.last().sortkey_timestamp {
                Some(lv) => {
                    if v == lv {
                        assert(s[s.len() - 1].sortkey_timestamp == Some(v));
                    } else {
                        let i = choose|i: int|
                            0 <= i < s.drop_last().len() && #[trigger] s.drop_last()[i]
                                .sortkey_timestamp == Some(v);
                        assert(s[i].sortkey_timestamp == Some(v));
                    }
                },
                None => {
                    let i = choose|i: int|
                        0 <= i < s.drop_last().len() && #[trigger] s.drop_last()[i]
                            .sortkey_timestamp == Some(v);
                    assert(s[i].sortkey_timestamp == Some(v));
                },
            }
        }
    }
}

/// Within a session, a sweep that pages by timestamp never lowers the
/// unacked high-water mark: the new mark is a sort key lying strictly
/// after the old mark, or the old mark itself when storage has nothing
/// newer.
pub proof fn lemma_sweep_highest_monotonic(
    pre: WebPushClient,
    sd0: StorageModel,
    post: WebPushClient,
    sd1: StorageModel,
    now: u64,
    r: Result<Vec<ServerMessage>, SMError>,
)
    requires
        sd0.wf(),
        sweep_post(pre, sd0, post, sd1, now, r),
        sd0.spec_topic_fetch(TOPIC_FETCH_LIMIT as int).len() == 0,
    ensures
        (pre.ack_state.unacked_stored_highest matches Some(a) ==> (
        post.ack_state.unacked_stored_highest matches Some(b) && a <= b)),
{
    if let Some(a) = pre.ack_state.unacked_stored_highest {
        let msgs = sd0.spec_ts_fetch(a, SWEEP_BATCH_LIMIT as int);
        lemma_max_sortkey_in(msgs);
        if let Some(v) = spec_max_sortkey(msgs) {
            let i = choose|i: int|
                0 <= i < msgs.len() && #[trigger] msgs[i].sortkey_timestamp == Some(v);
            let e = sd0.spec_ts_eligible(a);
            assert(msgs[i] == e[i]);
            sd0.timestamp_rows@.lemma_filter_pred(|n: Notification| n.spec_sortkey_val() > a, i);
            assert(e[i].spec_sortkey_val() > a);
        }
    }
}

/// A sweep that finds storage empty ends the check-storage flow: the flag
/// falls and the sent-from-storage counter resets.
pub proof fn lemma_sweep_empty_resets(
    pre: WebPushClient,
    sd0: StorageModel,
    post: WebPushClient,
    sd1: StorageModel,
    now: u64,
    r: Result<Vec<ServerMessage>, SMError>,
)
    requires
        sweep_post(pre, sd0, post, sd1, now, r),
        spec_fetch_yield(true, pre.ack_state.unacked_stored_highest, sd0).messages.len() == 0,
    ensures
        post.flags.check_storage == false,
        post.sent_from_storage == 0,
        r matches Ok(v) && v@.len() == 0,
{
}

/// A topic fetch that returns its full quota of eleven unexpired messages
/// has the eleventh held back: exactly the first ten are emitted, in
/// order, and the topic flag stays up for the next sweep.
pub proof fn lemma_topic_overflow_held_back(
    pre: WebPushClient,
    sd0: StorageModel,
    post: WebPushClient,
    sd1: StorageModel,
    now: u64,
    r: Result<Vec<ServerMessage>, SMError>,
)
    requires
        sd0.wf(),
        sweep_post(pre, sd0, post, sd1, now, r),
        sd0.topic_rows@.len() >= TOPIC_FETCH_LIMIT as int,
        forall|i: int|
            0 <= i < sd0.topic_rows@.len() ==> !(#[trigger] sd0.topic_rows@[i]).spec_expired(now),
        pre.sent_from_storage as int + SWEEP_BATCH_LIMIT as int <= pre.msg_limit as int,
    ensures
        post.flags.include_topic == true,
        r matches Ok(v) && v@.len() == SWEEP_BATCH_LIMIT as int && (forall|j: int|
            0 <= j < SWEEP_BATCH_LIMIT as int ==> v@[j] == ServerMessage::Notification(
                sd0.topic_rows@[j],
            )),
        post.ack_state.unacked_stored_notifs@ == pre.ack_state.unacked_stored_notifs@
            + sd0.topic_rows@.take(SWEEP_BATCH_LIMIT as int),
{
    let y = spec_fetch_yield(true, pre.ack_state.unacked_stored_highest, sd0);
    let topic = sd0.spec_topic_fetch(TOPIC_FETCH_LIMIT as int);
    assert(topic.len() == TOPIC_FETCH_LIMIT as int);
    let kept = y.messages.filter(|r: Notification| !r.spec_expired(now));
    assert forall|i: int| 0 <= i < topic.len() implies !(#[trigger] topic[i]).spec_expired(
        now,
    ) by {
        assert(topic[i] == sd0.topic_rows@[i]);
    }
    lemma_filter_all(topic, |r: Notification| !r.spec_expired(now));
    assert(kept == topic);
    assert(kept.take(SWEEP_BATCH_LIMIT as int) =~= sd0.topic_rows@.take(SWEEP_BATCH_LIMIT as int));
}

/// Crossing the stored-message quota drops the user's stored queue before
/// anything is emitted and terminates the connection with the overflow
/// error.
pub proof fn lemma_quota_drops_queue(
    pre: WebPushClient,
    sd0: StorageModel,
    post: WebPushClient,
    sd1: StorageModel,
    now: u64,
    r: Result<Vec<ServerMessage>, SMError>,
)
    requires
        sweep_post(pre, sd0, post, sd1, now, r),
        ({
            let y = spec_fetch_yield(true, pre.ack_state.unacked_stored_highest, sd0);
            let kept = y.messages.filter(|m: Notification| !m.spec_expired(now));
            let blen = if kept.len() <= SWEEP_BATCH_LIMIT as int {
                kept.len() as int
            } else {
                SWEEP_BATCH_LIMIT as int
            };
            kept.len() > 0 && pre.sent_from_storage + blen > pre.msg_limit
        }),
    ensures
        r == Err::<Vec<ServerMessage>, SMError>(SMError::MessageLimitExceeded),
        sd1.topic_rows@.len() == 0,
        sd1.timestamp_rows@.len() == 0,
        post.ack_state.unacked_stored_notifs@ == pre.ack_state.unacked_stored_notifs@,
        post.sent_from_storage == pre.sent_from_storage,
{
    let y = spec_fetch_yield(true, pre.ack_state.unacked_stored_highest, sd0);
    let kept = y.messages.filter(|m: Notification| !m.spec_expired(now));
    y.messages.lemma_filter_len(|m: Notification| !m.spec_expired(now));
    assert(y.messages.len() > 0);
}

/// A filter that rejects exactly the head keeps exactly the tail.
proof fn lemma_filter_drop_first(s: Seq<Notification>, pred: spec_fn(Notification) -> bool)
    requires
        s.len() > 0,
        !pred(s[0]),
        forall|i: int| 1 <= i < s.len() ==> pred(#[trigger] s[i]),
    ensures
        s.filter(pred) == s.drop_first(),
{
    reveal(Seq::filter);
    let head = seq![s[0]];
    let tail = s.drop_first();
    assert(head + tail =~= s);
    Seq::filter_distributes_over_add(head, tail, pred);
    assert(head.drop_last() =~= Seq::<Notification>::empty());
    head.drop_last().lemma_filter_len(pred);
    assert(head.drop_last().filter(pred) =~= Seq::<Notification>::empty());
    assert(head.last() == s[0]);
    assert(head.filter(pred) =~= Seq::<Notification>::empty());
    assert forall|i: int| 0 <= i < tail.len() implies pred(#[trigger] tail[i]) by {
        assert(tail[i] == s[i + 1]);
    }
    lemma_filter_all(tail, pred);
    assert(Seq::<Notification>::empty() + tail =~= tail);
}

/// Acking a queue of distinct notifications, entry by entry in order,
/// drains the queue and removes every row of theirs from the store.
proof fn lemma_ack_fold_drains(rows: Seq<Notification>, ups: Seq<AckEntry>)
    requires
        ups.len() == rows.len(),
        forall|i: int|
            0 <= i < rows.len() ==> (#[trigger] ups[i]).channel_id@ == rows[i].channel_id@
                && ups[i].version@ == rows[i].version@,
        forall|i: int, j: int|
            #![trigger rows[i], rows[j]]
            0 <= i < j < rows.len() ==> rows[i].spec_sort_key() != rows[j].spec_sort_key(),
        forall|i: int, j: int|
            #![trigger rows[i], rows[j]]
            0 <= i < j < rows.len() ==> !(rows[i].channel_id@ == rows[j].channel_id@ && rows[i]
                .version@ == rows[j].version@),
    ensures
        ({
            let fin = ack_fold(
                AckSnap {
                    direct: Seq::empty(),
                    stored: rows,
                    topic_rows: Seq::empty(),
                    ts_rows: rows,
                },
                ups,
            );
            fin.direct.len() == 0 && fin.stored.len() == 0 && fin.topic_rows.len() == 0
                && fin.ts_rows.len() == 0
        }),
    decreases rows.len(),
{
    let snap = AckSnap {
        direct: Seq::<Notification>::empty(),
        stored: rows,
        topic_rows: Seq::<Notification>::empty(),
        ts_rows: rows,
    };
    if rows.len() == 0 {
        assert(ack_fold(snap, ups) == snap);
    } else {
        let ch = ups[0].channel_id@;
        let v = ups[0].version@;
        assert(notif_matches(rows[0], ch, v));
        assert(has_match(rows, ch, v));
        assert(!has_match(Seq::<Notification>::empty(), ch, v));
        let s1 = ack_step_snap(snap, ch, v);
        let k = rows[0].spec_sort_key();
        assert(s1.stored == rows.drop_first());
        reveal(Seq::filter);
        assert(Seq::<Notification>::empty().filter(
            |r: Notification| r.spec_sort_key() != k,
        ) =~= Seq::<Notification>::empty());
        assert forall|i: int| 1 <= i < rows.len() implies (#[trigger] rows[i]).spec_sort_key()
            != k by {}
        lemma_filter_drop_first(rows, |r: Notification| r.spec_sort_key() != k);
        assert(s1.ts_rows == rows.drop_first());
        let rows2 = rows.drop_first();
        let ups2 = ups.drop_first();
        assert forall|i: int| 0 <= i < rows2.len() implies (#[trigger] ups2[i]).channel_id@
            == rows2[i].channel_id@ && ups2[i].version@ == rows2[i].version@ by {
            assert(ups2[i] == ups[i + 1]);
            assert(rows2[i] == rows[i + 1]);
        }
        assert forall|i: int, j: int|
            #![trigger rows2[i], rows2[j]]
            0 <= i < j < rows2.len() implies rows2[i].spec_sort_key() != rows2[j].spec_sort_key()
            && !(rows2[i].channel_id@ == rows2[j].channel_id@ && rows2[i].version@ == rows2[j]
            .version@) by {
            assert(rows2[i] == rows[i + 1]);
            assert(rows2[j] == rows[j + 1]);
        }
        lemma_ack_fold_drains(rows2, ups2);
        assert(s1 =~= AckSnap {
            direct: Seq::<Notification>::empty(),
            stored: rows2,
            topic_rows: Seq::<Notification>::empty(),
            ts_rows: rows2,
        });
        assert(ack_fold(snap, ups) == ack_fold(s1, ups2));
    }
}

/// The keys a sweep deletes individually are exactly those of its expired
/// messages without a sort key; an expired message with a sort key is
/// left to the high-water commit.
pub proof fn lemma_delete_keys_exact(s: Seq<Notification>, now: u64, k: SortKeyV)
    ensures
        delete_keys(s, now).contains(k) <==> (exists|i: int|
            0 <= i < s.len() && (#[trigger] s[i]).spec_expired(now) && s[i].sortkey_timestamp
                is None && s[i].spec_sort_key() == k),
    decreases s.len(),
{
    if s.len() > 0 {
        lemma_delete_keys_exact(s.drop_last(), now, k);
        if delete_keys(s, now).contains(k) {
            if !(s.last().spec_expired(now) && s.last().sortkey_timestamp is None
                && s.last().spec_sort_key() == k) {
                let i = choose|i: int|
                    0 <= i < s.drop_last().len() && (#[trigger] s.drop_last()[i]).spec_expired(now)
                        && s.drop_last()[i].sortkey_timestamp is None && s.drop_last()[i]
                        .spec_sort_key() == k;
                assert(s[i].spec_expired(now) && s[i].sortkey_timestamp is None && s[i]
                    .spec_sort_key() == k);
            } else {
                assert(s[s.len() - 1].spec_expired(now) && s[s.len() - 1].sortkey_timestamp is None
                    && s[s.len() - 1].spec_sort_key() == k);
            }
        }
        if exists|i: int|
            0 <= i < s.len() && (#[trigger] s[i]).spec_expired(now) && s[i].sortkey_timestamp
                is None && s[i].spec_sort_key() == k {
            let i = choose|i: int|
                0 <= i < s.len() && (#[trigger] s[i]).spec_expired(now) && s[i].sortkey_timestamp
                    is None && s[i].spec_sort_key() == k;
            if i < s.len() - 1 {
                assert(s.drop_last()[i] == s[i]);
            }
        }
    }
}

} // verus!
