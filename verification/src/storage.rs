//! An in-memory model of the row store as the state machine sees it: one
//! user's topic-indexed rows, timestamp-ordered rows, and committed
//! high-water mark.
//!
//! The model keeps the row-store semantics the storage driver exposes:
//! topic rows are unique per key and overwritten on store, timestamp rows
//! are kept in strictly ascending `sortkey_timestamp` order, deletes are
//! idempotent, and the high-water mark never regresses.

use vstd::prelude::*;
use vstd::seq_lib::*;

use crate::notification::{Notification, SortKey, SortKeyV};
use crate::notification::sort_key_eq;

verus! {

/// What one fetch against the row store yields: the rows read and the
/// maximum sort key observed among them.
#[derive(Debug)]
pub struct FetchResponse {
    pub messages: Vec<Notification>,
    pub timestamp: Option<u64>,
}

/// The maximum `sortkey_timestamp` present in `s`, if any.
pub open spec fn spec_max_sortkey(s: Seq<Notification>) -> Option<u64>
    decreases s.len(),
{
    if s.len() == 0 {
        None
    } else {
        let rest = spec_max_sortkey(s.drop_last());
        match s.last().sortkey_timestamp {
            Some(v) => match rest {
                Some(m) => if m > v { Some(m) } else { Some(v) },
                None => Some(v),
            },
            None => rest,
        }
    }
}

/// Computes the maximum `sortkey_timestamp` among `msgs`.
pub fn max_sortkey(msgs: &Vec<Notification>) -> (r: Option<u64>)
    ensures
        r == spec_max_sortkey(msgs@),
{
    let mut r: Option<u64> = None;
    let mut i: usize = 0;
    while i < msgs.len()
        invariant
            i <= msgs.len(),
            r == spec_max_sortkey(msgs@.take(i as int)),
        decreases msgs.len() - i,
    {
        proof {
            assert(msgs@.take(i + 1).drop_last() =~= msgs@.take(i as int));
            assert(msgs@.take(i + 1).last() == msgs@[i as int]);
        }
        let n = &msgs[i];
        r = match (n.sortkey_timestamp, r) {
            (Some(v), Some(m)) => if m > v { Some(m) } else { Some(v) },
            (Some(v), None) => Some(v),
            (None, prev) => prev,
        };
        i += 1;
    }
    proof {
        assert(msgs@.take(msgs@.len() as int) =~= msgs@);
    }
    r
}

/// Strictly ascending `sortkey_timestamp` order.
pub open spec fn ts_sorted(rows: Seq<Notification>) -> bool {
    forall|i: int, j: int|
        #![trigger rows[i], rows[j]]
        0 <= i < j < rows.len() ==> rows[i].spec_sortkey_val() < rows[j].spec_sortkey_val()
}

/// No two rows share a storage key.
pub open spec fn keys_unique(rows: Seq<Notification>) -> bool {
    forall|i: int, j: int|
        #![trigger rows[i], rows[j]]
        0 <= i < j < rows.len() ==> rows[i].spec_sort_key() != rows[j].spec_sort_key()
}

/// One user's slice of the row store.
pub struct StorageModel {
    /// Rows of the per-topic table; at most one per `(channel_id, topic)`.
    pub topic_rows: Vec<Notification>,
    /// Non-topic rows, strictly ascending by `sortkey_timestamp`.
    pub timestamp_rows: Vec<Notification>,
    /// The committed consumed-up-to mark.
    pub high_water: Option<u64>,
    /// Every notification ever presented to `store_message`.
    pub store_log: Ghost<Seq<Notification>>,
}

impl StorageModel {
    /// Well-formedness: topic rows carry a topic and unique keys; timestamp
    /// rows carry no topic, a set sort key, and strictly ascend; nothing
    /// with `ttl == 0` is ever stored.
    pub open spec fn wf(self) -> bool {
        &&& forall|i: int|
            0 <= i < self.topic_rows@.len() ==> (#[trigger] self.topic_rows@[i]).topic is Some
                && self.topic_rows@[i].ttl != 0
        &&& keys_unique(self.topic_rows@)
        &&& forall|i: int|
            0 <= i < self.timestamp_rows@.len() ==> (#[trigger] self.timestamp_rows@[i]).topic
                is None && self.timestamp_rows@[i].sortkey_timestamp is Some
                && self.timestamp_rows@[i].ttl != 0
        &&& ts_sorted(self.timestamp_rows@)
    }

    /// An empty slice of the store.
    pub fn new() -> (r: Self)
        ensures
            r.wf(),
            r.topic_rows@.len() == 0,
            r.timestamp_rows@.len() == 0,
            r.high_water is None,
            r.store_log@ == Seq::<Notification>::empty(),
    {
        StorageModel {
            topic_rows: Vec::new(),
            timestamp_rows: Vec::new(),
            high_water: None,
            store_log: Ghost(Seq::empty()),
        }
    }

    /// The first `limit` topic rows.
    pub open spec fn spec_topic_fetch(self, limit: int) -> Seq<Notification> {
        self.topic_rows@.take(
            if limit < self.topic_rows@.len() as int {
                limit
            } else {
                self.topic_rows@.len() as int
            },
        )
    }

    /// The timestamp rows lying strictly after `a`.
    pub open spec fn spec_ts_eligible(self, a: u64) -> Seq<Notification> {
        self.timestamp_rows@.filter(|n: Notification| n.spec_sortkey_val() > a)
    }

    /// The first `limit` timestamp rows lying strictly after `a`.
    pub open spec fn spec_ts_fetch(self, a: u64, limit: int) -> Seq<Notification> {
        let e = self.spec_ts_eligible(a);
        e.take(if limit < e.len() as int { limit } else { e.len() as int })
    }

    /// Reads up to `limit` rows of the per-topic table, newest-per-topic,
    /// together with the maximum sort key observed.
    pub fn fetch_messages(&self, limit: usize) -> (r: FetchResponse)
        ensures
            r.messages@ == self.spec_topic_fetch(limit as int),
            r.timestamp == spec_max_sortkey(r.messages@),
    {
        let mut messages: Vec<Notification> = Vec::new();
        let mut i: usize = 0;
        while i < limit && i < self.topic_rows.len()
            invariant
                i <= self.topic_rows.len(),
                i <= limit,
                messages@ == self.topic_rows@.take(i as int),
            decreases self.topic_rows.len() - i,
        {
            messages.push(self.topic_rows[i].clone());
            proof {
                assert(messages@ =~= self.topic_rows@.take(i + 1));
            }
            i += 1;
        }
        let timestamp = max_sortkey(&messages);
        proof {
            assert(messages@ =~= self.spec_topic_fetch(limit as int));
        }
        FetchResponse { messages, timestamp }
    }

    /// Reads up to `limit` timestamp rows strictly after `after` (zero when
    /// unset), in ascending order, with the maximum sort key observed.
    pub fn fetch_timestamp_messages(&self, after: Option<u64>, limit: usize) -> (r: FetchResponse)
        ensures
            r.messages@ == self.spec_ts_fetch(
                match after {
                    Some(a) => a,
                    None => 0,
                },
                limit as int,
            ),
            r.timestamp == spec_max_sortkey(r.messages@),
    {
        let a: u64 = match after {
            Some(v) => v,
            None => 0,
        };
        let mut messages: Vec<Notification> = Vec::new();
        let mut i: usize = 0;
        while i < self.timestamp_rows.len()
            invariant
                i <= self.timestamp_rows.len(),
                messages@.len() <= limit,
                ({
                    let fe = self.timestamp_rows@.take(i as int).filter(|n: Notification| n.spec_sortkey_val() > a);
                    messages@ == fe.take(
                        if (limit as int) < fe.len() as int {
                            limit as int
                        } else {
                            fe.len() as int
                        },
                    )
                }),
            decreases self.timestamp_rows.len() - i,
        {
            let ghost fe = self.timestamp_rows@.take(i as int).filter(|n: Notification| n.spec_sortkey_val() > a);
            let ghost fe2 = self.timestamp_rows@.take(i + 1).filter(|n: Notification| n.spec_sortkey_val() > a);
            proof {
                reveal(Seq::filter);
                assert(self.timestamp_rows@.take(i + 1).drop_last() =~= self.timestamp_rows@.take(
                    i as int,
                ));
                assert(self.timestamp_rows@.take(i + 1).last() == self.timestamp_rows@[i as int]);
                self.timestamp_rows@.take(i as int).lemma_filter_len(|n: Notification| n.spec_sortkey_val() > a);
                if self.timestamp_rows@[i as int].spec_sortkey_val() > a {
                    assert(fe2 == fe.push(self.timestamp_rows@[i as int]));
                } else {
                    assert(fe2 == fe);
                }
            }
            let n = &self.timestamp_rows[i];
            let skv = match n.sortkey_timestamp {
                Some(v) => v,
                None => 0,
            };
            if skv > a && messages.len() < limit {
                messages.push(n.clone());
                proof {
                    assert(fe.len() < limit as int);
                    assert(messages@ =~= fe2.take(
                        if (limit as int) < fe2.len() as int {
                            limit as int
                        } else {
                            fe2.len() as int
                        },
                    ));
                }
            } else {
                proof {
                    if skv > a {
                        assert(messages@.len() == limit);
                        assert(fe2.take(limit as int) =~= fe.take(limit as int));
                    }
                }
            }
            i += 1;
        }
        proof {
            assert(self.timestamp_rows@.take(self.timestamp_rows@.len() as int)
                =~= self.timestamp_rows@);
        }
        let timestamp = max_sortkey(&messages);
        FetchResponse { messages, timestamp }
    }

    /// Commits `timestamp` as the consumed-up-to mark. The mark never
    /// regresses: an older commit leaves the stored mark unchanged.
    pub fn increment_storage(&mut self, timestamp: u64)
        requires
            old(self).wf(),
        ensures
            final(self).wf(),
            final(self).high_water == Some(
                match old(self).high_water {
                    Some(h) => if h > timestamp {
                        h
                    } else {
                        timestamp
                    },
                    None => timestamp,
                },
            ),
            final(self).topic_rows@ == old(self).topic_rows@,
            final(self).timestamp_rows@ == old(self).timestamp_rows@,
            final(self).store_log == old(self).store_log,
    {
        let new_mark: u64 = match self.high_water {
            Some(h) => if h > timestamp {
                h
            } else {
                timestamp
            },
            None => timestamp,
        };
        self.high_water = Some(new_mark);
    }

    /// Deletes the row stored under `key`, if any. Deleting an absent key
    /// changes nothing.
    pub fn remove_message(&mut self, key: &SortKey)
        requires
            old(self).wf(),
        ensures
            final(self).wf(),
            ({
                let k = key@;
                final(self).topic_rows@ == old(self).topic_rows@.filter(
                    |r: Notification| r.spec_sort_key() != k,
                )
            }),
            ({
                let k = key@;
                final(self).timestamp_rows@ == old(self).timestamp_rows@.filter(
                    |r: Notification| r.spec_sort_key() != k,
                )
            }),
            final(self).high_water == old(self).high_water,
            final(self).store_log == old(self).store_log,
    {
        let new_topic = filter_out_key(&self.topic_rows, key);
        let new_ts = filter_out_key(&self.timestamp_rows, key);
        proof {
            let k = key@;
            let pred = |r: Notification| r.spec_sort_key() != k;
            lemma_filter_mem(self.topic_rows@, pred);
            lemma_filter_mem(self.timestamp_rows@, pred);
            lemma_filter_keeps_unique(self.topic_rows@, pred);
            lemma_filter_keeps_sorted(self.timestamp_rows@, pred);
        }
        self.topic_rows = new_topic;
        self.timestamp_rows = new_ts;
    }

    /// The largest sort key the store must stay above when it assigns one:
    /// the last timestamp row's key or the committed mark.
    pub open spec fn spec_key_ceiling(self) -> u64 {
        let hw = match self.high_water {
            Some(h) => h,
            None => 0,
        };
        if self.timestamp_rows@.len() > 0 {
            let last = self.timestamp_rows@.last().spec_sortkey_val();
            if last > hw {
                last
            } else {
                hw
            }
        } else {
            hw
        }
    }

    /// Whether a fresh sort key can still be assigned.
    pub open spec fn spec_can_assign(self) -> bool {
        self.spec_key_ceiling() < u64::MAX
    }

    /// The sort key the store assigns to a keyless notification.
    pub open spec fn spec_next_key(self) -> u64 {
        (self.spec_key_ceiling() + 1) as u64
    }

    /// Persists `n`. A topic notification overwrites the row with its key;
    /// a keyed non-topic notification replaces the row with an equal key or
    /// is inserted in order; a keyless one is appended under a fresh key
    /// above everything stored or committed so far.
    pub fn store_message(&mut self, n: Notification)
        requires
            old(self).wf(),
            n.ttl != 0,
            n.topic is None && n.sortkey_timestamp is None ==> old(self).spec_can_assign(),
        ensures
            final(self).wf(),
            final(self).high_water == old(self).high_water,
            final(self).store_log@ == old(self).store_log@.push(n),
            n.topic is Some ==> final(self).timestamp_rows@ == old(self).timestamp_rows@ && ({
                let k = n.spec_sort_key();
                final(self).topic_rows@ == old(self).topic_rows@.filter(
                    |r: Notification| r.spec_sort_key() != k,
                ).push(n)
            }),
            n.topic is None && n.sortkey_timestamp is Some ==> final(self).topic_rows@ == old(
                self,
            ).topic_rows@ && (exists|p: int, q: int|
                ts_insert_at(old(self).timestamp_rows@, final(self).timestamp_rows@, n, p, q)),
            n.topic is None && n.sortkey_timestamp is None ==> final(self).topic_rows@ == old(
                self,
            ).topic_rows@ && final(self).timestamp_rows@ == old(self).timestamp_rows@.push(
                (Notification { sortkey_timestamp: Some(old(self).spec_next_key()), ..n }),
            ),
    {
        self.store_log = Ghost(self.store_log@.push(n));
        if let Some(_) = &n.topic {
            let key = n.sort_key();
            let filtered = filter_out_key(&self.topic_rows, &key);
            proof {
                let k = n.spec_sort_key();
                let pred = |r: Notification| r.spec_sort_key() != k;
                lemma_filter_mem(self.topic_rows@, pred);
                lemma_filter_keeps_unique(self.topic_rows@, pred);
                assert forall|i: int| 0 <= i < filtered@.len() implies (
                #[trigger] filtered@[i]).spec_sort_key() != n.spec_sort_key() by {
                    self.topic_rows@.lemma_filter_pred(pred, i);
                }
            }
            self.topic_rows = filtered;
            self.topic_rows.push(n);
        } else if let Some(_) = n.sortkey_timestamp {
            let new_rows = ts_insert(&self.timestamp_rows, n);
            self.timestamp_rows = new_rows;
        } else {
            let hw: u64 = match self.high_water {
                Some(h) => h,
                None => 0,
            };
            let ceiling: u64 = if self.timestamp_rows.len() > 0 {
                let last = self.timestamp_rows[self.timestamp_rows.len() - 1].sortkey_val();
                if last > hw {
                    last
                } else {
                    hw
                }
            } else {
                hw
            };
            let next: u64 = ceiling + 1;
            let stored = Notification { sortkey_timestamp: Some(next), ..n };
            self.timestamp_rows.push(stored);
        }
    }

    /// Drops every stored row of the user; the mark and the store log stay.
    pub fn drop_queue(&mut self)
        requires
            old(self).wf(),
        ensures
            final(self).wf(),
            final(self).topic_rows@.len() == 0,
            final(self).timestamp_rows@.len() == 0,
            final(self).high_water == old(self).high_water,
            final(self).store_log == old(self).store_log,
    {
        self.topic_rows = Vec::new();
        self.timestamp_rows = Vec::new();
    }
}

/// Rows of `rows` whose key differs from `key`, in order.
fn filter_out_key(rows: &Vec<Notification>, key: &SortKey) -> (out: Vec<Notification>)
    ensures
        ({
            let k = key@;
            out@ == rows@.filter(|r: Notification| r.spec_sort_key() != k)
        }),
{
    let mut out: Vec<Notification> = Vec::new();
    let mut i: usize = 0;
    while i < rows.len()
        invariant
            i <= rows.len(),
            ({
                let k = key@;
                out@ == rows@.take(i as int).filter(|r: Notification| r.spec_sort_key() != k)
            }),
        decreases rows.len() - i,
    {
        proof {
            reveal(Seq::filter);
            assert(rows@.take(i + 1).drop_last() =~= rows@.take(i as int));
            assert(rows@.take(i + 1).last() == rows@[i as int]);
            let k = key@;
            if rows@[i as int].spec_sort_key() != k {
                assert(rows@.take(i + 1).filter(|r: Notification| r.spec_sort_key() != k) == rows@.take(i as int).filter(|r: Notification| r.spec_sort_key() != k).push(
                    rows@[i as int],
                ));
            } else {
                assert(rows@.take(i + 1).filter(|r: Notification| r.spec_sort_key() != k) == rows@.take(i as int).filter(|r: Notification| r.spec_sort_key() != k));
            }
        }
        let n = &rows[i];
        let k = n.sort_key();
        if !sort_key_eq(&k, key) {
            out.push(n.clone());
        }
        i += 1;
    }
    proof {
        assert(rows@.take(rows@.len() as int) =~= rows@);
    }
    out
}

/// Whether `t` is `s` with `n` inserted at position `p`, replacing the row
/// at `p` when one with an equal sort key exists (`q == p + 1`).
pub open spec fn ts_insert_at(
    s: Seq<Notification>,
    t: Seq<Notification>,
    n: Notification,
    p: int,
    q: int,
) -> bool {
    &&& 0 <= p <= q <= s.len()
    &&& q - p <= 1
    &&& forall|i: int|
        0 <= i < p ==> (#[trigger] s[i]).spec_sortkey_val() < n.spec_sortkey_val()
    &&& forall|i: int|
        q <= i < s.len() ==> (#[trigger] s[i]).spec_sortkey_val() > n.spec_sortkey_val()
    &&& (p < q ==> s[p].spec_sortkey_val() == n.spec_sortkey_val())
    &&& t == s.take(p) + seq![n] + s.skip(q)
}

/// Inserts `n` into sorted `rows`, replacing a row with an equal key.
fn ts_insert(rows: &Vec<Notification>, n: Notification) -> (out: Vec<Notification>)
    requires
        ts_sorted(rows@),
    ensures
        exists|p: int, q: int| ts_insert_at(rows@, out@, n, p, q),
{
    let skv = n.sortkey_val();
    let mut p: usize = 0;
    while p < rows.len() && rows[p].sortkey_val() < skv
        invariant
            p <= rows.len(),
            forall|i: int| 0 <= i < p ==> (#[trigger] rows@[i]).spec_sortkey_val() < skv,
        decreases rows.len() - p,
    {
        p += 1;
    }
    let q: usize = if p < rows.len() && rows[p].sortkey_val() == skv {
        p + 1
    } else {
        p
    };
    let ghost n0 = n;
    let mut out: Vec<Notification> = Vec::new();
    let mut i: usize = 0;
    while i < p
        invariant
            i <= p,
            p <= rows.len(),
            out@ == rows@.take(i as int),
        decreases p - i,
    {
        out.push(rows[i].clone());
        proof {
            assert(out@ =~= rows@.take(i + 1));
        }
        i += 1;
    }
    out.push(n);
    let mut j: usize = q;
    while j < rows.len()
        invariant
            q <= j <= rows.len(),
            p <= q <= rows.len(),
            out@ == rows@.take(p as int) + seq![n0] + rows@.subrange(q as int, j as int),
        decreases rows.len() - j,
    {
        out.push(rows[j].clone());
        proof {
            assert(out@ =~= rows@.take(p as int) + seq![n0] + rows@.subrange(q as int, j + 1));
        }
        j += 1;
    }
    proof {
        assert(rows@.subrange(q as int, rows@.len() as int) =~= rows@.skip(q as int));
        assert(ts_insert_at(rows@, out@, n0, p as int, q as int));
    }
    out
}

/// Filtering by a predicate that holds of every element changes nothing.
pub proof fn lemma_filter_all(s: Seq<Notification>, pred: spec_fn(Notification) -> bool)
    requires
        forall|i: int| 0 <= i < s.len() ==> pred(#[trigger] s[i]),
    ensures
        s.filter(pred) == s,
    decreases s.len(),
{
    reveal(Seq::filter);
    if s.len() > 0 {
        lemma_filter_all(s.drop_last(), pred);
        assert(s.filter(pred) =~= s);
    } else {
        assert(s.filter(pred) =~= s);
    }
}

/// Every element of a filtered sequence occurs in the sequence it was
/// filtered from.
pub proof fn lemma_filter_mem(s: Seq<Notification>, pred: spec_fn(Notification) -> bool)
    ensures
        forall|i: int|
            0 <= i < s.filter(pred).len() ==> exists|x: int|
                0 <= x < s.len() && s[x] == #[trigger] s.filter(pred)[i],
    decreases s.len(),
{
    reveal(Seq::filter);
    if s.len() > 0 {
        lemma_filter_mem(s.drop_last(), pred);
        let f = s.filter(pred);
        let fd = s.drop_last().filter(pred);
        assert forall|i: int| 0 <= i < f.len() implies exists|x: int|
            0 <= x < s.len() && s[x] == #[trigger] f[i] by {
            if pred(s.last()) && i == f.len() - 1 {
                assert(s[s.len() - 1] == f[i]);
            } else {
                assert(f[i] == fd[i]);
                let x = choose|x: int| 0 <= x < s.drop_last().len() && s.drop_last()[x] == fd[i];
                assert(s[x] == f[i]);
            }
        }
    }
}

/// Filtering keeps distinct storage keys distinct.
pub proof fn lemma_filter_keeps_unique(s: Seq<Notification>, pred: spec_fn(Notification) -> bool)
    requires
        keys_unique(s),
    ensures
        keys_unique(s.filter(pred)),
    decreases s.len(),
{
    reveal(Seq::filter);
    if s.len() > 0 {
        lemma_filter_keeps_unique(s.drop_last(), pred);
        let f = s.filter(pred);
        let fd = s.drop_last().filter(pred);
        lemma_filter_mem(s.drop_last(), pred);
        assert forall|i: int, j: int| 0 <= i < j < f.len() implies (#[trigger] f[i]).spec_sort_key()
            != (#[trigger] f[j]).spec_sort_key() by {
            if pred(s.last()) && j == f.len() - 1 {
                let x = choose|x: int| 0 <= x < s.drop_last().len() && s.drop_last()[x] == fd[i];
                assert(s[x] == f[i]);
                assert(s[x].spec_sort_key() != s[s.len() - 1].spec_sort_key());
            } else {
                assert(f[i] == fd[i] && f[j] == fd[j]);
            }
        }
    }
}

/// Filtering keeps strictly ascending sort keys strictly ascending.
pub proof fn lemma_filter_keeps_sorted(s: Seq<Notification>, pred: spec_fn(Notification) -> bool)
    requires
        ts_sorted(s),
    ensures
        ts_sorted(s.filter(pred)),
    decreases s.len(),
{
    reveal(Seq::filter);
    if s.len() > 0 {
        lemma_filter_keeps_sorted(s.drop_last(), pred);
        let f = s.filter(pred);
        let fd = s.drop_last().filter(pred);
        lemma_filter_mem(s.drop_last(), pred);
        assert forall|i: int, j: int| 0 <= i < j < f.len() implies (#[trigger] f[i]).spec_sortkey_val()
            < (#[trigger] f[j]).spec_sortkey_val() by {
            if pred(s.last()) && j == f.len() - 1 {
                let x = choose|x: int| 0 <= x < s.drop_last().len() && s.drop_last()[x] == fd[i];
                assert(s[x] == f[i]);
                assert(s[x].spec_sortkey_val() < s[s.len() - 1].spec_sortkey_val());
            } else {
                assert(f[i] == fd[i] && f[j] == fd[j]);
            }
        }
    }
}

} // verus!
