//! The process-wide notification router: a registry mapping a user to the
//! connection currently owning it, arbitrated by `connected_at`.

use vstd::prelude::*;

verus! {

/// One registration: who owns the user, since when, and the handle of the
/// owning session's inbound signal channel.
#[derive(Debug, PartialEq, Eq, Structural, Clone, Copy)]
pub struct RouterEntry {
    pub uaid: u128,
    pub connected_at: u64,
    /// Opaque handle of the session's inbound channel; the transport layer
    /// maps it to the real sender.
    pub sender: u64,
}

/// What a registration attempt did.
#[derive(Debug, PartialEq, Eq, Structural, Clone, Copy)]
pub enum RegisterOutcome {
    /// No prior owner: the session was inserted.
    Inserted,
    /// An older session owned the user; it was evicted and must be sent a
    /// disconnect signal.
    Replaced { old_sender: u64 },
    /// A newer session already owns the user; the caller lost arbitration.
    Outdated,
}

/// The first entry of `s` owning `uaid`, scanning from the front.
pub open spec fn lookup_in(s: Seq<RouterEntry>, uaid: u128) -> Option<RouterEntry>
    decreases s.len(),
{
    if s.len() == 0 {
        None
    } else if s[0].uaid == uaid {
        Some(s[0])
    } else {
        lookup_in(s.drop_first(), uaid)
    }
}

/// A scan that finds `uaid` first at `i` agrees with `lookup_in`.
proof fn lemma_lookup_at(s: Seq<RouterEntry>, uaid: u128, i: int)
    requires
        0 <= i < s.len(),
        s[i].uaid == uaid,
        forall|j: int| 0 <= j < i ==> (#[trigger] s[j]).uaid != uaid,
    ensures
        lookup_in(s, uaid) == Some(s[i]),
    decreases i,
{
    if i > 0 {
        let d = s.drop_first();
        assert forall|j: int| 0 <= j < i - 1 implies (#[trigger] d[j]).uaid != uaid by {
            assert(d[j] == s[j + 1]);
        }
        assert(d[i - 1] == s[i]);
        lemma_lookup_at(d, uaid, i - 1);
    }
}

/// A scan that finds no owner agrees with `lookup_in`.
proof fn lemma_lookup_none(s: Seq<RouterEntry>, uaid: u128)
    requires
        forall|j: int| 0 <= j < s.len() ==> (#[trigger] s[j]).uaid != uaid,
    ensures
        lookup_in(s, uaid) is None,
    decreases s.len(),
{
    if s.len() > 0 {
        let d = s.drop_first();
        assert forall|j: int| 0 <= j < d.len() implies (#[trigger] d[j]).uaid != uaid by {
            assert(d[j] == s[j + 1]);
        }
        lemma_lookup_none(d, uaid);
    }
}

/// Appending an entry for another user leaves a present lookup alone; an
/// absent one it fills only for its own user.
proof fn lemma_lookup_push(s: Seq<RouterEntry>, e: RouterEntry, u: u128)
    ensures
        lookup_in(s, u) is Some ==> lookup_in(s.push(e), u) == lookup_in(s, u),
        lookup_in(s, u) is None && e.uaid == u ==> lookup_in(s.push(e), u) == Some(e),
        lookup_in(s, u) is None && e.uaid != u ==> lookup_in(s.push(e), u) is None,
    decreases s.len(),
{
    if s.len() == 0 {
        assert(s.push(e).drop_first() =~= Seq::<RouterEntry>::empty());
        assert(s.push(e)[0] == e);
    } else {
        assert(s.push(e)[0] == s[0]);
        assert(s.push(e).drop_first() =~= s.drop_first().push(e));
        lemma_lookup_push(s.drop_first(), e, u);
    }
}

/// Overwriting index `i` in place changes the lookup of its user alone.
proof fn lemma_lookup_update(s: Seq<RouterEntry>, i: int, e: RouterEntry, u: u128)
    requires
        0 <= i < s.len(),
        s[i].uaid == e.uaid,
        u != e.uaid,
    ensures
        lookup_in(s.update(i, e), u) == lookup_in(s, u),
    decreases i,
{
    let s2 = s.update(i, e);
    if i == 0 {
        assert(s2[0] == e);
        assert(s2.drop_first() =~= s.drop_first());
    } else {
        assert(s2[0] == s[0]);
        if s[0].uaid != u {
            assert(s2.drop_first() =~= s.drop_first().update(i - 1, e));
            lemma_lookup_update(s.drop_first(), i - 1, e, u);
        }
    }
}

/// Removing index `i` leaves the lookup of every other user alone.
proof fn lemma_lookup_remove(s: Seq<RouterEntry>, i: int, u: u128)
    requires
        0 <= i < s.len(),
        s[i].uaid != u,
    ensures
        lookup_in(s.remove(i), u) == lookup_in(s, u),
    decreases i,
{
    let s2 = s.remove(i);
    if i == 0 {
        assert(s2 =~= s.drop_first());
    } else {
        assert(s2[0] == s[0]);
        if s[0].uaid != u {
            assert(s2.drop_first() =~= s.drop_first().remove(i - 1));
            lemma_lookup_remove(s.drop_first(), i - 1, u);
        }
    }
}

/// Removing the only entry of a user empties that user's lookup.
proof fn lemma_lookup_remove_own(s: Seq<RouterEntry>, i: int)
    requires
        0 <= i < s.len(),
        forall|j: int| 0 <= j < s.len() && j != i ==> (#[trigger] s[j]).uaid != s[i].uaid,
    ensures
        lookup_in(s.remove(i), s[i].uaid) is None,
{
    let s2 = s.remove(i);
    assert forall|j: int| 0 <= j < s2.len() implies (#[trigger] s2[j]).uaid != s[i].uaid by {
        if j < i {
            assert(s2[j] == s[j]);
        } else {
            assert(s2[j] == s[j + 1]);
        }
    }
    lemma_lookup_none(s2, s[i].uaid);
}

/// The process-wide registry of connected sessions.
#[derive(Debug)]
pub struct Router {
    pub entries: Vec<RouterEntry>,
}

impl Router {
    /// At most one entry per user.
    pub open spec fn wf(self) -> bool {
        forall|i: int, j: int|
            #![trigger self.entries@[i], self.entries@[j]]
            0 <= i < j < self.entries@.len() ==> self.entries@[i].uaid != self.entries@[j].uaid
    }

    /// The registration currently owning `uaid`, if any.
    pub open spec fn spec_lookup(self, uaid: u128) -> Option<RouterEntry> {
        lookup_in(self.entries@, uaid)
    }

    /// An empty registry.
    pub fn new() -> (r: Self)
        ensures
            r.wf(),
            r.entries@.len() == 0,
    {
        Router { entries: Vec::new() }
    }

    /// Finds the index of the entry owning `uaid`.
    fn find(&self, uaid: u128) -> (r: Option<usize>)
        ensures
            (r matches Some(i) ==> i < self.entries@.len() && self.entries@[i as int].uaid == uaid
                && (forall|j: int| 0 <= j < i ==> (#[trigger] self.entries@[j]).uaid != uaid)
                && self.spec_lookup(uaid) == Some(self.entries@[i as int])),
            (r is None ==> self.spec_lookup(uaid) is None && (forall|j: int|
                0 <= j < self.entries@.len() ==> (#[trigger] self.entries@[j]).uaid != uaid)),
    {
        let mut i: usize = 0;
        while i < self.entries.len()
            invariant
                i <= self.entries.len(),
                forall|j: int| 0 <= j < i ==> (#[trigger] self.entries@[j]).uaid != uaid,
            decreases self.entries.len() - i,
        {
            if self.entries[i].uaid == uaid {
                proof {
                    lemma_lookup_at(self.entries@, uaid, i as int);
                }
                return Some(i);
            }
            i += 1;
        }
        proof {
            lemma_lookup_none(self.entries@, uaid);
        }
        None
    }

    /// Registers `sender` as the owner of `uaid`. A session with an older
    /// (or equal) `connected_at` is evicted and its sender returned so a
    /// disconnect can be delivered to it; a newer one keeps the entry and
    /// the incomer loses arbitration. The arbitration value stored for a
    /// user therefore never decreases: it is the maximum observed.
    pub fn register(&mut self, uaid: u128, sender: u64, connected_at: u64) -> (r: RegisterOutcome)
        requires
            old(self).wf(),
        ensures
            final(self).wf(),
            ({
                let before = old(self).spec_lookup(uaid);
                let after = final(self).spec_lookup(uaid);
                match before {
                    None => r == RegisterOutcome::Inserted && after == Some(
                        RouterEntry { uaid, connected_at, sender },
                    ),
                    Some(e) => if e.connected_at <= connected_at {
                        r == (RegisterOutcome::Replaced { old_sender: e.sender }) && after == Some(
                            RouterEntry { uaid, connected_at, sender },
                        )
                    } else {
                        r == RegisterOutcome::Outdated && after == before
                    },
                }
            }),
            forall|u: u128|
                u != uaid ==> #[trigger] final(self).spec_lookup(u) == old(self).spec_lookup(u),
    {
        let found = self.find(uaid);
        match found {
            None => {
                let e = RouterEntry { uaid, connected_at, sender };
                self.entries.push(e);
                proof {
                    lemma_lookup_push(old(self).entries@, e, uaid);
                    assert forall|u: u128| u != uaid implies #[trigger] self.spec_lookup(u) == old(
                        self,
                    ).spec_lookup(u) by {
                        lemma_lookup_push(old(self).entries@, e, u);
                    }
                }
                RegisterOutcome::Inserted
            },
            Some(i) => {
                let existing_connected_at = self.entries[i].connected_at;
                let existing_sender = self.entries[i].sender;
                if existing_connected_at <= connected_at {
                    let e = RouterEntry { uaid, connected_at, sender };
                    self.entries[i] = e;
                    proof {
                        assert(self.entries@ == old(self).entries@.update(i as int, e));
                        lemma_lookup_at(self.entries@, uaid, i as int);
                        assert forall|u: u128| u != uaid implies #[trigger] self.spec_lookup(u)
                            == old(self).spec_lookup(u) by {
                            lemma_lookup_update(old(self).entries@, i as int, e, u);
                        }
                    }
                    RegisterOutcome::Replaced { old_sender: existing_sender }
                } else {
                    RegisterOutcome::Outdated
                }
            },
        }
    }

    /// The sender to route a server notification through, if the user has
    /// a connected owner.
    pub fn deliver(&self, uaid: u128) -> (r: Option<u64>)
        ensures
            r == match self.spec_lookup(uaid) {
                Some(e) => Some(e.sender),
                None => None::<u64>,
            },
    {
        let found = self.find(uaid);
        match found {
            Some(i) => Some(self.entries[i].sender),
            None => None,
        }
    }

    /// Removes the registration of `uaid` only if its arbitration value
    /// still matches: a stale unregister of a superseded session does
    /// nothing. Idempotent.
    pub fn unregister(&mut self, uaid: u128, connected_at: u64) -> (removed: bool)
        requires
            old(self).wf(),
        ensures
            final(self).wf(),
            ({
                let before = old(self).spec_lookup(uaid);
                match before {
                    Some(e) => if e.connected_at == connected_at {
                        removed && final(self).spec_lookup(uaid) is None
                    } else {
                        !removed && *final(self) == *old(self)
                    },
                    None => !removed && *final(self) == *old(self),
                }
            }),
            forall|u: u128|
                u != uaid ==> #[trigger] final(self).spec_lookup(u) == old(self).spec_lookup(u),
    {
        let found = self.find(uaid);
        match found {
            Some(i) => {
                if self.entries[i].connected_at == connected_at {
                    let _ = self.entries.remove(i);
                    proof {
                        assert(self.entries@ == old(self).entries@.remove(i as int));
                        assert forall|j: int|
                            0 <= j < old(self).entries@.len() && j != i implies (#[trigger] old(
                            self,
                        ).entries@[j]).uaid != old(self).entries@[i as int].uaid by {}
                        lemma_lookup_remove_own(old(self).entries@, i as int);
                        assert forall|u: u128| u != uaid implies #[trigger] self.spec_lookup(u)
                            == old(self).spec_lookup(u) by {
                            lemma_lookup_remove(old(self).entries@, i as int, u);
                        }
                    }
                    true
                } else {
                    false
                }
            },
            None => false,
        }
    }
}

} // verus!
