//! Bounded recipient-side replay tracking for authenticated transport envelopes.
use vstd::prelude::*;

use super::capability::TransportMessageId;
use crate::{MefError, Result};

verus! {

/// The entries whose expiry is not before `now_unix`, in their original order.
pub open spec fn live_entries(entries: Seq<(Seq<u8>, u64)>, now_unix: u64) -> Seq<(Seq<u8>, u64)>
    decreases entries.len(),
{
    if entries.len() == 0 {
        entries
    } else {
        let rest = live_entries(entries.drop_last(), now_unix);
        if entries.last().1 >= now_unix {
            rest.push(entries.last())
        } else {
            rest
        }
    }
}

/// Whether some entry records the identifier `id`.
pub open spec fn records(entries: Seq<(Seq<u8>, u64)>, id: Seq<u8>) -> bool {
    exists|j: int| 0 <= j < entries.len() && entries[j].0 == id
}

/// The abstract content of a replay cache.
pub struct ReplayCacheView {
    /// The maximum number of retained identifiers.
    pub capacity: nat,
    /// The retained identifiers with their expiry, oldest first.
    pub entries: Seq<(Seq<u8>, u64)>,
}

/// What [`ReplayCache::check_and_insert`] does: drop expired entries, reject a live duplicate
/// with [`MefError::ReplayDetected`], reject a full cache with [`MefError::InvalidState`],
/// otherwise record the identifier. Expired entries are dropped in every case.
pub open spec fn replay_step(cache: ReplayCacheView, id: Seq<u8>, expires_at_unix: u64, now_unix: u64) -> (ReplayCacheView, core::result::Result<(), MefError>) {
    let live = live_entries(cache.entries, now_unix);
    if records(live, id) {
        (ReplayCacheView { capacity: cache.capacity, entries: live }, Err(MefError::ReplayDetected))
    } else if live.len() >= cache.capacity {
        (ReplayCacheView { capacity: cache.capacity, entries: live }, Err(MefError::InvalidState))
    } else {
        (ReplayCacheView { capacity: cache.capacity, entries: live.push((id, expires_at_unix)) }, Ok(()))
    }
}

/// Bounded in-memory replay cache keyed by authenticated transport message identifiers.
#[derive(Debug)]
pub struct ReplayCache {
    capacity: usize,
    entries: Vec<(TransportMessageId, u64)>,
}

impl View for ReplayCache {
    type V = ReplayCacheView;

    closed spec fn view(&self) -> ReplayCacheView {
        ReplayCacheView {
            capacity: self.capacity as nat,
            entries: Seq::new(self.entries@.len(), |i: int| (self.entries@[i].0@, self.entries@[i].1)),
        }
    }
}

impl ReplayCache {
    #[verifier::type_invariant]
    spec fn inv(self) -> bool {
        0 < self.capacity && self.entries@.len() <= self.capacity
    }

    /// Creates an empty replay cache with a nonzero maximum entry count.
    ///
    /// Returns [`MefError::InvalidLength`] exactly for zero capacity.
    pub fn new(capacity: usize) -> (res: Result<Self>)
        ensures
            res is Ok <==> capacity > 0,
            res matches Err(e) ==> e == MefError::InvalidLength,
            res matches Ok(c) ==> c@ == (ReplayCacheView { capacity: capacity as nat, entries: Seq::empty() }),
    {
        if capacity == 0 {
            return Err(MefError::InvalidLength);
        }
        let cache = ReplayCache { capacity, entries: Vec::new() };
        assert(cache@.entries =~= Seq::<(Seq<u8>, u64)>::empty());
        Ok(cache)
    }

    /// Removes expired entries and records an authenticated transport identifier.
    ///
    /// Returns [`MefError::ReplayDetected`] for a duplicate live identifier and
    /// [`MefError::InvalidState`] when the cache is full of live identifiers.
    pub fn check_and_insert(&mut self, message_id: TransportMessageId, expires_at_unix: u64, now_unix: u64) -> (res: Result<()>)
        ensures
            (final(self)@, res) == replay_step(old(self)@, message_id@, expires_at_unix, now_unix),
            final(self)@.entries.len() <= final(self)@.capacity,
    {
        proof { use_type_invariant(&*self); }
        let ghost old_view = self@;
        let mut live: Vec<(TransportMessageId, u64)> = Vec::new();
        let mut found = false;
        let mut i: usize = 0;
        while i < self.entries.len()
            invariant
                i <= self.entries@.len(),
                self@ == old_view,
                live@.len() <= i,
                Seq::new(live@.len(), |k: int| (live@[k].0@, live@[k].1))
                    == live_entries(old_view.entries.take(i as int), now_unix),
                found == records(live_entries(old_view.entries.take(i as int), now_unix), message_id@),
            decreases self.entries@.len() - i,
        {
            let (id, expires) = self.entries[i];
            let ghost prefix = old_view.entries.take(i as int);
            assert(old_view.entries.take(i + 1).drop_last() =~= prefix);
            assert(old_view.entries.take(i + 1).last() == (id@, expires));
            if expires >= now_unix {
                let ghost before = live@;
                if id.same_as(&message_id) {
                    found = true;
                }
                live.push((id, expires));
                assert(Seq::new(live@.len(), |k: int| (live@[k].0@, live@[k].1))
                    =~= Seq::new(before.len(), |k: int| (before[k].0@, before[k].1)).push((id@, expires)));
                let ghost lv = live_entries(old_view.entries.take(i + 1), now_unix);
                let ghost prev = live_entries(prefix, now_unix);
                assert(lv == prev.push((id@, expires)));
                assert(found == records(lv, message_id@)) by {
                    if records(lv, message_id@) {
                        let j = choose|j: int| 0 <= j < lv.len() && lv[j].0 == message_id@;
                        if j < prev.len() {
                            assert(prev[j] == lv[j]);
                        }
                    }
                    if records(prev, message_id@) {
                        let j = choose|j: int| 0 <= j < prev.len() && prev[j].0 == message_id@;
                        assert(lv[j] == prev[j]);
                    }
                    if id@ == message_id@ {
                        assert(lv[prev.len() as int].0 == message_id@);
                    }
                }
            }
            i = i + 1;
        }
        assert(old_view.entries.take(self.entries@.len() as int) =~= old_view.entries);
        let ghost live_view = Seq::new(live@.len(), |k: int| (live@[k].0@, live@[k].1));
        if found {
            self.entries = live;
            return Err(MefError::ReplayDetected);
        }
        if live.len() >= self.capacity {
            self.entries = live;
            return Err(MefError::InvalidState);
        }
        live.push((message_id, expires_at_unix));
        self.entries = live;
        assert(self@.entries =~= live_view.push((message_id@, expires_at_unix)));
        Ok(())
    }

    /// Returns the number of retained unexpired replay identifiers.
    pub fn len(&self) -> (n: usize)
        ensures
            n == self@.entries.len(),
    {
        self.entries.len()
    }

    /// Returns whether no replay identifiers are retained.
    pub fn is_empty(&self) -> (b: bool)
        ensures
            b == (self@.entries.len() == 0),
    {
        self.entries.len() == 0
    }
}

/// After an identifier has been recorded, presenting it again at any time up to its expiry is
/// rejected as a replay.
pub proof fn lemma_replay_rejected(cache: ReplayCacheView, id: Seq<u8>, expires_at_unix: u64, now_unix: u64, later_expiry: u64, later_unix: u64)
    requires
        replay_step(cache, id, expires_at_unix, now_unix).1 is Ok,
        later_unix <= expires_at_unix,
    ensures
        replay_step(replay_step(cache, id, expires_at_unix, now_unix).0, id, later_expiry, later_unix).1
            == Err::<(), MefError>(MefError::ReplayDetected),
{
    let after = replay_step(cache, id, expires_at_unix, now_unix).0.entries;
    let live = live_entries(cache.entries, now_unix);
    assert(after == live.push((id, expires_at_unix)));
    assert(after.drop_last() =~= live);
    let relive = live_entries(after, later_unix);
    assert(relive.last() == (id, expires_at_unix));
    assert(relive[relive.len() - 1].0 == id);
}

/// The live entries are exactly the entries whose expiry is not before `now_unix`.
proof fn lemma_live_members(entries: Seq<(Seq<u8>, u64)>, now_unix: u64)
    ensures
        forall|k: int| 0 <= k < live_entries(entries, now_unix).len() ==> {
            let e = #[trigger] live_entries(entries, now_unix)[k];
            e.1 >= now_unix && exists|j: int| 0 <= j < entries.len() && entries[j] == e
        },
        forall|j: int| 0 <= j < entries.len() && (#[trigger] entries[j]).1 >= now_unix
            ==> exists|k: int| 0 <= k < live_entries(entries, now_unix).len() && live_entries(entries, now_unix)[k] == entries[j],
    decreases entries.len(),
{
    if entries.len() > 0 {
        let init = entries.drop_last();
        lemma_live_members(init, now_unix);
        let rest = live_entries(init, now_unix);
        let live = live_entries(entries, now_unix);
        assert forall|k: int| 0 <= k < live.len() implies {
            let e = #[trigger] live[k];
            e.1 >= now_unix && exists|j: int| 0 <= j < entries.len() && entries[j] == e
        } by {
            if k < rest.len() {
                assert(live[k] == rest[k]);
                let e = rest[k];
                let j = choose|j: int| 0 <= j < init.len() && init[j] == e;
                assert(entries[j] == init[j]);
            } else {
                assert(live[k] == entries.last());
                assert(entries[entries.len() - 1] == entries.last());
            }
        }
        assert forall|j: int| 0 <= j < entries.len() && (#[trigger] entries[j]).1 >= now_unix
            implies exists|k: int| 0 <= k < live.len() && live[k] == entries[j] by {
            if j < init.len() {
                assert(init[j] == entries[j]);
                let k = choose|k: int| 0 <= k < rest.len() && rest[k] == init[j];
                assert(live[k] == rest[k]);
            } else {
                assert(live[live.len() - 1] == entries.last());
            }
        }
    }
}

/// An identifier is rejected as a replay exactly when some entry of the cache that has not
/// expired at `now_unix` records it, wherever that entry stands; a rejected identifier is not
/// recorded again, and only expired entries are dropped.
pub proof fn lemma_replay_detected_iff_live_duplicate(cache: ReplayCacheView, id: Seq<u8>, expires_at_unix: u64, now_unix: u64)
    ensures
        (replay_step(cache, id, expires_at_unix, now_unix).1 == Err::<(), MefError>(MefError::ReplayDetected))
            <==> exists|j: int| 0 <= j < cache.entries.len() && (#[trigger] cache.entries[j]).0 == id && cache.entries[j].1 >= now_unix,
        replay_step(cache, id, expires_at_unix, now_unix).1 == Err::<(), MefError>(MefError::ReplayDetected)
            ==> replay_step(cache, id, expires_at_unix, now_unix).0 == (ReplayCacheView {
                capacity: cache.capacity,
                entries: live_entries(cache.entries, now_unix),
            }),
{
    lemma_live_members(cache.entries, now_unix);
    let live = live_entries(cache.entries, now_unix);
    if exists|j: int| 0 <= j < cache.entries.len() && (#[trigger] cache.entries[j]).0 == id && cache.entries[j].1 >= now_unix {
        let j = choose|j: int| 0 <= j < cache.entries.len() && (#[trigger] cache.entries[j]).0 == id && cache.entries[j].1 >= now_unix;
        let k = choose|k: int| 0 <= k < live.len() && live[k] == cache.entries[j];
        assert(live[k].0 == id);
        assert(records(live, id));
    }
    if records(live, id) {
        let k = choose|k: int| 0 <= k < live.len() && live[k].0 == id;
        let e = live[k];
        assert(e.1 >= now_unix);
        let j = choose|j: int| 0 <= j < cache.entries.len() && cache.entries[j] == e;
        assert(cache.entries[j].0 == id && cache.entries[j].1 >= now_unix);
    }
}

/// An identifier is recorded exactly when no unexpired entry records it and fewer unexpired
/// entries than the capacity remain; it is then appended, with its expiry, after the unexpired
/// entries, so the cache afterwards holds it and every entry that had not expired.
pub proof fn lemma_replay_recorded(cache: ReplayCacheView, id: Seq<u8>, expires_at_unix: u64, now_unix: u64)
    ensures
        (replay_step(cache, id, expires_at_unix, now_unix).1 is Ok) <==> (
            !(exists|j: int| 0 <= j < cache.entries.len() && (#[trigger] cache.entries[j]).0 == id && cache.entries[j].1 >= now_unix)
            && live_entries(cache.entries, now_unix).len() < cache.capacity),
        replay_step(cache, id, expires_at_unix, now_unix).1 is Ok ==> {
            let after = replay_step(cache, id, expires_at_unix, now_unix).0.entries;
            &&& after.last() == (id, expires_at_unix)
            &&& forall|j: int| 0 <= j < cache.entries.len() && (#[trigger] cache.entries[j]).1 >= now_unix
                ==> exists|k: int| 0 <= k < after.len() && after[k] == cache.entries[j]
        },
{
    let live = live_entries(cache.entries, now_unix);
    let step = replay_step(cache, id, expires_at_unix, now_unix);
    assert(step.1 is Ok <==> (!records(live, id) && live.len() < cache.capacity));
    assert(records(live, id) <==> exists|j: int| 0 <= j < cache.entries.len() && (#[trigger] cache.entries[j]).0 == id
        && cache.entries[j].1 >= now_unix) by {
        lemma_replay_detected_iff_live_duplicate(cache, id, expires_at_unix, now_unix);
    }
    if step.1 is Ok {
        let after = live.push((id, expires_at_unix));
        assert(step.0.entries == after);
        assert forall|j: int| 0 <= j < cache.entries.len() && (#[trigger] cache.entries[j]).1 >= now_unix
            implies exists|k: int| 0 <= k < after.len() && after[k] == cache.entries[j] by {
            lemma_live_members(cache.entries, now_unix);
            let k = choose|k: int| 0 <= k < live.len() && live[k] == cache.entries[j];
            assert(after[k] == live[k]);
        }
    }
}

} // verus!
