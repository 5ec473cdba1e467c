//! Content-derived message identifiers and the sliding-window cache that
//! suppresses repeats.

use std::collections::hash_map::DefaultHasher;
use std::hash::Hasher;
use vstd::prelude::*;
use vstd::std_specs::hash::DefaultHasherAdditionalSpecFns;

verus! {

/// The identifier of a payload: the hash of its bytes. Equal payloads have
/// equal identifiers.
pub open spec fn message_id_of(payload: Seq<u8>) -> u64 {
    DefaultHasher::spec_finish(seq![payload])
}

/// Computes the identifier of a payload.
pub fn message_id(payload: &Vec<u8>) -> (id: u64)
    ensures
        id == message_id_of(payload@),
{
    let mut hasher = DefaultHasher::new();
    hasher.write(payload.as_slice());
    proof {
        assert(hasher@ =~= seq![payload@]);
    }
    hasher.finish()
}

/// One remembered identifier and the time at which it was seen.
#[derive(Clone, Copy, Debug, PartialEq, Eq, Structural)]
pub struct SeenEntry {
    pub id: u64,
    pub seen: u64,
}

/// An entry seen at `seen` still counts at `now` while less than `window`
/// has passed since.
pub open spec fn within_window(seen: u64, now: u64, window: u64) -> bool {
    now - seen < window
}

/// The entries of `entries` that still count at `now`, in order.
pub open spec fn live_entries(entries: Seq<SeenEntry>, now: u64, window: u64) -> Seq<SeenEntry>
    decreases entries.len(),
{
    if entries.len() == 0 {
        Seq::empty()
    } else {
        let rest = live_entries(entries.drop_last(), now, window);
        if within_window(entries.last().seen, now, window) {
            rest.push(entries.last())
        } else {
            rest
        }
    }
}

/// Tells whether `entries` hold `id` with a time that still counts at `now`.
pub open spec fn suppressed_in(entries: Seq<SeenEntry>, id: u64, now: u64, window: u64) -> bool {
    exists|i: int|
        0 <= i < entries.len() && (#[trigger] entries[i]).id == id && within_window(
            entries[i].seen,
            now,
            window,
        )
}

/// The entries after `id` asked to be let through at `now`: those that still
/// count, and `id` with `now` behind them unless it was suppressed.
pub open spec fn observed_entries(
    entries: Seq<SeenEntry>,
    id: u64,
    now: u64,
    window: u64,
) -> Seq<SeenEntry> {
    let live = live_entries(entries, now, window);
    if suppressed_in(entries, id, now, window) {
        live
    } else {
        live.push(SeenEntry { id, seen: now })
    }
}

/// An entry is among the live entries exactly if it is among the entries and
/// still counts.
pub proof fn lemma_live_entries_membership(
    entries: Seq<SeenEntry>,
    now: u64,
    window: u64,
    entry: SeenEntry,
)
    ensures
        live_entries(entries, now, window).contains(entry) <==> (entries.contains(entry)
            && within_window(entry.seen, now, window)),
        live_entries(entries, now, window).len() <= entries.len(),
    decreases entries.len(),
{
    let live = live_entries(entries, now, window);
    if entries.len() == 0 {
    } else {
        let front = entries.drop_last();
        let rest = live_entries(front, now, window);
        lemma_live_entries_membership(front, now, window, entry);
        if live.contains(entry) {
            let k = choose|k: int| 0 <= k < live.len() && live[k] == entry;
            if k < rest.len() {
                assert(rest[k] == entry);
                let j = choose|j: int| 0 <= j < front.len() && front[j] == entry;
                assert(entries[j] == entry);
            } else {
                assert(entries[entries.len() - 1] == entry);
            }
        }
        if entries.contains(entry) && within_window(entry.seen, now, window) {
            let j = choose|j: int| 0 <= j < entries.len() && entries[j] == entry;
            if j < front.len() {
                assert(front[j] == entry);
                let k = choose|k: int| 0 <= k < rest.len() && rest[k] == entry;
                assert(live[k] == entry);
            } else {
                assert(live[live.len() - 1] == entry);
            }
        }
    }
}

/// Dropping the entries that no longer count changes nothing about which
/// identifiers are suppressed.
pub proof fn lemma_live_entries_suppress_alike(
    entries: Seq<SeenEntry>,
    id: u64,
    now: u64,
    window: u64,
)
    ensures
        suppressed_in(live_entries(entries, now, window), id, now, window) == suppressed_in(
            entries,
            id,
            now,
            window,
        ),
{
    let live = live_entries(entries, now, window);
    if suppressed_in(live, id, now, window) {
        let k = choose|k: int|
            0 <= k < live.len() && (#[trigger] live[k]).id == id && within_window(
                live[k].seen,
                now,
                window,
            );
        assert(live.contains(live[k]));
        lemma_live_entries_membership(entries, now, window, live[k]);
        let j = choose|j: int| 0 <= j < entries.len() && entries[j] == live[k];
        assert(entries[j].id == id);
    }
    if suppressed_in(entries, id, now, window) {
        let j = choose|j: int|
            0 <= j < entries.len() && (#[trigger] entries[j]).id == id && within_window(
                entries[j].seen,
                now,
                window,
            );
        assert(entries.contains(entries[j]));
        lemma_live_entries_membership(entries, now, window, entries[j]);
        let k = choose|k: int| 0 <= k < live.len() && live[k] == entries[j];
        assert(live[k].id == id);
    }
}

/// An entry that still counts at `later` is kept by whatever is observed at
/// a time between the entry's and `later`.
pub proof fn lemma_entry_survives_observation(
    entries: Seq<SeenEntry>,
    window: u64,
    entry: SeenEntry,
    id: u64,
    at: u64,
    later: u64,
)
    requires
        entries.contains(entry),
        entry.seen <= at <= later,
        within_window(entry.seen, later, window),
    ensures
        observed_entries(entries, id, at, window).contains(entry),
{
    let live = live_entries(entries, at, window);
    lemma_live_entries_membership(entries, at, window, entry);
    let k = choose|k: int| 0 <= k < live.len() && live[k] == entry;
    assert(observed_entries(entries, id, at, window)[k] == entry);
}

/// The identifiers seen lately. An identifier counts as seen for `window`
/// time units after it was recorded; older entries are dropped the next time
/// the cache is asked.
pub struct DedupCache {
    pub entries: Vec<SeenEntry>,
    pub window: u64,
}

impl DedupCache {
    /// An empty cache with the given window.
    pub fn new(window: u64) -> (cache: DedupCache)
        ensures
            cache.entries@ == Seq::<SeenEntry>::empty(),
            cache.window == window,
    {
        DedupCache { entries: Vec::new(), window }
    }

    /// Tells whether `id` was seen within the window before `now`.
    pub open spec fn suppresses(&self, id: u64, now: u64) -> bool {
        suppressed_in(self.entries@, id, now, self.window)
    }

    /// Tells whether `id` was seen within the window before `now`.
    pub fn is_duplicate(&self, id: u64, now: u64) -> (dup: bool)
        ensures
            dup == self.suppresses(id, now),
    {
        let mut i: usize = 0;
        while i < self.entries.len()
            invariant
                i <= self.entries.len(),
                forall|k: int|
                    0 <= k < i ==> !((#[trigger] self.entries@[k]).id == id && within_window(
                        self.entries@[k].seen,
                        now,
                        self.window,
                    )),
            decreases self.entries.len() - i,
        {
            let e = self.entries[i];
            if e.id == id && (now < e.seen || now - e.seen < self.window) {
                return true;
            }
            i += 1;
        }
        false
    }

    /// Drops the entries that no longer count at `now`.
    pub fn evict(&mut self, now: u64)
        ensures
            final(self).window == old(self).window,
            final(self).entries@ == live_entries(old(self).entries@, now, old(self).window),
    {
        let mut kept: Vec<SeenEntry> = Vec::new();
        let mut i: usize = 0;
        assert(self.entries@.take(0) =~= Seq::<SeenEntry>::empty());
        while i < self.entries.len()
            invariant
                i <= self.entries.len(),
                kept@ == live_entries(self.entries@.take(i as int), now, self.window),
            decreases self.entries.len() - i,
        {
            let e = self.entries[i];
            proof {
                let next = self.entries@.take(i as int + 1);
                assert(next.drop_last() =~= self.entries@.take(i as int));
                assert(next.last() == e);
            }
            if now < e.seen || now - e.seen < self.window {
                kept.push(e);
            }
            i += 1;
        }
        assert(self.entries@.take(self.entries.len() as int) =~= self.entries@);
        self.entries = kept;
    }

    /// Asks to let `id` through at `now`. A repeat within the window is
    /// refused and changes nothing but the eviction of old entries; anything
    /// else is let through and recorded with `now`.
    pub fn observe(&mut self, id: u64, now: u64) -> (fresh: bool)
        ensures
            final(self).window == old(self).window,
            fresh == !old(self).suppresses(id, now),
            final(self).entries@ == observed_entries(
                old(self).entries@,
                id,
                now,
                old(self).window,
            ),
            old(self).window > 0 ==> final(self).suppresses(id, now),
    {
        let ghost before = self.entries@;
        self.evict(now);
        proof {
            lemma_live_entries_suppress_alike(before, id, now, self.window);
        }
        if self.is_duplicate(id, now) {
            false
        } else {
            self.entries.push(SeenEntry { id, seen: now });
            assert(self.entries@[self.entries@.len() - 1].id == id);
            true
        }
    }
}

} // verus!
