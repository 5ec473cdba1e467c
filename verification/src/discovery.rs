//! Local peer discovery: who has announced itself lately, who is new, and
//! whose announcements have run out.

use vstd::prelude::*;
use crate::peer::{copy_bytes, PeerId};
use crate::timer::{due_time, PeriodicTimer};

verus! {

/// A peer record as the contracts see it.
pub struct RecordView {
    pub peer: Seq<u8>,
    pub address: Seq<u8>,
    pub last_seen: u64,
}

/// What is known of a discovered peer: its identifier, the address it
/// announced, and when it was last heard.
#[derive(Debug, PartialEq, Eq)]
pub struct PeerRecord {
    pub peer: PeerId,
    pub address: Vec<u8>,
    pub last_seen: u64,
}

impl View for PeerRecord {
    type V = RecordView;

    open spec fn view(&self) -> RecordView {
        RecordView { peer: self.peer@, address: self.address@, last_seen: self.last_seen }
    }
}

impl Clone for PeerRecord {
    fn clone(&self) -> (copy: PeerRecord)
        ensures
            copy@ == self@,
    {
        PeerRecord {
            peer: self.peer.clone(),
            address: copy_bytes(&self.address),
            last_seen: self.last_seen,
        }
    }
}

/// A discovery event as the contracts see it.
pub enum DiscoveryEventView {
    PeerJoined(Seq<u8>),
    PeerExpired(Seq<u8>),
}

/// What discovery reports: a peer that was not known announced itself, or a
/// known peer's time to live ran out.
#[derive(Debug, PartialEq, Eq)]
pub enum DiscoveryEvent {
    PeerJoined(PeerId),
    PeerExpired(PeerId),
}

impl View for DiscoveryEvent {
    type V = DiscoveryEventView;

    open spec fn view(&self) -> DiscoveryEventView {
        match self {
            DiscoveryEvent::PeerJoined(p) => DiscoveryEventView::PeerJoined(p@),
            DiscoveryEvent::PeerExpired(p) => DiscoveryEventView::PeerExpired(p@),
        }
    }
}

/// The records of a vector, each by its view.
pub open spec fn record_views(records: Seq<PeerRecord>) -> Seq<RecordView> {
    Seq::new(records.len(), |i: int| records[i]@)
}

/// The events of a vector, each by its view.
pub open spec fn event_views(events: Seq<DiscoveryEvent>) -> Seq<DiscoveryEventView> {
    Seq::new(events.len(), |i: int| events[i]@)
}

/// No two records are about the same peer.
pub open spec fn distinct_peers(records: Seq<RecordView>) -> bool {
    forall|i: int, j: int|
        0 <= i < j < records.len() ==> (#[trigger] records[i]).peer != (#[trigger] records[j]).peer
}

/// Tells whether there is a record about `peer`.
pub open spec fn known_in(records: Seq<RecordView>, peer: Seq<u8>) -> bool {
    exists|i: int| 0 <= i < records.len() && (#[trigger] records[i]).peer == peer
}

/// A record last heard at `last_seen` has run out at `now` once `ttl` or
/// more has passed since.
pub open spec fn has_expired(last_seen: u64, now: u64, ttl: u64) -> bool {
    now - last_seen >= ttl
}

/// The records with the one about `fresh.peer` replaced by `fresh`.
pub open spec fn refreshed(records: Seq<RecordView>, fresh: RecordView) -> Seq<RecordView> {
    Seq::new(
        records.len(),
        |i: int|
            if records[i].peer == fresh.peer {
                fresh
            } else {
                records[i]
            },
    )
}

/// The records after an announcement: a known peer's record is replaced, an
/// unknown peer's record is added at the end.
pub open spec fn announced(records: Seq<RecordView>, fresh: RecordView) -> Seq<RecordView> {
    if known_in(records, fresh.peer) {
        refreshed(records, fresh)
    } else {
        records.push(fresh)
    }
}

/// The records that have not run out at `now`, in order.
pub open spec fn survivors(records: Seq<RecordView>, now: u64, ttl: u64) -> Seq<RecordView>
    decreases records.len(),
{
    if records.len() == 0 {
        Seq::empty()
    } else {
        let rest = survivors(records.drop_last(), now, ttl);
        if has_expired(records.last().last_seen, now, ttl) {
            rest
        } else {
            rest.push(records.last())
        }
    }
}

/// One expiry event for each record that has run out at `now`, in order.
pub open spec fn expiries(records: Seq<RecordView>, now: u64, ttl: u64) -> Seq<DiscoveryEventView>
    decreases records.len(),
{
    if records.len() == 0 {
        Seq::empty()
    } else {
        let rest = expiries(records.drop_last(), now, ttl);
        if has_expired(records.last().last_seen, now, ttl) {
            rest.push(DiscoveryEventView::PeerExpired(records.last().peer))
        } else {
            rest
        }
    }
}

/// A record survives a sweep exactly if it was there and has not run out.
pub proof fn lemma_survivors_membership(
    records: Seq<RecordView>,
    now: u64,
    ttl: u64,
    record: RecordView,
)
    ensures
        survivors(records, now, ttl).contains(record) <==> (records.contains(record)
            && !has_expired(record.last_seen, now, ttl)),
    decreases records.len(),
{
    let kept = survivors(records, now, ttl);
    if records.len() > 0 {
        let front = records.drop_last();
        let rest = survivors(front, now, ttl);
        lemma_survivors_membership(front, now, ttl, record);
        if kept.contains(record) {
            let k = choose|k: int| 0 <= k < kept.len() && kept[k] == record;
            if k < rest.len() {
                assert(rest[k] == record);
                let j = choose|j: int| 0 <= j < front.len() && front[j] == record;
                assert(records[j] == record);
            } else {
                assert(records[records.len() - 1] == record);
            }
        }
        if records.contains(record) && !has_expired(record.last_seen, now, ttl) {
            let j = choose|j: int| 0 <= j < records.len() && records[j] == record;
            if j < front.len() {
                assert(front[j] == record);
                let k = choose|k: int| 0 <= k < rest.len() && rest[k] == record;
                assert(kept[k] == record);
            } else {
                assert(kept[kept.len() - 1] == record);
            }
        }
    }
}

/// A peer's expiry is reported exactly if a record about it has run out.
pub proof fn lemma_expiries_membership(
    records: Seq<RecordView>,
    now: u64,
    ttl: u64,
    peer: Seq<u8>,
)
    ensures
        expiries(records, now, ttl).contains(DiscoveryEventView::PeerExpired(peer)) <==> (exists|
            i: int,
        |
            0 <= i < records.len() && (#[trigger] records[i]).peer == peer && has_expired(
                records[i].last_seen,
                now,
                ttl,
            )),
        forall|k: int|
            0 <= k < expiries(records, now, ttl).len() ==> (#[trigger] expiries(
                records,
                now,
                ttl,
            )[k]) is PeerExpired,
    decreases records.len(),
{
    let gone = expiries(records, now, ttl);
    let event = DiscoveryEventView::PeerExpired(peer);
    if records.len() > 0 {
        let front = records.drop_last();
        let rest = expiries(front, now, ttl);
        lemma_expiries_membership(front, now, ttl, peer);
        if gone.contains(event) {
            let k = choose|k: int| 0 <= k < gone.len() && gone[k] == event;
            if k < rest.len() {
                assert(rest[k] == event);
                let i = choose|i: int|
                    0 <= i < front.len() && (#[trigger] front[i]).peer == peer && has_expired(
                        front[i].last_seen,
                        now,
                        ttl,
                    );
                assert(records[i].peer == peer);
            } else {
                assert(records[records.len() - 1].peer == peer);
            }
        }
        if exists|i: int|
            0 <= i < records.len() && (#[trigger] records[i]).peer == peer && has_expired(
                records[i].last_seen,
                now,
                ttl,
            ) {
            let i = choose|i: int|
                0 <= i < records.len() && (#[trigger] records[i]).peer == peer && has_expired(
                    records[i].last_seen,
                    now,
                    ttl,
                );
            if i < front.len() {
                assert(front[i].peer == peer);
                let k = choose|k: int| 0 <= k < rest.len() && rest[k] == event;
                assert(gone[k] == event);
            } else {
                assert(gone[gone.len() - 1] == event);
            }
        }
    }
}

/// A sweep keeps the records about distinct peers, and reports no peer's
/// expiry twice.
pub proof fn lemma_sweep_keeps_distinct(records: Seq<RecordView>, now: u64, ttl: u64)
    requires
        distinct_peers(records),
    ensures
        distinct_peers(survivors(records, now, ttl)),
        expiries(records, now, ttl).no_duplicates(),
    decreases records.len(),
{
    if records.len() > 0 {
        let front = records.drop_last();
        let last = records.last();
        assert forall|i: int, j: int| 0 <= i < j < front.len() implies (#[trigger] front[i]).peer
            != (#[trigger] front[j]).peer by {
            assert(records[i].peer != records[j].peer);
        }
        lemma_sweep_keeps_distinct(front, now, ttl);
        let kept = survivors(records, now, ttl);
        let rest = survivors(front, now, ttl);
        assert forall|i: int, j: int| 0 <= i < j < kept.len() implies (#[trigger] kept[i]).peer
            != (#[trigger] kept[j]).peer by {
            if j == rest.len() {
                assert(rest[i] == kept[i]);
                assert(rest.contains(kept[i]));
                lemma_survivors_membership(front, now, ttl, kept[i]);
                let k = choose|k: int| 0 <= k < front.len() && front[k] == kept[i];
                assert(records[k].peer != records[records.len() - 1].peer);
            } else {
                assert(rest[i] == kept[i] && rest[j] == kept[j]);
            }
        }
        let gone = expiries(records, now, ttl);
        let gone_front = expiries(front, now, ttl);
        assert forall|i: int, j: int| 0 <= i < gone.len() && 0 <= j < gone.len() && i != j implies gone[i]
            != gone[j] by {
            if i < gone_front.len() && j < gone_front.len() {
                assert(gone_front[i] == gone[i] && gone_front[j] == gone[j]);
            } else {
                let low = if i < j { i } else { j };
                assert(gone_front[low] == gone[low]);
                assert(gone_front.contains(gone[low]));
                lemma_expiries_membership(front, now, ttl, last.peer);
                if gone[low] == DiscoveryEventView::PeerExpired(last.peer) {
                    let k = choose|k: int|
                        0 <= k < front.len() && (#[trigger] front[k]).peer == last.peer
                            && has_expired(front[k].last_seen, now, ttl);
                    assert(records[k].peer != records[records.len() - 1].peer);
                }
            }
        }
    }
}

/// A peer whose record has run out is not known after the sweep, so no later
/// sweep reports it again unless it announces itself anew.
pub proof fn lemma_expired_peer_is_forgotten(
    records: Seq<RecordView>,
    now: u64,
    ttl: u64,
    peer: Seq<u8>,
    later: u64,
)
    requires
        distinct_peers(records),
        expiries(records, now, ttl).contains(DiscoveryEventView::PeerExpired(peer)),
    ensures
        !known_in(survivors(records, now, ttl), peer),
        !expiries(survivors(records, now, ttl), later, ttl).contains(
            DiscoveryEventView::PeerExpired(peer),
        ),
{
    let kept = survivors(records, now, ttl);
    lemma_expiries_membership(records, now, ttl, peer);
    let i = choose|i: int|
        0 <= i < records.len() && (#[trigger] records[i]).peer == peer && has_expired(
            records[i].last_seen,
            now,
            ttl,
        );
    if known_in(kept, peer) {
        let k = choose|k: int| 0 <= k < kept.len() && (#[trigger] kept[k]).peer == peer;
        assert(kept.contains(kept[k]));
        lemma_survivors_membership(records, now, ttl, kept[k]);
        let j = choose|j: int| 0 <= j < records.len() && records[j] == kept[k];
        if i < j {
            assert(records[i].peer != records[j].peer);
        } else if j < i {
            assert(records[j].peer != records[i].peer);
        }
    }
    lemma_expiries_membership(kept, later, ttl, peer);
}

/// A known peer that keeps announcing itself is reported as joined only
/// once: an announcement of a known peer leaves it known and adds no record.
pub proof fn lemma_announcement_keeps_known(records: Seq<RecordView>, fresh: RecordView)
    requires
        distinct_peers(records),
    ensures
        distinct_peers(announced(records, fresh)),
        known_in(announced(records, fresh), fresh.peer),
        forall|other: Seq<u8>|
            known_in(announced(records, fresh), other) <==> (known_in(records, other) || other
                == fresh.peer),
        known_in(records, fresh.peer) ==> announced(records, fresh).len() == records.len(),
{
    let after = announced(records, fresh);
    if known_in(records, fresh.peer) {
        let i = choose|i: int| 0 <= i < records.len() && (#[trigger] records[i]).peer == fresh.peer;
        assert(after[i].peer == fresh.peer);
        assert forall|a: int, b: int| 0 <= a < b < after.len() implies (#[trigger] after[a]).peer
            != (#[trigger] after[b]).peer by {
            assert(records[a].peer != records[b].peer);
            assert(after[a].peer == records[a].peer);
            assert(after[b].peer == records[b].peer);
        }
        assert forall|other: Seq<u8>| known_in(after, other) <==> (known_in(records, other)
            || other == fresh.peer) by {
            if known_in(after, other) {
                let k = choose|k: int| 0 <= k < after.len() && (#[trigger] after[k]).peer == other;
                assert(records[k].peer == other);
            }
            if known_in(records, other) {
                let k = choose|k: int|
                    0 <= k < records.len() && (#[trigger] records[k]).peer == other;
                assert(after[k].peer == other);
            }
        }
    } else {
        assert(after[records.len() as int].peer == fresh.peer);
        assert forall|a: int, b: int| 0 <= a < b < after.len() implies (#[trigger] after[a]).peer
            != (#[trigger] after[b]).peer by {
            if b == records.len() {
                assert(records[a].peer != fresh.peer);
            } else {
                assert(records[a].peer != records[b].peer);
            }
        }
        assert forall|other: Seq<u8>| known_in(after, other) <==> (known_in(records, other)
            || other == fresh.peer) by {
            if known_in(after, other) {
                let k = choose|k: int| 0 <= k < after.len() && (#[trigger] after[k]).peer == other;
                if k < records.len() {
                    assert(records[k].peer == other);
                }
            }
            if known_in(records, other) {
                let k = choose|k: int|
                    0 <= k < records.len() && (#[trigger] records[k]).peer == other;
                assert(after[k].peer == other);
            }
        }
    }
}

/// What is to be done when discovery is asked at some time.
#[derive(Debug, PartialEq, Eq)]
pub struct DiscoveryPoll {
    /// The local peer's presence is to be announced now.
    pub announce: bool,
    /// The peers that a sweep has just removed.
    pub expired: Vec<DiscoveryEvent>,
}

/// The discovery state: one record for each peer that is present, the time
/// to live of a record, and the timers for announcing and for sweeping.
#[derive(Debug)]
pub struct Discovery {
    pub records: Vec<PeerRecord>,
    pub ttl: u64,
    pub announce_timer: PeriodicTimer,
    pub sweep_timer: PeriodicTimer,
}

impl View for Discovery {
    type V = Seq<RecordView>;

    open spec fn view(&self) -> Seq<RecordView> {
        record_views(self.records@)
    }
}

impl Discovery {
    /// No two records are about the same peer.
    pub open spec fn wf(&self) -> bool {
        distinct_peers(self@)
    }

    /// Tells whether `peer` is present.
    pub open spec fn knows(&self, peer: Seq<u8>) -> bool {
        known_in(self@, peer)
    }

    /// A discovery state that knows nobody, started at `now`. The local
    /// peer is to be announced every `announce_every` time units and the
    /// records are to be swept every `sweep_every`.
    pub fn new(ttl: u64, announce_every: u64, sweep_every: u64, now: u64) -> (state: Discovery)
        ensures
            state.wf(),
            state@ == Seq::<RecordView>::empty(),
            state.ttl == ttl,
            state.announce_timer == (PeriodicTimer {
                period: announce_every,
                next_due: due_time(now, announce_every),
            }),
            state.sweep_timer == (PeriodicTimer {
                period: sweep_every,
                next_due: due_time(now, sweep_every),
            }),
    {
        let state = Discovery {
            records: Vec::new(),
            ttl,
            announce_timer: PeriodicTimer::new(announce_every, now),
            sweep_timer: PeriodicTimer::new(sweep_every, now),
        };
        assert(state@ =~= Seq::<RecordView>::empty());
        state
    }

    /// Tells whether no two records are about the same peer.
    pub fn is_well_formed(&self) -> (ok: bool)
        ensures
            ok == self.wf(),
    {
        let mut j: usize = 0;
        while j < self.records.len()
            invariant
                j <= self.records.len(),
                forall|a: int, b: int|
                    0 <= a < b < j ==> (#[trigger] self@[a]).peer != (#[trigger] self@[b]).peer,
            decreases self.records.len() - j,
        {
            let mut i: usize = 0;
            while i < j
                invariant
                    i <= j < self.records.len(),
                    forall|a: int| 0 <= a < i ==> (#[trigger] self@[a]).peer != self@[j as int].peer,
                decreases j - i,
            {
                if self.records[i].peer.same(&self.records[j].peer) {
                    assert(self@[i as int].peer == self@[j as int].peer);
                    return false;
                }
                i += 1;
            }
            j += 1;
        }
        true
    }

    /// The number of peers that are present.
    pub fn len(&self) -> (n: usize)
        ensures
            n == self@.len(),
    {
        self.records.len()
    }

    /// The place of the record about `peer`, if there is one.
    pub fn find(&self, peer: &PeerId) -> (at: Option<usize>)
        ensures
            at is Some <==> self.knows(peer@),
            at matches Some(i) ==> i < self@.len() && self@[i as int].peer == peer@,
    {
        let mut i: usize = 0;
        while i < self.records.len()
            invariant
                i <= self.records.len(),
                forall|k: int| 0 <= k < i ==> (#[trigger] self@[k]).peer != peer@,
            decreases self.records.len() - i,
        {
            if self.records[i].peer.same(peer) {
                assert(self@[i as int].peer == peer@);
                return Some(i);
            }
            i += 1;
        }
        None
    }

    /// Takes in an announcement from `peer`, heard at `now`. The peer's
    /// record is made or refreshed; the peer is reported as joined exactly
    /// if it was not known.
    pub fn on_announcement(
        &mut self,
        peer: PeerId,
        address: Vec<u8>,
        now: u64,
    ) -> (joined: Option<DiscoveryEvent>)
        requires
            old(self).wf(),
        ensures
            final(self).wf(),
            final(self).ttl == old(self).ttl,
            final(self).announce_timer == old(self).announce_timer,
            final(self).sweep_timer == old(self).sweep_timer,
            final(self)@ == announced(
                old(self)@,
                RecordView { peer: peer@, address: address@, last_seen: now },
            ),
            joined is Some <==> !old(self).knows(peer@),
            joined matches Some(event) ==> event@ == DiscoveryEventView::PeerJoined(peer@),
            final(self).knows(peer@),
    {
        let ghost before = self@;
        let ghost fresh = RecordView { peer: peer@, address: address@, last_seen: now };
        proof {
            lemma_announcement_keeps_known(before, fresh);
        }
        match self.find(&peer) {
            Some(i) => {
                self.records.set(i, PeerRecord { peer, address, last_seen: now });
                assert forall|k: int| 0 <= k < before.len() implies self@[k] == refreshed(
                    before,
                    fresh,
                )[k] by {
                    if k < i {
                        assert(before[k].peer != before[i as int].peer);
                    } else if k > i {
                        assert(before[i as int].peer != before[k].peer);
                    }
                }
                assert(self@ =~= refreshed(before, fresh));
                None
            },
            None => {
                let event = DiscoveryEvent::PeerJoined(peer.clone());
                self.records.push(PeerRecord { peer, address, last_seen: now });
                assert(self@ =~= before.push(fresh));
                Some(event)
            },
        }
    }

    /// Removes every record that has run out at `now` and reports each
    /// removed peer once, in the order of the records.
    pub fn sweep(&mut self, now: u64) -> (expired: Vec<DiscoveryEvent>)
        requires
            old(self).wf(),
        ensures
            final(self).wf(),
            final(self).ttl == old(self).ttl,
            final(self).announce_timer == old(self).announce_timer,
            final(self).sweep_timer == old(self).sweep_timer,
            final(self)@ == survivors(old(self)@, now, old(self).ttl),
            event_views(expired@) == expiries(old(self)@, now, old(self).ttl),
            event_views(expired@).no_duplicates(),
    {
        let ghost before = self@;
        let mut kept: Vec<PeerRecord> = Vec::new();
        let mut expired: Vec<DiscoveryEvent> = Vec::new();
        let mut i: usize = 0;
        assert(before.take(0) =~= Seq::<RecordView>::empty());
        assert(record_views(kept@) =~= Seq::<RecordView>::empty());
        assert(event_views(expired@) =~= Seq::<DiscoveryEventView>::empty());
        while i < self.records.len()
            invariant
                i <= self.records.len(),
                self@ == before,
                record_views(kept@) == survivors(before.take(i as int), now, self.ttl),
                event_views(expired@) == expiries(before.take(i as int), now, self.ttl),
            decreases self.records.len() - i,
        {
            let record = &self.records[i];
            proof {
                let next = before.take(i as int + 1);
                assert(next.drop_last() =~= before.take(i as int));
                assert(next.last() == record@);
            }
            let ghost kept_before = record_views(kept@);
            let ghost expired_before = event_views(expired@);
            if now >= record.last_seen && now - record.last_seen >= self.ttl {
                expired.push(DiscoveryEvent::PeerExpired(record.peer.clone()));
                assert(event_views(expired@) =~= expired_before.push(
                    DiscoveryEventView::PeerExpired(record@.peer),
                ));
            } else {
                kept.push(record.clone());
                assert(record_views(kept@) =~= kept_before.push(record@));
            }
            i += 1;
        }
        assert(before.take(self.records.len() as int) =~= before);
        proof {
            lemma_sweep_keeps_distinct(before, now, self.ttl);
        }
        self.records = kept;
        expired
    }

    /// Asks both timers at `now`. If the announcement is due, the caller is
    /// told to announce the local peer; a failure to send it is the caller's
    /// to ignore. If the sweep is due, it is made.
    pub fn poll(&mut self, now: u64) -> (due: DiscoveryPoll)
        requires
            old(self).wf(),
        ensures
            final(self).wf(),
            final(self).ttl == old(self).ttl,
            final(self).announce_timer == old(self).announce_timer.after(now),
            final(self).sweep_timer == old(self).sweep_timer.after(now),
            due.announce == old(self).announce_timer.is_due(now),
            final(self)@ == polled_records(old(self)@, old(self).sweep_timer, old(self).ttl, now),
            event_views(due.expired@) == polled_events(
                old(self)@,
                old(self).sweep_timer,
                old(self).ttl,
                now,
            ),
            event_views(due.expired@).no_duplicates(),
    {
        let announce = self.announce_timer.fire(now);
        let expired = if self.sweep_timer.fire(now) {
            self.sweep(now)
        } else {
            let none: Vec<DiscoveryEvent> = Vec::new();
            assert(event_views(none@) =~= Seq::<DiscoveryEventView>::empty());
            none
        };
        DiscoveryPoll { announce, expired }
    }
}

/// The records after discovery was asked at `now`: swept if the sweep was
/// due.
pub open spec fn polled_records(
    records: Seq<RecordView>,
    sweep_timer: PeriodicTimer,
    ttl: u64,
    now: u64,
) -> Seq<RecordView> {
    if sweep_timer.is_due(now) {
        survivors(records, now, ttl)
    } else {
        records
    }
}

/// The expiries reported when discovery was asked at `now`: those of the
/// sweep if it was due.
pub open spec fn polled_events(
    records: Seq<RecordView>,
    sweep_timer: PeriodicTimer,
    ttl: u64,
    now: u64,
) -> Seq<DiscoveryEventView> {
    if sweep_timer.is_due(now) {
        expiries(records, now, ttl)
    } else {
        Seq::empty()
    }
}

} // verus!
