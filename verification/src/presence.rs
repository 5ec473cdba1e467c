//! Discovery over time: any run of announcements and sweeps reports each
//! stretch of a peer's presence by one join and ends it by one expiry.

use vstd::prelude::*;
use crate::discovery::{
    announced, distinct_peers, expiries, has_expired, known_in, lemma_announcement_keeps_known,
    lemma_expiries_membership, lemma_survivors_membership, lemma_sweep_keeps_distinct, survivors,
    DiscoveryEventView, RecordView,
};

verus! {

/// What discovery is fed: an announcement that was heard, given as the
/// record it makes, or a sweep at a given time.
pub enum DiscoveryInput {
    Announcement(RecordView),
    Sweep(u64),
}

/// The records after one input.
pub open spec fn records_after(
    records: Seq<RecordView>,
    ttl: u64,
    input: DiscoveryInput,
) -> Seq<RecordView> {
    match input {
        DiscoveryInput::Announcement(fresh) => announced(records, fresh),
        DiscoveryInput::Sweep(now) => survivors(records, now, ttl),
    }
}

/// The events that one input leads to.
pub open spec fn events_after(
    records: Seq<RecordView>,
    ttl: u64,
    input: DiscoveryInput,
) -> Seq<DiscoveryEventView> {
    match input {
        DiscoveryInput::Announcement(fresh) => if known_in(records, fresh.peer) {
            Seq::empty()
        } else {
            seq![DiscoveryEventView::PeerJoined(fresh.peer)]
        },
        DiscoveryInput::Sweep(now) => expiries(records, now, ttl),
    }
}

/// The records after a run of inputs.
pub open spec fn trace_records(records: Seq<RecordView>, ttl: u64, inputs: Seq<DiscoveryInput>)
    -> Seq<RecordView>
    decreases inputs.len(),
{
    if inputs.len() == 0 {
        records
    } else {
        records_after(trace_records(records, ttl, inputs.drop_last()), ttl, inputs.last())
    }
}

/// All events of a run of inputs, in order.
pub open spec fn trace_events(records: Seq<RecordView>, ttl: u64, inputs: Seq<DiscoveryInput>)
    -> Seq<DiscoveryEventView>
    decreases inputs.len(),
{
    if inputs.len() == 0 {
        Seq::empty()
    } else {
        trace_events(records, ttl, inputs.drop_last()) + events_after(
            trace_records(records, ttl, inputs.drop_last()),
            ttl,
            inputs.last(),
        )
    }
}

/// How often `event` occurs among `events`.
pub open spec fn occurrences(events: Seq<DiscoveryEventView>, event: DiscoveryEventView) -> nat
    decreases events.len(),
{
    if events.len() == 0 {
        0
    } else {
        occurrences(events.drop_last(), event) + if events.last() == event {
            1nat
        } else {
            0nat
        }
    }
}

/// One if `peer` is present, zero if not.
pub open spec fn presence(records: Seq<RecordView>, peer: Seq<u8>) -> nat {
    if known_in(records, peer) {
        1
    } else {
        0
    }
}

/// Occurrences add up over two runs of events put end to end.
pub proof fn lemma_occurrences_add(
    a: Seq<DiscoveryEventView>,
    b: Seq<DiscoveryEventView>,
    event: DiscoveryEventView,
)
    ensures
        occurrences(a + b, event) == occurrences(a, event) + occurrences(b, event),
    decreases b.len(),
{
    if b.len() == 0 {
        assert(a + b =~= a);
    } else {
        assert((a + b).drop_last() =~= a + b.drop_last());
        assert((a + b).last() == b.last());
        lemma_occurrences_add(a, b.drop_last(), event);
    }
}

/// An event that is not among the events occurs zero times; one that is
/// among events without repeats occurs once.
pub proof fn lemma_occurrences_without_repeats(
    events: Seq<DiscoveryEventView>,
    event: DiscoveryEventView,
)
    ensures
        !events.contains(event) ==> occurrences(events, event) == 0,
        events.no_duplicates() && events.contains(event) ==> occurrences(events, event) == 1,
    decreases events.len(),
{
    if events.len() > 0 {
        let front = events.drop_last();
        lemma_occurrences_without_repeats(front, event);
        if !events.contains(event) {
            if front.contains(event) {
                let k = choose|k: int| 0 <= k < front.len() && front[k] == event;
                assert(events[k] == event);
            }
            assert(events[events.len() - 1] != event);
        }
        if events.no_duplicates() && events.contains(event) {
            assert forall|i: int, j: int|
                0 <= i < front.len() && 0 <= j < front.len() && i != j implies front[i]
                != front[j] by {
                assert(events[i] != events[j]);
            }
            let k = choose|k: int| 0 <= k < events.len() && events[k] == event;
            if events.last() == event {
                if front.contains(event) {
                    let j = choose|j: int| 0 <= j < front.len() && front[j] == event;
                    assert(events[j] == events[events.len() - 1]);
                }
            } else {
                assert(front[k] == event);
            }
        }
    }
}

/// After a sweep a peer is present exactly if it has a record that has not
/// run out.
pub proof fn lemma_survivors_known(records: Seq<RecordView>, now: u64, ttl: u64, peer: Seq<u8>)
    ensures
        known_in(survivors(records, now, ttl), peer) <==> (exists|i: int|
            0 <= i < records.len() && (#[trigger] records[i]).peer == peer && !has_expired(
                records[i].last_seen,
                now,
                ttl,
            )),
{
    let kept = survivors(records, now, ttl);
    if known_in(kept, peer) {
        let k = choose|k: int| 0 <= k < kept.len() && (#[trigger] kept[k]).peer == peer;
        assert(kept.contains(kept[k]));
        lemma_survivors_membership(records, now, ttl, kept[k]);
        let i = choose|i: int| 0 <= i < records.len() && records[i] == kept[k];
        assert(records[i].peer == peer);
    }
    if exists|i: int|
        0 <= i < records.len() && (#[trigger] records[i]).peer == peer && !has_expired(
            records[i].last_seen,
            now,
            ttl,
        ) {
        let i = choose|i: int|
            0 <= i < records.len() && (#[trigger] records[i]).peer == peer && !has_expired(
                records[i].last_seen,
                now,
                ttl,
            );
        assert(records.contains(records[i]));
        lemma_survivors_membership(records, now, ttl, records[i]);
        let k = choose|k: int| 0 <= k < kept.len() && kept[k] == records[i];
        assert(kept[k].peer == peer);
    }
}

/// One input keeps the books of every peer balanced: being present before
/// plus joins reported equals expiries reported plus being present after.
pub proof fn lemma_input_keeps_balance(
    records: Seq<RecordView>,
    ttl: u64,
    input: DiscoveryInput,
    peer: Seq<u8>,
)
    requires
        distinct_peers(records),
    ensures
        distinct_peers(records_after(records, ttl, input)),
        presence(records, peer) + occurrences(
            events_after(records, ttl, input),
            DiscoveryEventView::PeerJoined(peer),
        ) == occurrences(events_after(records, ttl, input), DiscoveryEventView::PeerExpired(peer))
            + presence(records_after(records, ttl, input), peer),
{
    let events = events_after(records, ttl, input);
    let joined = DiscoveryEventView::PeerJoined(peer);
    let expired = DiscoveryEventView::PeerExpired(peer);
    match input {
        DiscoveryInput::Announcement(fresh) => {
            lemma_announcement_keeps_known(records, fresh);
            if known_in(records, fresh.peer) {
            } else {
                assert(events.drop_last() =~= Seq::<DiscoveryEventView>::empty());
                assert(events.last() == DiscoveryEventView::PeerJoined(fresh.peer));
                assert(occurrences(events.drop_last(), joined) == 0);
                assert(occurrences(events.drop_last(), expired) == 0);
            }
        },
        DiscoveryInput::Sweep(now) => {
            lemma_sweep_keeps_distinct(records, now, ttl);
            lemma_expiries_membership(records, now, ttl, peer);
            lemma_survivors_known(records, now, ttl, peer);
            lemma_occurrences_without_repeats(events, joined);
            lemma_occurrences_without_repeats(events, expired);
            if events.contains(joined) {
                let k = choose|k: int| 0 <= k < events.len() && events[k] == joined;
                assert(events[k] is PeerExpired);
            }
            if known_in(records, peer) {
                let i = choose|i: int|
                    0 <= i < records.len() && (#[trigger] records[i]).peer == peer;
                assert forall|j: int|
                    0 <= j < records.len() && (#[trigger] records[j]).peer == peer implies j
                    == i by {
                    if j < i {
                        assert(records[j].peer != records[i].peer);
                    } else if i < j {
                        assert(records[i].peer != records[j].peer);
                    }
                }
            }
        },
    }
}

/// Over any run of announcements and sweeps the books of every peer stay
/// balanced: being present at the start plus the joins reported equals the
/// expiries reported plus being present at the end. So each stretch of
/// presence is reported by one join, and ended by one expiry.
pub proof fn lemma_presence_is_reported_once(
    records: Seq<RecordView>,
    ttl: u64,
    inputs: Seq<DiscoveryInput>,
    peer: Seq<u8>,
)
    requires
        distinct_peers(records),
    ensures
        distinct_peers(trace_records(records, ttl, inputs)),
        presence(records, peer) + occurrences(
            trace_events(records, ttl, inputs),
            DiscoveryEventView::PeerJoined(peer),
        ) == occurrences(trace_events(records, ttl, inputs), DiscoveryEventView::PeerExpired(peer))
            + presence(trace_records(records, ttl, inputs), peer),
    decreases inputs.len(),
{
    if inputs.len() > 0 {
        let front = inputs.drop_last();
        let middle = trace_records(records, ttl, front);
        lemma_presence_is_reported_once(records, ttl, front, peer);
        lemma_input_keeps_balance(middle, ttl, inputs.last(), peer);
        lemma_occurrences_add(
            trace_events(records, ttl, front),
            events_after(middle, ttl, inputs.last()),
            DiscoveryEventView::PeerJoined(peer),
        );
        lemma_occurrences_add(
            trace_events(records, ttl, front),
            events_after(middle, ttl, inputs.last()),
            DiscoveryEventView::PeerExpired(peer),
        );
    }
}

} // verus!
