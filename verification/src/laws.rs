//! What holds of the event loop over single events and over whole runs:
//! the kinds stay apart, unverified messages go nowhere, a new peer is
//! published to, and a payload passes once per window.

use vstd::prelude::*;
use crate::dedup::{
    lemma_entry_survives_observation, message_id_of, suppressed_in, within_window, SeenEntry,
};
use crate::discovery::DiscoveryEventView;
use crate::gossip::{DropReason, InboundView};
use crate::message::{data_message, MessageKind, MessageView};
use crate::transporter::{
    next_action, next_state, run_actions, run_state, ActionView, EventView, TimedEventView,
    TransportState,
};

verus! {

/// A status message never reaches the mesh: it is taken in locally and
/// changes nothing. Whatever is published is the payload of a submitted data
/// message, and nothing but a submitted message is ever published.
pub proof fn lemma_only_data_is_published(s: TransportState, event: EventView, now: u64)
    ensures
        next_action(s, event, now) is Publish ==> event is Outbound && event->Outbound_0.kind
            == MessageKind::Data && next_action(s, event, now)->Publish_payload
            == event->Outbound_0.payload,
        (event is Outbound && event->Outbound_0.kind == MessageKind::Status) ==> next_action(
            s,
            event,
            now,
        ) is Applied && next_state(s, event, now) == s,
{
}

/// A message from the mesh whose signature did not verify is dropped: it
/// is neither delivered nor published, and the state stays as it was.
pub proof fn lemma_unverified_inbound_is_dropped(s: TransportState, inbound: InboundView, now: u64)
    requires
        !inbound.verified,
    ensures
        next_action(s, EventView::Inbound(inbound), now) == ActionView::Dropped(
            DropReason::BadSignature,
        ),
        next_state(s, EventView::Inbound(inbound), now) == s,
{
}

/// A peer that joined is among the targets of the next publish that goes
/// out.
pub proof fn lemma_joined_peer_is_published_to(
    s: TransportState,
    peer: Seq<u8>,
    joined_at: u64,
    msg: MessageView,
    now: u64,
)
    ensures
        ({
            let after = next_state(
                s,
                EventView::Discovery(DiscoveryEventView::PeerJoined(peer)),
                joined_at,
            );
            next_action(after, EventView::Outbound(msg), now) matches ActionView::Publish {
                targets,
                ..
            } ==> targets.contains(peer)
        }),
{
}

/// In every run each action answers the event at its place, and the kinds
/// stay apart: what is published is the payload of a submitted data message,
/// a data message is delivered only for a verified message from the mesh,
/// with that message's sender and payload, and an unverified message from
/// the mesh is dropped.
pub proof fn lemma_run_keeps_kinds_apart(s: TransportState, events: Seq<TimedEventView>, k: int)
    requires
        0 <= k < run_actions(s, events).len(),
    ensures
        k < events.len(),
        run_actions(s, events)[k] matches ActionView::Publish { payload, .. } ==> (
        events[k].event matches EventView::Outbound(msg) && msg.kind == MessageKind::Data
            && msg.payload == payload),
        run_actions(s, events)[k] matches ActionView::Deliver(msg) ==> msg.kind
            == MessageKind::Data ==> (events[k].event matches EventView::Inbound(inbound)
            && inbound.verified && msg == data_message(inbound.source, inbound.payload)),
        events[k].event matches EventView::Inbound(inbound) ==> !inbound.verified
            ==> run_actions(s, events)[k] == ActionView::Dropped(DropReason::BadSignature),
    decreases events.len(),
{
    if events.len() > 0 && !(events[0].event is Cancelled) && k > 0 {
        let next = next_state(s, events[0].event, events[0].at);
        let rest = events.skip(1);
        assert(run_actions(s, events)[k] == run_actions(next, rest)[k - 1]);
        lemma_run_keeps_kinds_apart(next, rest, k - 1);
        assert(rest[k - 1] == events[k]);
    }
}

/// An identifier that the bus remembers, and that still counts at `later`,
/// is still remembered after any run of events that became ready between
/// the time it was seen and `later`.
pub proof fn lemma_entry_survives_run(
    s: TransportState,
    events: Seq<TimedEventView>,
    entry: SeenEntry,
    later: u64,
)
    requires
        s.seen.contains(entry),
        within_window(entry.seen, later, s.window),
        forall|k: int| 0 <= k < events.len() ==> entry.seen <= (#[trigger] events[k]).at <= later,
    ensures
        run_state(s, events).seen.contains(entry),
        run_state(s, events).window == s.window,
        suppressed_in(run_state(s, events).seen, entry.id, later, s.window),
    decreases events.len(),
{
    if events.len() == 0 || events[0].event is Cancelled {
        let k = choose|k: int| 0 <= k < s.seen.len() && s.seen[k] == entry;
        assert(s.seen[k].id == entry.id);
    } else {
        let at = events[0].at;
        let next = next_state(s, events[0].event, at);
        match events[0].event {
            EventView::Outbound(msg) => {
                lemma_entry_survives_observation(
                    s.seen,
                    s.window,
                    entry,
                    message_id_of(msg.payload),
                    at,
                    later,
                );
            },
            EventView::Inbound(inbound) => {
                lemma_entry_survives_observation(
                    s.seen,
                    s.window,
                    entry,
                    message_id_of(inbound.payload),
                    at,
                    later,
                );
            },
            _ => {},
        }
        assert(next.seen.contains(entry));
        let rest = events.skip(1);
        assert forall|k: int| 0 <= k < rest.len() implies entry.seen <= (#[trigger] rest[k]).at
            <= later by {
            assert(rest[k] == events[k + 1]);
        }
        lemma_entry_survives_run(next, rest, entry, later);
    }
}

/// A payload that was delivered is not delivered again within the window,
/// whatever else the loop handles in between and whoever sends it the
/// second time.
pub proof fn lemma_payload_is_delivered_once_per_window(
    s: TransportState,
    first: InboundView,
    t1: u64,
    between: Seq<TimedEventView>,
    second: InboundView,
    t2: u64,
)
    requires
        first.payload == second.payload,
        next_action(s, EventView::Inbound(first), t1) is Deliver,
        within_window(t1, t2, s.window),
        forall|k: int| 0 <= k < between.len() ==> t1 <= (#[trigger] between[k]).at <= t2,
    ensures
        next_action(
            run_state(next_state(s, EventView::Inbound(first), t1), between),
            EventView::Inbound(second),
            t2,
        ) is Dropped,
{
    let id = message_id_of(first.payload);
    let entry = SeenEntry { id, seen: t1 };
    let after = next_state(s, EventView::Inbound(first), t1);
    assert(after.seen[after.seen.len() - 1] == entry);
    lemma_entry_survives_run(after, between, entry, t2);
}

/// A payload that was published is not published again within the window,
/// whatever else the loop handles in between.
pub proof fn lemma_payload_is_published_once_per_window(
    s: TransportState,
    first: MessageView,
    t1: u64,
    between: Seq<TimedEventView>,
    second: MessageView,
    t2: u64,
)
    requires
        first.payload == second.payload,
        second.kind == MessageKind::Data,
        next_action(s, EventView::Outbound(first), t1) is Publish,
        within_window(t1, t2, s.window),
        forall|k: int| 0 <= k < between.len() ==> t1 <= (#[trigger] between[k]).at <= t2,
    ensures
        next_action(
            run_state(next_state(s, EventView::Outbound(first), t1), between),
            EventView::Outbound(second),
            t2,
        ) == ActionView::Dropped(DropReason::Duplicate),
{
    let id = message_id_of(first.payload);
    let entry = SeenEntry { id, seen: t1 };
    let after = next_state(s, EventView::Outbound(first), t1);
    assert(after.seen[after.seen.len() - 1] == entry);
    lemma_entry_survives_run(after, between, entry, t2);
}

} // verus!
