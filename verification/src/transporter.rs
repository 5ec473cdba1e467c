//! The event loop of the transport: one event in, one action out.
//!
//! The loop owns the explicit peer set and the gossip bus. Whoever drives it
//! waits on the outbound slot, on discovery and on the mesh, hands over the
//! one event that is ready together with the current time, and carries out
//! the action that comes back: a publish goes to the network, a delivery to
//! the inbound sink. A publish or delivery that fails there is dropped.

use vstd::prelude::*;
use crate::dedup::SeenEntry;
use crate::discovery::{DiscoveryEvent, DiscoveryEventView};
use crate::gossip::{
    inbound_drop_reason, inbound_result, publish_result, seen_after_inbound, seen_after_publish,
    DropReason, GossipBus, InboundGossip, InboundView, PublishOutcome, PublishView,
};
use crate::message::{
    decode_status, join_message, leave_message, Message, MessageKind, MessageView,
    StatusMessage, StatusView,
};
use crate::identity::Identity;
use crate::outbox::Outbox;
use crate::peer::{ids, ExplicitPeerSet, PeerId};
use crate::sink::{after_offer, refusal, InboundSink, SinkError, SinkView};

verus! {

/// An event as the contracts see it.
pub enum EventView {
    Outbound(MessageView),
    Discovery(DiscoveryEventView),
    Inbound(InboundView),
    Cancelled,
}

/// What the loop can be woken by: a message from the outbound slot, a
/// discovery event, a message from the mesh, or the signal to stop.
#[derive(Debug, PartialEq, Eq)]
pub enum Event {
    Outbound(Message),
    Discovery(DiscoveryEvent),
    Inbound(InboundGossip),
    Cancelled,
}

impl View for Event {
    type V = EventView;

    open spec fn view(&self) -> EventView {
        match self {
            Event::Outbound(msg) => EventView::Outbound(msg@),
            Event::Discovery(event) => EventView::Discovery(event@),
            Event::Inbound(inbound) => EventView::Inbound(inbound@),
            Event::Cancelled => EventView::Cancelled,
        }
    }
}

/// An action as the contracts see it.
pub enum ActionView {
    Publish { payload: Seq<u8>, targets: Set<Seq<u8>> },
    Deliver(MessageView),
    Applied(Option<StatusView>),
    Dropped(DropReason),
    Stop,
}

/// What the loop asks for after an event.
#[derive(Debug, PartialEq, Eq)]
pub enum Action {
    /// Sign the payload with the local key and send it to each target.
    Publish { payload: Vec<u8>, targets: Vec<PeerId> },
    /// Hand the message to the inbound sink.
    Deliver(Message),
    /// A status message was taken in locally; the note it carried, if it
    /// could be read.
    Applied(Option<StatusMessage>),
    /// The message went no further.
    Dropped(DropReason),
    /// The loop was cancelled.
    Stop,
}

impl View for Action {
    type V = ActionView;

    open spec fn view(&self) -> ActionView {
        match self {
            Action::Publish { payload, targets } => ActionView::Publish {
                payload: payload@,
                targets: ids(targets@).to_set(),
            },
            Action::Deliver(msg) => ActionView::Deliver(msg@),
            Action::Applied(status) => ActionView::Applied(
                match status {
                    Some(s) => Some(s@),
                    None => None,
                },
            ),
            Action::Dropped(reason) => ActionView::Dropped(*reason),
            Action::Stop => ActionView::Stop,
        }
    }
}

/// The state that the loop owns, as the contracts see it.
pub struct TransportState {
    pub peers: Set<Seq<u8>>,
    pub seen: Seq<SeenEntry>,
    pub window: u64,
}

/// The action that follows `event` at `now` in state `s`.
pub open spec fn next_action(s: TransportState, event: EventView, now: u64) -> ActionView {
    match event {
        EventView::Outbound(msg) => {
            if msg.kind == MessageKind::Status {
                ActionView::Applied(decode_status(msg.payload))
            } else {
                match publish_result(s.seen, s.window, s.peers, msg.payload, now) {
                    PublishView::Flood { payload, targets } => ActionView::Publish {
                        payload,
                        targets,
                    },
                    PublishView::Dropped(reason) => ActionView::Dropped(reason),
                }
            }
        },
        EventView::Discovery(DiscoveryEventView::PeerJoined(peer)) => ActionView::Deliver(
            join_message(peer),
        ),
        EventView::Discovery(DiscoveryEventView::PeerExpired(peer)) => ActionView::Deliver(
            leave_message(peer),
        ),
        EventView::Inbound(inbound) => {
            match inbound_result(s.seen, s.window, inbound, now) {
                Some(msg) => ActionView::Deliver(msg),
                None => ActionView::Dropped(
                    inbound_drop_reason(s.seen, s.window, inbound, now).unwrap(),
                ),
            }
        },
        EventView::Cancelled => ActionView::Stop,
    }
}

/// The state that follows `event` at `now` in state `s`.
pub open spec fn next_state(s: TransportState, event: EventView, now: u64) -> TransportState {
    match event {
        EventView::Outbound(msg) => {
            if msg.kind == MessageKind::Status {
                s
            } else {
                TransportState {
                    seen: seen_after_publish(s.seen, s.window, s.peers, msg.payload, now),
                    ..s
                }
            }
        },
        EventView::Discovery(DiscoveryEventView::PeerJoined(peer)) => TransportState {
            peers: s.peers.insert(peer),
            ..s
        },
        EventView::Discovery(DiscoveryEventView::PeerExpired(peer)) => TransportState {
            peers: s.peers.remove(peer),
            ..s
        },
        EventView::Inbound(inbound) => TransportState {
            seen: seen_after_inbound(s.seen, s.window, inbound, now),
            ..s
        },
        EventView::Cancelled => s,
    }
}

/// What became of an action on the local side, as the contracts see it.
pub enum HandedView {
    Delivered,
    Undelivered(SinkError),
    Left(ActionView),
}

/// What became of an action on the local side: a delivery reached the sink
/// or was dropped because the sink refused it; any other action is left to
/// the caller.
#[derive(Debug, PartialEq, Eq)]
pub enum Handed {
    Delivered,
    Undelivered(SinkError),
    Left(Action),
}

impl View for Handed {
    type V = HandedView;

    open spec fn view(&self) -> HandedView {
        match self {
            Handed::Delivered => HandedView::Delivered,
            Handed::Undelivered(reason) => HandedView::Undelivered(*reason),
            Handed::Left(action) => HandedView::Left(action@),
        }
    }
}

/// What becomes of `action` when it is handed over to a sink in state `sink`.
pub open spec fn handed(sink: SinkView, action: ActionView) -> HandedView {
    match action {
        ActionView::Deliver(msg) => match refusal(sink) {
            None => HandedView::Delivered,
            Some(reason) => HandedView::Undelivered(reason),
        },
        other => HandedView::Left(other),
    }
}

/// The sink after `action` was handed over: only a delivery touches it.
pub open spec fn sink_after(sink: SinkView, action: ActionView) -> SinkView {
    match action {
        ActionView::Deliver(msg) => after_offer(sink, msg),
        _ => sink,
    }
}

/// An event with the time at which it became ready, as the contracts see it.
pub struct TimedEventView {
    pub event: EventView,
    pub at: u64,
}

/// An event with the time at which it became ready.
#[derive(Debug, PartialEq, Eq)]
pub struct TimedEvent {
    pub event: Event,
    pub at: u64,
}

impl View for TimedEvent {
    type V = TimedEventView;

    open spec fn view(&self) -> TimedEventView {
        TimedEventView { event: self.event@, at: self.at }
    }
}

/// The events of a vector, each by its view.
pub open spec fn timed_views(events: Seq<TimedEvent>) -> Seq<TimedEventView> {
    Seq::new(events.len(), |i: int| events[i]@)
}

/// The actions of a vector, each by its view.
pub open spec fn action_views(actions: Seq<Action>) -> Seq<ActionView> {
    Seq::new(actions.len(), |i: int| actions[i]@)
}

/// The actions of a run over `events` from state `s`: one for each event, in
/// order, up to and including the first cancellation.
pub open spec fn run_actions(s: TransportState, events: Seq<TimedEventView>) -> Seq<ActionView>
    decreases events.len(),
{
    if events.len() == 0 {
        Seq::empty()
    } else if events[0].event is Cancelled {
        seq![ActionView::Stop]
    } else {
        seq![next_action(s, events[0].event, events[0].at)] + run_actions(
            next_state(s, events[0].event, events[0].at),
            events.skip(1),
        )
    }
}

/// The state after a run over `events` from state `s`.
pub open spec fn run_state(s: TransportState, events: Seq<TimedEventView>) -> TransportState
    decreases events.len(),
{
    if events.len() == 0 || events[0].event is Cancelled {
        s
    } else {
        run_state(next_state(s, events[0].event, events[0].at), events.skip(1))
    }
}

/// The window of duplicate suppression of a transport made by
/// [`Transporter::new`], in milliseconds: the heartbeat of the gossip bus.
pub const HEARTBEAT_MILLIS: u64 = 10_000;

/// The state of a transport that has just been made.
pub open spec fn initial_state(window: u64) -> TransportState {
    TransportState { peers: Set::<Seq<u8>>::empty(), seen: Seq::<SeenEntry>::empty(), window }
}

/// The transport: the local identity and its peer identifier, the explicit
/// peer set, the gossip bus and the outbound slot.
pub struct Transporter {
    pub identity: Identity,
    pub local_peer_id: PeerId,
    pub peers: ExplicitPeerSet,
    pub bus: GossipBus,
    pub outbox: Outbox,
}

impl Transporter {
    /// The explicit peer set is well formed.
    pub open spec fn wf(&self) -> bool {
        self.peers.wf()
    }

    /// The state that the loop owns.
    pub open spec fn state(&self) -> TransportState {
        TransportState { peers: self.peers@, seen: self.bus.seen(), window: self.bus.window() }
    }

    /// A transport with a fresh identity that knows no peer, has seen no
    /// message and has a free outbound slot.
    pub fn new() -> (transport: Transporter)
        ensures
            transport.wf(),
            transport.identity.wf(),
            transport.local_peer_id@ == transport.identity.peer_id_bytes(),
            transport.state() == initial_state(HEARTBEAT_MILLIS),
            transport.outbox@ is None,
    {
        Transporter::with_identity(Identity::create(), HEARTBEAT_MILLIS)
    }

    /// A transport for the peer of `identity` that knows no peer, has seen
    /// no message and has a free outbound slot. `window` is the time during
    /// which a repeated payload is suppressed.
    pub fn with_identity(identity: Identity, window: u64) -> (transport: Transporter)
        ensures
            transport.wf(),
            transport.identity == identity,
            transport.local_peer_id@ == identity.peer_id_bytes(),
            transport.state() == initial_state(window),
            transport.outbox@ is None,
    {
        let local_peer_id = identity.peer_id().clone();
        Transporter {
            identity,
            local_peer_id,
            peers: ExplicitPeerSet::new(),
            bus: GossipBus::new(window),
            outbox: Outbox::new(),
        }
    }

    /// The submission handle: the outbound slot, to send into.
    pub fn sender(&mut self) -> (handle: &mut Outbox)
        ensures
            *handle == old(self).outbox,
            final(self).outbox == *final(handle),
            final(self).identity == old(self).identity,
            final(self).local_peer_id == old(self).local_peer_id,
            final(self).peers == old(self).peers,
            final(self).bus == old(self).bus,
    {
        &mut self.outbox
    }

    /// Takes the waiting message out of the outbound slot, as the event that
    /// it is for the loop.
    pub fn next_outbound(&mut self) -> (event: Option<Event>)
        ensures
            final(self).outbox@ is None,
            final(self).identity == old(self).identity,
            final(self).local_peer_id == old(self).local_peer_id,
            final(self).peers == old(self).peers,
            final(self).bus == old(self).bus,
            event is Some <==> old(self).outbox@ is Some,
            event matches Some(e) ==> e@ == EventView::Outbound(old(self).outbox@.unwrap()),
    {
        match self.outbox.drain() {
            Some(msg) => Some(Event::Outbound(msg)),
            None => None,
        }
    }

    /// Handles one event that became ready at `now`.
    pub fn step(&mut self, event: Event, now: u64) -> (action: Action)
        requires
            old(self).wf(),
        ensures
            final(self).wf(),
            action@ == next_action(old(self).state(), event@, now),
            final(self).state() == next_state(old(self).state(), event@, now),
            final(self).identity == old(self).identity,
            final(self).local_peer_id == old(self).local_peer_id,
            final(self).outbox == old(self).outbox,
            action matches Action::Publish { targets, .. } ==> ids(targets@).no_duplicates(),
    {
        match event {
            Event::Outbound(msg) => {
                if msg.is_status() {
                    Action::Applied(StatusMessage::decode(&msg.payload))
                } else {
                    match self.bus.publish(msg.payload, &self.peers, now) {
                        PublishOutcome::Flood { payload, targets } => Action::Publish {
                            payload,
                            targets,
                        },
                        PublishOutcome::Dropped(reason) => Action::Dropped(reason),
                    }
                }
            },
            Event::Discovery(DiscoveryEvent::PeerJoined(peer)) => {
                let status = StatusMessage::new_join(peer.clone().bytes);
                let msg = Message::new_status(peer.clone(), &status);
                let _added = self.peers.insert(peer);
                Action::Deliver(msg)
            },
            Event::Discovery(DiscoveryEvent::PeerExpired(peer)) => {
                let status = StatusMessage::new_leave(peer.clone().bytes);
                let _removed = self.peers.remove(&peer);
                let msg = Message::new_status(peer, &status);
                Action::Deliver(msg)
            },
            Event::Inbound(inbound) => {
                match self.bus.on_inbound(inbound, now) {
                    Ok(msg) => Action::Deliver(msg),
                    Err(reason) => Action::Dropped(reason),
                }
            },
            Event::Cancelled => Action::Stop,
        }
    }

    /// Carries out the part of `action` that concerns the local side: a
    /// delivery is offered to the sink, and dropped if the sink refuses it.
    /// Any other action comes back for the caller to carry out.
    pub fn hand_over(action: Action, sink: &mut InboundSink) -> (left: Handed)
        ensures
            final(sink)@ == sink_after(old(sink)@, action@),
            left@ == handed(old(sink)@, action@),
    {
        match action {
            Action::Deliver(msg) => {
                match sink.offer(msg) {
                    Ok(()) => Handed::Delivered,
                    Err(reason) => Handed::Undelivered(reason),
                }
            },
            other => Handed::Left(other),
        }
    }

    /// Runs the loop over `events`, in order, until they are used up or one
    /// of them is the cancellation. Returns the action that each handled
    /// event led to; the cancellation is handled too, and is the last.
    pub fn run(&mut self, events: Vec<TimedEvent>) -> (actions: Vec<Action>)
        requires
            old(self).wf(),
        ensures
            final(self).wf(),
            action_views(actions@) == run_actions(old(self).state(), timed_views(events@)),
            final(self).state() == run_state(old(self).state(), timed_views(events@)),
            forall|k: int|
                0 <= k < actions.len() ==> (#[trigger] actions@[k] matches Action::Publish {
                    targets,
                    ..
                } ==> ids(targets@).no_duplicates()),
            final(self).identity == old(self).identity,
            final(self).local_peer_id == old(self).local_peer_id,
            final(self).outbox == old(self).outbox,
    {
        let ghost all = timed_views(events@);
        let ghost start = self.state();
        let total: usize = events.len();
        let mut rest = reversed(events);
        let mut actions: Vec<Action> = Vec::new();
        let mut done: usize = 0;
        let mut stopped = false;
        assert(all.skip(0) =~= all);
        assert(action_views(actions@) =~= Seq::<ActionView>::empty());
        while done < total && !stopped
            invariant
                self.wf(),
                self.identity == old(self).identity,
                self.local_peer_id == old(self).local_peer_id,
                self.outbox == old(self).outbox,
                total == all.len(),
                done <= total,
                rest.len() == total - done,
                forall|k: int|
                    0 <= k < actions.len() ==> (#[trigger] actions@[k] matches Action::Publish {
                        targets,
                        ..
                    } ==> ids(targets@).no_duplicates()),
                forall|k: int| 0 <= k < rest.len() ==> (#[trigger] rest@[k])@ == all[total - 1 - k],
                !stopped ==> action_views(actions@) + run_actions(
                    self.state(),
                    all.skip(done as int),
                ) == run_actions(start, all),
                !stopped ==> run_state(self.state(), all.skip(done as int)) == run_state(
                    start,
                    all,
                ),
                stopped ==> action_views(actions@) == run_actions(start, all),
                stopped ==> self.state() == run_state(start, all),
            decreases total - done,
        {
            let ghost before = self.state();
            let ghost so_far = action_views(actions@);
            let ghost tail = all.skip(done as int);
            let timed = rest.pop().unwrap();
            assert(timed@ == all[done as int]);
            assert(tail[0] == all[done as int]);
            assert(tail.skip(1) =~= all.skip(done as int + 1));
            let action = self.step(timed.event, timed.at);
            if let Action::Stop = action {
                stopped = true;
            }
            actions.push(action);
            done += 1;
            proof {
                let a = next_action(before, tail[0].event, tail[0].at);
                assert(action_views(actions@) =~= so_far.push(a));
                if stopped {
                    assert(tail[0].event is Cancelled);
                    assert(so_far.push(a) =~= so_far + seq![ActionView::Stop]);
                } else {
                    assert(!(tail[0].event is Cancelled));
                    assert(so_far.push(a) + run_actions(self.state(), all.skip(done as int))
                        =~= so_far + (seq![a] + run_actions(
                        self.state(),
                        all.skip(done as int),
                    )));
                }
            }
        }
        proof {
            if !stopped {
                assert(all.skip(done as int) =~= Seq::<TimedEventView>::empty());
                assert(action_views(actions@) + Seq::<ActionView>::empty() =~= action_views(
                    actions@,
                ));
            }
        }
        actions
    }
}

/// The events in the opposite order.
fn reversed(events: Vec<TimedEvent>) -> (out: Vec<TimedEvent>)
    ensures
        out.len() == events.len(),
        forall|k: int|
            0 <= k < out.len() ==> (#[trigger] out@[k])@ == timed_views(events@)[events.len() - 1
                - k],
{
    let ghost all = timed_views(events@);
    let mut events = events;
    let mut out: Vec<TimedEvent> = Vec::new();
    while events.len() > 0
        invariant
            out.len() + events.len() == all.len(),
            forall|k: int| 0 <= k < events.len() ==> (#[trigger] events@[k])@ == all[k],
            forall|k: int| 0 <= k < out.len() ==> (#[trigger] out@[k])@ == all[all.len() - 1 - k],
        decreases events.len(),
    {
        let last = events.pop().unwrap();
        out.push(last);
    }
    out
}

} // verus!
