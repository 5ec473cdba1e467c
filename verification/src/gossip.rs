//! The gossip bus: publishing to the explicit peers and taking in what the
//! mesh sends, with repeats suppressed and unverified senders rejected.

use vstd::prelude::*;
use crate::dedup::{
    message_id, message_id_of, observed_entries, suppressed_in, within_window, DedupCache,
    SeenEntry,
};
use crate::message::{data_message, Message, MessageView};
use crate::peer::{ids, ExplicitPeerSet, PeerId};

verus! {

/// The one topic that every instance publishes to and listens on.
pub const TOPIC: &'static str = "test-net";

/// A message from the mesh as the contracts see it.
pub struct InboundView {
    pub source: Seq<u8>,
    pub payload: Seq<u8>,
    pub verified: bool,
}

/// A message that arrived from the mesh: the peer it claims to come from,
/// its payload, and whether its signature verified against that peer.
#[derive(Debug, PartialEq, Eq)]
pub struct InboundGossip {
    pub source: PeerId,
    pub payload: Vec<u8>,
    pub verified: bool,
}

impl View for InboundGossip {
    type V = InboundView;

    open spec fn view(&self) -> InboundView {
        InboundView { source: self.source@, payload: self.payload@, verified: self.verified }
    }
}

/// Why a message went no further.
#[derive(Clone, Copy, Debug, PartialEq, Eq, Structural)]
pub enum DropReason {
    /// The same payload was seen within the window.
    Duplicate,
    /// There is no peer to send to.
    NoPeers,
    /// The signature did not verify against the claimed sender.
    BadSignature,
}

/// What became of a publish, as the contracts see it.
pub enum PublishView {
    Flood { payload: Seq<u8>, targets: Set<Seq<u8>> },
    Dropped(DropReason),
}

/// What became of a publish: the payload goes to every listed peer, to be
/// signed with the local key on the way out, or it is dropped.
#[derive(Debug, PartialEq, Eq)]
pub enum PublishOutcome {
    Flood { payload: Vec<u8>, targets: Vec<PeerId> },
    Dropped(DropReason),
}

impl View for PublishOutcome {
    type V = PublishView;

    open spec fn view(&self) -> PublishView {
        match self {
            PublishOutcome::Flood { payload, targets } => PublishView::Flood {
                payload: payload@,
                targets: ids(targets@).to_set(),
            },
            PublishOutcome::Dropped(reason) => PublishView::Dropped(*reason),
        }
    }
}

/// What a publish of `payload` at `now` comes to: a repeat within the window
/// is dropped, so is a payload with nobody to send it to, and anything else
/// goes to all of `peers`.
pub open spec fn publish_result(
    seen: Seq<SeenEntry>,
    window: u64,
    peers: Set<Seq<u8>>,
    payload: Seq<u8>,
    now: u64,
) -> PublishView {
    if suppressed_in(seen, message_id_of(payload), now, window) {
        PublishView::Dropped(DropReason::Duplicate)
    } else if peers == Set::<Seq<u8>>::empty() {
        PublishView::Dropped(DropReason::NoPeers)
    } else {
        PublishView::Flood { payload, targets: peers }
    }
}

/// The seen entries after a publish: only a payload that went out is
/// recorded.
pub open spec fn seen_after_publish(
    seen: Seq<SeenEntry>,
    window: u64,
    peers: Set<Seq<u8>>,
    payload: Seq<u8>,
    now: u64,
) -> Seq<SeenEntry> {
    if publish_result(seen, window, peers, payload, now) is Flood {
        observed_entries(seen, message_id_of(payload), now, window)
    } else {
        seen
    }
}

/// What an inbound message comes to: the data message to deliver, or nothing.
pub open spec fn inbound_result(
    seen: Seq<SeenEntry>,
    window: u64,
    inbound: InboundView,
    now: u64,
) -> Option<MessageView> {
    if inbound.verified && !suppressed_in(seen, message_id_of(inbound.payload), now, window) {
        Some(data_message(inbound.source, inbound.payload))
    } else {
        None
    }
}

/// Why an inbound message is not delivered, if it is not.
pub open spec fn inbound_drop_reason(
    seen: Seq<SeenEntry>,
    window: u64,
    inbound: InboundView,
    now: u64,
) -> Option<DropReason> {
    if !inbound.verified {
        Some(DropReason::BadSignature)
    } else if suppressed_in(seen, message_id_of(inbound.payload), now, window) {
        Some(DropReason::Duplicate)
    } else {
        None
    }
}

/// The seen entries after an inbound message: a verified message is looked
/// up and, if new, recorded; an unverified one leaves no trace.
pub open spec fn seen_after_inbound(
    seen: Seq<SeenEntry>,
    window: u64,
    inbound: InboundView,
    now: u64,
) -> Seq<SeenEntry> {
    if inbound.verified {
        observed_entries(seen, message_id_of(inbound.payload), now, window)
    } else {
        seen
    }
}

/// Once an identifier was let through at `first`, it is suppressed at every
/// `second` that lies within the window of `first`.
pub proof fn lemma_observed_is_suppressed(
    seen: Seq<SeenEntry>,
    window: u64,
    id: u64,
    first: u64,
    second: u64,
)
    requires
        !suppressed_in(seen, id, first, window),
        within_window(first, second, window),
    ensures
        suppressed_in(observed_entries(seen, id, first, window), id, second, window),
{
    let after = observed_entries(seen, id, first, window);
    assert(after[after.len() - 1] == SeenEntry { id, seen: first });
}

/// The same payload from the mesh twice within the window is delivered at
/// most once: if the first arrival was delivered, the second is not.
pub proof fn lemma_inbound_delivered_at_most_once(
    seen: Seq<SeenEntry>,
    window: u64,
    first: InboundView,
    second: InboundView,
    t1: u64,
    t2: u64,
)
    requires
        first.payload == second.payload,
        within_window(t1, t2, window),
    ensures
        inbound_result(seen, window, first, t1) is Some ==> inbound_result(
            seen_after_inbound(seen, window, first, t1),
            window,
            second,
            t2,
        ) is None,
{
    if inbound_result(seen, window, first, t1) is Some {
        lemma_observed_is_suppressed(seen, window, message_id_of(first.payload), t1, t2);
    }
}

/// The same payload published twice within the window goes out at most once:
/// if the first publish went to the peers, the second is dropped as a
/// repeat, whoever the peers are by then.
pub proof fn lemma_published_at_most_once(
    seen: Seq<SeenEntry>,
    window: u64,
    peers1: Set<Seq<u8>>,
    peers2: Set<Seq<u8>>,
    payload: Seq<u8>,
    t1: u64,
    t2: u64,
)
    requires
        within_window(t1, t2, window),
    ensures
        publish_result(seen, window, peers1, payload, t1) is Flood ==> publish_result(
            seen_after_publish(seen, window, peers1, payload, t1),
            window,
            peers2,
            payload,
            t2,
        ) == PublishView::Dropped(DropReason::Duplicate),
{
    if publish_result(seen, window, peers1, payload, t1) is Flood {
        lemma_observed_is_suppressed(seen, window, message_id_of(payload), t1, t2);
    }
}

/// A message whose signature did not verify is never delivered and leaves
/// the bus as it was, so it is never passed on either.
pub proof fn lemma_unverified_is_rejected(
    seen: Seq<SeenEntry>,
    window: u64,
    inbound: InboundView,
    now: u64,
)
    requires
        !inbound.verified,
    ensures
        inbound_result(seen, window, inbound, now) is None,
        inbound_drop_reason(seen, window, inbound, now) == Some(DropReason::BadSignature),
        seen_after_inbound(seen, window, inbound, now) == seen,
{
}

/// The gossip bus: the cache of identifiers seen within the window. The
/// explicit peer set belongs to the event loop and is lent for each publish.
pub struct GossipBus {
    pub dedup: DedupCache,
}

impl GossipBus {
    /// A bus that has seen nothing, with the given window.
    pub fn new(window: u64) -> (bus: GossipBus)
        ensures
            bus.seen() == Seq::<SeenEntry>::empty(),
            bus.window() == window,
    {
        GossipBus { dedup: DedupCache::new(window) }
    }

    /// The identifiers that the bus remembers.
    pub open spec fn seen(&self) -> Seq<SeenEntry> {
        self.dedup.entries@
    }

    /// The window within which a repeat is suppressed.
    pub open spec fn window(&self) -> u64 {
        self.dedup.window
    }

    /// Publishes `payload` at `now` to the explicit peers.
    pub fn publish(
        &mut self,
        payload: Vec<u8>,
        peers: &ExplicitPeerSet,
        now: u64,
    ) -> (outcome: PublishOutcome)
        requires
            peers.wf(),
        ensures
            outcome@ == publish_result(old(self).seen(), old(self).window(), peers@, payload@, now),
            final(self).seen() == seen_after_publish(
                old(self).seen(),
                old(self).window(),
                peers@,
                payload@,
                now,
            ),
            final(self).window() == old(self).window(),
            outcome matches PublishOutcome::Flood { targets, .. } ==> ids(targets@)
                == peers.order(),
    {
        let id = message_id(&payload);
        if self.dedup.is_duplicate(id, now) {
            PublishOutcome::Dropped(DropReason::Duplicate)
        } else if peers.is_empty() {
            PublishOutcome::Dropped(DropReason::NoPeers)
        } else {
            let _fresh = self.dedup.observe(id, now);
            let targets = peers.snapshot();
            PublishOutcome::Flood { payload, targets }
        }
    }

    /// Takes in a message from the mesh at `now`. It is handed on for
    /// delivery exactly if its signature verified and its payload was not
    /// seen within the window.
    pub fn on_inbound(
        &mut self,
        inbound: InboundGossip,
        now: u64,
    ) -> (delivery: Result<Message, DropReason>)
        ensures
            final(self).window() == old(self).window(),
            final(self).seen() == seen_after_inbound(
                old(self).seen(),
                old(self).window(),
                inbound@,
                now,
            ),
            delivery is Ok <==> inbound_result(old(self).seen(), old(self).window(), inbound@, now)
                is Some,
            delivery matches Ok(msg) ==> Some(msg@) == inbound_result(
                old(self).seen(),
                old(self).window(),
                inbound@,
                now,
            ),
            delivery matches Err(reason) ==> Some(reason) == inbound_drop_reason(
                old(self).seen(),
                old(self).window(),
                inbound@,
                now,
            ),
    {
        if !inbound.verified {
            return Err(DropReason::BadSignature);
        }
        let id = message_id(&inbound.payload);
        if self.dedup.observe(id, now) {
            Ok(Message::new_data(inbound.source, inbound.payload))
        } else {
            Err(DropReason::Duplicate)
        }
    }
}

} // verus!
