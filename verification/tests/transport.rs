use gossip_transport::discovery::{Discovery, DiscoveryEvent};
use gossip_transport::gossip::{DropReason, GossipBus, InboundGossip, PublishOutcome, TOPIC};
use gossip_transport::identity::Identity;
use libp2p::identity::Keypair;
use gossip_transport::message::{Message, MessageKind, StatusKind, StatusMessage};
use gossip_transport::peer::{ExplicitPeerSet, PeerId};
use gossip_transport::transporter::{Action, Event, TimedEvent, Transporter, HEARTBEAT_MILLIS};

const WINDOW: u64 = 10_000;

fn identity(seed: u8) -> Identity {
    Identity::from_secret(vec![seed; 32]).unwrap()
}

fn id_a() -> PeerId {
    identity(0xA).peer_id().clone()
}

fn id_b() -> PeerId {
    identity(0xB).peer_id().clone()
}

fn id_c() -> PeerId {
    identity(0xC).peer_id().clone()
}

fn transporter_for(id: PeerId, window: u64) -> Transporter {
    for seed in [0xAu8, 0xB, 0xC] {
        let candidate = identity(seed);
        if candidate.peer_id() == &id {
            return Transporter::with_identity(candidate, window);
        }
    }
    panic!("no identity with this peer id");
}

fn signed(source: PeerId, payload: &[u8]) -> InboundGossip {
    InboundGossip { source, payload: payload.to_vec(), verified: true }
}

fn join_of(p: PeerId) -> Message {
    Message::new_status(p.clone(), &StatusMessage::new_join(p.bytes))
}

fn leave_of(p: PeerId) -> Message {
    Message::new_status(p.clone(), &StatusMessage::new_leave(p.bytes))
}

#[test]
fn topic_is_fixed() {
    assert_eq!(TOPIC, "test-net");
}

#[test]
fn fresh_transport_has_its_own_identity() {
    let t = Transporter::new();
    assert_eq!(&t.local_peer_id, t.identity.peer_id());
    let key = Keypair::ed25519_from_bytes(t.identity.secret_key().clone()).unwrap().public();
    assert_eq!(t.local_peer_id.bytes, key.to_peer_id().to_bytes());
    assert!(t.peers.is_empty());
    assert!(t.bus.dedup.entries.is_empty());
    assert_eq!(t.bus.dedup.window, HEARTBEAT_MILLIS);
    assert_eq!(HEARTBEAT_MILLIS, 10_000);
    assert!(!t.outbox.is_full());
    let other = Transporter::new();
    assert_ne!(t.local_peer_id, other.local_peer_id);
}

#[test]
fn new_transport_is_idle() {
    let t = transporter_for(id_a(), WINDOW);
    assert_eq!(t.local_peer_id, id_a());
    assert!(t.peers.is_empty());
    assert!(t.bus.dedup.entries.is_empty());
    assert_eq!(t.bus.dedup.window, WINDOW);
    assert!(!t.outbox.is_full());
}

#[test]
fn bus_publish_without_peers_is_dropped_and_not_recorded() {
    let mut bus = GossipBus::new(WINDOW);
    let mut peers = ExplicitPeerSet::new();
    assert_eq!(
        bus.publish(b"x".to_vec(), &peers, 1),
        PublishOutcome::Dropped(DropReason::NoPeers)
    );
    assert!(bus.dedup.entries.is_empty());
    peers.insert(id_b());
    assert_eq!(
        bus.publish(b"x".to_vec(), &peers, 2),
        PublishOutcome::Flood { payload: b"x".to_vec(), targets: vec![id_b()] }
    );
    assert_eq!(bus.dedup.entries.len(), 1);
    assert_eq!(bus.dedup.entries[0].seen, 2);
}

#[test]
fn bus_publish_repeat_is_suppressed_within_window() {
    let mut bus = GossipBus::new(100);
    let mut peers = ExplicitPeerSet::new();
    peers.insert(id_b());
    peers.insert(id_c());
    assert_eq!(
        bus.publish(b"x".to_vec(), &peers, 50),
        PublishOutcome::Flood { payload: b"x".to_vec(), targets: vec![id_b(), id_c()] }
    );
    assert_eq!(
        bus.publish(b"x".to_vec(), &peers, 149),
        PublishOutcome::Dropped(DropReason::Duplicate)
    );
    assert_eq!(
        bus.publish(b"y".to_vec(), &peers, 149),
        PublishOutcome::Flood { payload: b"y".to_vec(), targets: vec![id_b(), id_c()] }
    );
    assert_eq!(
        bus.publish(b"x".to_vec(), &peers, 150),
        PublishOutcome::Flood { payload: b"x".to_vec(), targets: vec![id_b(), id_c()] }
    );
}

#[test]
fn bus_rejects_unverified_inbound() {
    let mut bus = GossipBus::new(WINDOW);
    let forged = InboundGossip { source: id_a(), payload: b"x".to_vec(), verified: false };
    assert_eq!(bus.on_inbound(forged, 1), Err(DropReason::BadSignature));
    assert!(bus.dedup.entries.is_empty());
    assert_eq!(
        bus.on_inbound(signed(id_a(), b"x"), 2),
        Ok(Message::new_data(id_a(), b"x".to_vec()))
    );
    assert_eq!(bus.on_inbound(signed(id_c(), b"x"), 3), Err(DropReason::Duplicate));
}

#[test]
fn status_messages_are_applied_locally_and_never_published() {
    let mut a = transporter_for(id_a(), WINDOW);
    a.step(Event::Discovery(DiscoveryEvent::PeerJoined(id_b())), 0);
    let note = StatusMessage::new_join(vec![1, 2]);
    let status = Message::new_status(id_a(), &note);
    assert_eq!(a.step(Event::Outbound(status), 1), Action::Applied(Some(note)));
    let unreadable = Message::new(MessageKind::Status, id_a(), vec![9, 9]);
    assert_eq!(a.step(Event::Outbound(unreadable), 2), Action::Applied(None));
    assert!(a.bus.dedup.entries.is_empty());
}

#[test]
fn discovery_events_update_the_peer_set_and_are_delivered() {
    let mut a = transporter_for(id_a(), WINDOW);
    let joined = a.step(Event::Discovery(DiscoveryEvent::PeerJoined(id_b())), 5);
    assert_eq!(joined, Action::Deliver(join_of(id_b())));
    assert!(a.peers.contains(&id_b()));
    if let Action::Deliver(msg) = joined {
        assert_eq!(msg.kind, MessageKind::Status);
        assert_eq!(msg.origin, id_b());
        let note = StatusMessage::decode(&msg.payload).unwrap();
        assert_eq!(note.kind, StatusKind::Join);
    }
    let left = a.step(Event::Discovery(DiscoveryEvent::PeerExpired(id_b())), 9);
    assert_eq!(left, Action::Deliver(leave_of(id_b())));
    assert!(!a.peers.contains(&id_b()));
    assert!(a.peers.is_empty());
}

#[test]
fn two_instances_exchange_a_ping_exactly_once() {
    let mut a = transporter_for(id_a(), WINDOW);
    let mut b = transporter_for(id_b(), WINDOW);
    let mut disc_a = Discovery::new(60_000, 5_000, 1_000, 0);
    let mut disc_b = Discovery::new(60_000, 5_000, 1_000, 0);

    let seen_by_a = disc_a.on_announcement(id_b(), vec![127, 0, 0, 1], 1_000).unwrap();
    let seen_by_b = disc_b.on_announcement(id_a(), vec![127, 0, 0, 1], 1_000).unwrap();
    assert_eq!(seen_by_a, DiscoveryEvent::PeerJoined(id_b()));
    assert_eq!(seen_by_b, DiscoveryEvent::PeerJoined(id_a()));
    assert_eq!(a.step(Event::Discovery(seen_by_a), 1_000), Action::Deliver(join_of(id_b())));
    assert_eq!(b.step(Event::Discovery(seen_by_b), 1_000), Action::Deliver(join_of(id_a())));

    assert_eq!(
        a.sender().try_send(Message::new(MessageKind::Data, id_a(), b"ping".to_vec())),
        Ok(())
    );
    let event = a.next_outbound().unwrap();
    let action = a.step(event, 1_500);
    assert_eq!(
        action,
        Action::Publish { payload: b"ping".to_vec(), targets: vec![id_b()] }
    );

    let mut deliveries: Vec<Message> = Vec::new();
    if let Action::Publish { payload, targets } = action {
        for target in targets {
            assert_eq!(target, id_b());
            if let Action::Deliver(msg) = b.step(Event::Inbound(signed(id_a(), &payload)), 1_600) {
                deliveries.push(msg);
            }
        }
    }
    assert_eq!(
        deliveries,
        vec![Message { kind: MessageKind::Data, origin: id_a(), payload: b"ping".to_vec() }]
    );
    assert_eq!(
        b.step(Event::Inbound(signed(id_a(), b"ping")), 1_700),
        Action::Dropped(DropReason::Duplicate)
    );
}

#[test]
fn same_payload_published_twice_is_delivered_once() {
    let mut a = transporter_for(id_a(), WINDOW);
    let mut b = transporter_for(id_b(), WINDOW);
    a.step(Event::Discovery(DiscoveryEvent::PeerJoined(id_b())), 0);
    b.step(Event::Discovery(DiscoveryEvent::PeerJoined(id_a())), 0);

    let x = b"payload-x".to_vec();
    let first = a.step(Event::Outbound(Message::new_data(id_a(), x.clone())), 10);
    let second = a.step(Event::Outbound(Message::new_data(id_a(), x.clone())), 11);
    assert_eq!(first, Action::Publish { payload: x.clone(), targets: vec![id_b()] });
    assert_eq!(second, Action::Dropped(DropReason::Duplicate));

    let mut delivered = 0;
    for at in [12u64, 13u64] {
        if let Action::Deliver(msg) = b.step(Event::Inbound(signed(id_a(), &x)), at) {
            assert_eq!(msg, Message::new_data(id_a(), x.clone()));
            delivered += 1;
        }
    }
    assert_eq!(delivered, 1);

    let later = a.step(Event::Outbound(Message::new_data(id_a(), x.clone())), 10 + WINDOW);
    assert_eq!(later, Action::Publish { payload: x, targets: vec![id_b()] });
}

#[test]
fn late_joiner_is_reached_by_the_next_publish() {
    let mut a = transporter_for(id_a(), WINDOW);
    let mut c = transporter_for(id_c(), WINDOW);
    a.step(Event::Discovery(DiscoveryEvent::PeerJoined(id_b())), 0);
    assert_eq!(
        a.step(Event::Outbound(Message::new_data(id_a(), b"early".to_vec())), 1),
        Action::Publish { payload: b"early".to_vec(), targets: vec![id_b()] }
    );
    assert_eq!(
        a.step(Event::Discovery(DiscoveryEvent::PeerJoined(id_c())), 2),
        Action::Deliver(join_of(id_c()))
    );
    let action = a.step(Event::Outbound(Message::new_data(id_a(), b"late".to_vec())), 3);
    assert_eq!(
        action,
        Action::Publish { payload: b"late".to_vec(), targets: vec![id_b(), id_c()] }
    );
    assert_eq!(
        c.step(Event::Inbound(signed(id_a(), b"late")), 4),
        Action::Deliver(Message::new_data(id_a(), b"late".to_vec()))
    );
}

#[test]
fn publish_without_peers_is_dropped() {
    let mut a = transporter_for(id_a(), WINDOW);
    assert_eq!(
        a.step(Event::Outbound(Message::new_data(id_a(), b"x".to_vec())), 1),
        Action::Dropped(DropReason::NoPeers)
    );
    a.step(Event::Discovery(DiscoveryEvent::PeerJoined(id_b())), 2);
    assert_eq!(
        a.step(Event::Outbound(Message::new_data(id_a(), b"x".to_vec())), 3),
        Action::Publish { payload: b"x".to_vec(), targets: vec![id_b()] }
    );
}

#[test]
fn forged_inbound_is_never_delivered() {
    let mut b = transporter_for(id_b(), WINDOW);
    let forged = InboundGossip { source: id_a(), payload: b"x".to_vec(), verified: false };
    assert_eq!(b.step(Event::Inbound(forged), 1), Action::Dropped(DropReason::BadSignature));
    assert_eq!(
        b.step(Event::Inbound(signed(id_a(), b"x")), 2),
        Action::Deliver(Message::new_data(id_a(), b"x".to_vec()))
    );
}

#[test]
fn second_submission_waits_for_the_drain() {
    let mut a = transporter_for(id_a(), WINDOW);
    let first = Message::new_data(id_a(), vec![1]);
    let second = Message::new_data(id_a(), vec![2]);
    assert_eq!(a.sender().try_send(first.clone()), Ok(()));
    assert_eq!(a.sender().try_send(second.clone()), Err(second.clone()));
    assert_eq!(a.next_outbound(), Some(Event::Outbound(first)));
    assert_eq!(a.next_outbound(), None);
    assert_eq!(a.sender().try_send(second.clone()), Ok(()));
    assert_eq!(a.next_outbound(), Some(Event::Outbound(second)));
}

#[test]
fn run_handles_events_in_order_until_cancelled() {
    let mut a = transporter_for(id_a(), WINDOW);
    let events = vec![
        TimedEvent { event: Event::Discovery(DiscoveryEvent::PeerJoined(id_b())), at: 1 },
        TimedEvent { event: Event::Outbound(Message::new_data(id_a(), b"m".to_vec())), at: 2 },
        TimedEvent { event: Event::Inbound(signed(id_b(), b"n")), at: 3 },
        TimedEvent { event: Event::Cancelled, at: 4 },
        TimedEvent { event: Event::Discovery(DiscoveryEvent::PeerJoined(id_c())), at: 5 },
    ];
    let actions = a.run(events);
    assert_eq!(
        actions,
        vec![
            Action::Deliver(join_of(id_b())),
            Action::Publish { payload: b"m".to_vec(), targets: vec![id_b()] },
            Action::Deliver(Message::new_data(id_b(), b"n".to_vec())),
            Action::Stop,
        ]
    );
    assert!(!a.peers.contains(&id_c()));
    assert_eq!(a.bus.dedup.entries.len(), 2);
}

#[test]
fn run_without_cancellation_uses_up_the_events() {
    let mut a = transporter_for(id_a(), WINDOW);
    assert_eq!(a.run(Vec::new()), Vec::<Action>::new());
    let actions = a.run(vec![
        TimedEvent { event: Event::Discovery(DiscoveryEvent::PeerJoined(id_b())), at: 1 },
        TimedEvent { event: Event::Discovery(DiscoveryEvent::PeerExpired(id_b())), at: 2 },
    ]);
    assert_eq!(
        actions,
        vec![Action::Deliver(join_of(id_b())), Action::Deliver(leave_of(id_b()))]
    );
    assert!(a.peers.is_empty());
}

#[test]
fn repeat_is_suppressed_across_other_traffic() {
    let mut b = transporter_for(id_b(), 100);
    let actions = b.run(vec![
        TimedEvent { event: Event::Inbound(signed(id_a(), b"x")), at: 10 },
        TimedEvent { event: Event::Inbound(signed(id_a(), b"y")), at: 40 },
        TimedEvent { event: Event::Discovery(DiscoveryEvent::PeerJoined(id_c())), at: 50 },
        TimedEvent { event: Event::Outbound(Message::new_data(id_b(), b"z".to_vec())), at: 60 },
        TimedEvent { event: Event::Inbound(signed(id_c(), b"x")), at: 109 },
        TimedEvent { event: Event::Inbound(signed(id_c(), b"x")), at: 110 },
    ]);
    assert_eq!(
        actions,
        vec![
            Action::Deliver(Message::new_data(id_a(), b"x".to_vec())),
            Action::Deliver(Message::new_data(id_a(), b"y".to_vec())),
            Action::Deliver(join_of(id_c())),
            Action::Publish { payload: b"z".to_vec(), targets: vec![id_c()] },
            Action::Dropped(DropReason::Duplicate),
            Action::Deliver(Message::new_data(id_c(), b"x".to_vec())),
        ]
    );
}

#[test]
fn published_payload_is_not_delivered_back() {
    let mut a = transporter_for(id_a(), 100);
    a.step(Event::Discovery(DiscoveryEvent::PeerJoined(id_b())), 0);
    assert_eq!(
        a.step(Event::Outbound(Message::new_data(id_a(), b"x".to_vec())), 1),
        Action::Publish { payload: b"x".to_vec(), targets: vec![id_b()] }
    );
    assert_eq!(
        a.step(Event::Inbound(signed(id_b(), b"x")), 2),
        Action::Dropped(DropReason::Duplicate)
    );
}
