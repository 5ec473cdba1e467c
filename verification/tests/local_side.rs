use gossip_transport::discovery::{Discovery, DiscoveryEvent, DiscoveryPoll};
use gossip_transport::timer::PeriodicTimer;
use gossip_transport::gossip::DropReason;
use gossip_transport::identity::Identity;
use gossip_transport::message::Message;
use gossip_transport::peer::PeerId;
use gossip_transport::sink::{InboundSink, SinkError};
use gossip_transport::transporter::{Action, Event, Handed, Transporter};

fn peer(tag: u8) -> PeerId {
    PeerId::new(vec![tag; 4])
}

fn local_transporter(id: PeerId, window: u64) -> Transporter {
    let identity = Identity::from_secret(vec![id.bytes[0]; 32]).unwrap();
    Transporter::with_identity(identity, window)
}

#[test]
fn timer_fires_when_due_and_is_set_anew() {
    let mut timer = PeriodicTimer::new(10, 100);
    assert_eq!(timer, PeriodicTimer { period: 10, next_due: 110 });
    assert!(!timer.fire(109));
    assert_eq!(timer.next_due, 110);
    assert!(timer.fire(110));
    assert_eq!(timer.next_due, 120);
    assert!(timer.fire(135));
    assert_eq!(timer.next_due, 145);
    assert!(!timer.fire(144));
}

#[test]
fn timer_stops_at_the_end_of_time() {
    let timer = PeriodicTimer::new(10, u64::MAX - 3);
    assert_eq!(timer.next_due, u64::MAX);
    let mut always = PeriodicTimer::new(0, 5);
    assert!(always.fire(5));
    assert!(always.fire(5));
}

#[test]
fn discovery_poll_announces_and_sweeps_on_schedule() {
    let mut discovery = Discovery::new(30, 5, 10, 0);
    assert_eq!(discovery.announce_timer, PeriodicTimer { period: 5, next_due: 5 });
    assert_eq!(discovery.sweep_timer, PeriodicTimer { period: 10, next_due: 10 });
    discovery.on_announcement(peer(1), vec![1], 0);

    assert_eq!(discovery.poll(4), DiscoveryPoll { announce: false, expired: vec![] });
    assert_eq!(discovery.poll(5), DiscoveryPoll { announce: true, expired: vec![] });
    assert_eq!(discovery.poll(10), DiscoveryPoll { announce: true, expired: vec![] });
    assert_eq!(discovery.sweep_timer.next_due, 20);
    assert_eq!(discovery.poll(20), DiscoveryPoll { announce: true, expired: vec![] });
    // The record has run out at 30, but the sweep is not due before then.
    assert_eq!(discovery.poll(29), DiscoveryPoll { announce: true, expired: vec![] });
    assert_eq!(
        discovery.poll(31),
        DiscoveryPoll { announce: false, expired: vec![DiscoveryEvent::PeerExpired(peer(1))] }
    );
    assert_eq!(discovery.len(), 0);
}

#[test]
fn sink_takes_messages_until_full() {
    let mut sink = InboundSink::new(2);
    assert_eq!(sink.offer(Message::new_data(peer(1), vec![1])), Ok(()));
    assert_eq!(sink.offer(Message::new_data(peer(1), vec![2])), Ok(()));
    assert_eq!(sink.offer(Message::new_data(peer(1), vec![3])), Err(SinkError::Full));
    assert_eq!(sink.waiting.len(), 2);
    assert_eq!(sink.take(), Some(Message::new_data(peer(1), vec![1])));
    assert_eq!(sink.offer(Message::new_data(peer(1), vec![4])), Ok(()));
    assert_eq!(sink.take(), Some(Message::new_data(peer(1), vec![2])));
    assert_eq!(sink.take(), Some(Message::new_data(peer(1), vec![4])));
    assert_eq!(sink.take(), None);
}

#[test]
fn closed_sink_refuses_everything() {
    let mut sink = InboundSink::new(4);
    assert_eq!(sink.offer(Message::new_data(peer(1), vec![1])), Ok(()));
    sink.close();
    assert_eq!(sink.offer(Message::new_data(peer(1), vec![2])), Err(SinkError::Closed));
    assert_eq!(sink.waiting.len(), 1);
    assert_eq!(sink.take(), Some(Message::new_data(peer(1), vec![1])));
    let mut none = InboundSink::new(0);
    assert_eq!(none.offer(Message::new_data(peer(1), vec![])), Err(SinkError::Full));
}

#[test]
fn deliveries_go_to_the_sink_or_are_dropped() {
    let mut t = local_transporter(peer(1), 1_000);
    let mut sink = InboundSink::new(1);

    let joined = t.step(Event::Discovery(DiscoveryEvent::PeerJoined(peer(2))), 1);
    assert_eq!(Transporter::hand_over(joined, &mut sink), Handed::Delivered);
    assert_eq!(sink.waiting.len(), 1);
    assert!(sink.waiting[0].is_status());

    let left = t.step(Event::Discovery(DiscoveryEvent::PeerExpired(peer(2))), 2);
    assert_eq!(
        Transporter::hand_over(left, &mut sink),
        Handed::Undelivered(SinkError::Full)
    );
    assert_eq!(sink.waiting.len(), 1);
    assert!(t.peers.is_empty());

    sink.close();
    let again = t.step(Event::Discovery(DiscoveryEvent::PeerJoined(peer(3))), 3);
    assert_eq!(
        Transporter::hand_over(again, &mut sink),
        Handed::Undelivered(SinkError::Closed)
    );
    assert!(t.peers.contains(&peer(3)));
}

#[test]
fn other_actions_are_left_to_the_caller() {
    let mut sink = InboundSink::new(1);
    let publish = Action::Publish { payload: vec![1], targets: vec![peer(2)] };
    assert_eq!(
        Transporter::hand_over(publish, &mut sink),
        Handed::Left(Action::Publish { payload: vec![1], targets: vec![peer(2)] })
    );
    assert_eq!(
        Transporter::hand_over(Action::Dropped(DropReason::NoPeers), &mut sink),
        Handed::Left(Action::Dropped(DropReason::NoPeers))
    );
    assert_eq!(Transporter::hand_over(Action::Stop, &mut sink), Handed::Left(Action::Stop));
    assert!(sink.waiting.is_empty());
}
