use game_server::broker::{Broker, NotifyMessage, QUEUE_CAPACITY};
use game_server::session::{step, ConnAction, ConnEvent, ConnState, KEEP_ALIVE_SECS};

fn deleted_id(m: &NotifyMessage) -> u64 {
    match m {
        NotifyMessage::GameDeleted { id } => *id,
        NotifyMessage::GameCreated { .. } => panic!("expected a deletion"),
    }
}

#[test]
fn publish_reaches_every_subscriber_once_in_order() {
    let mut broker = Broker::new();
    for id in 0..5u64 {
        broker.register(id, id + 10);
    }
    broker.publish(&NotifyMessage::delete_game(1));
    broker.publish(&NotifyMessage::delete_game(2));
    for id in 0..5u64 {
        let got = broker.take_pending(id);
        assert_eq!(got.len(), 2);
        assert_eq!(deleted_id(&got[0]), 1);
        assert_eq!(deleted_id(&got[1]), 2);
    }
}

#[test]
fn publish_to_empty_registry_does_nothing() {
    let mut broker = Broker::new();
    broker.publish(&NotifyMessage::new_game(1, "Foo".to_string()));
    assert_eq!(broker.len(), 0);
}

#[test]
fn register_is_idempotent_and_deregister_tolerates_unknown_ids() {
    let mut broker = Broker::new();
    broker.register(1, 5);
    broker.register(1, 6);
    assert_eq!(broker.len(), 1);
    broker.deregister(9);
    assert_eq!(broker.len(), 1);
    broker.deregister(1);
    broker.deregister(1);
    assert_eq!(broker.len(), 0);
    assert!(!broker.is_registered(1));
}

#[test]
fn late_joiner_gets_no_replay() {
    let mut broker = Broker::new();
    broker.register(1, 1);
    broker.publish(&NotifyMessage::delete_game(4));
    broker.register(2, 2);
    assert_eq!(broker.take_pending(2).len(), 0);
    assert_eq!(broker.take_pending(1).len(), 1);
}

#[test]
fn deregistered_connection_receives_nothing() {
    let mut broker = Broker::new();
    broker.register(1, 1);
    broker.register(2, 2);
    broker.deregister(1);
    broker.publish(&NotifyMessage::delete_game(4));
    assert_eq!(broker.take_pending(1).len(), 0);
    assert_eq!(broker.take_pending(2).len(), 1);
}

#[test]
fn full_queue_drops_the_newest_message() {
    let mut broker = Broker::new();
    broker.register(1, 1);
    for k in 0..(QUEUE_CAPACITY as u64 + 3) {
        broker.publish(&NotifyMessage::delete_game(k));
    }
    let got = broker.take_pending(1);
    assert_eq!(got.len(), QUEUE_CAPACITY);
    assert_eq!(deleted_id(&got[0]), 0);
    assert_eq!(deleted_id(&got[QUEUE_CAPACITY - 1]), QUEUE_CAPACITY as u64 - 1);
    broker.publish(&NotifyMessage::delete_game(999));
    assert_eq!(deleted_id(&broker.take_pending(1)[0]), 999);
}

#[test]
fn connection_lifecycle_follows_the_state_machine() {
    assert_eq!(KEEP_ALIVE_SECS, 15);
    let (s, a) = step(ConnState::Connecting, ConnEvent::Upgrade);
    assert_eq!((s, a), (ConnState::Authenticating, ConnAction::Authenticate));
    let (s, a) = step(s, ConnEvent::Authenticated { principal: 3 });
    assert_eq!((s, a), (ConnState::Open, ConnAction::Register { principal: 3 }));
    let (s, a) = step(s, ConnEvent::KeepAliveDue);
    assert_eq!((s, a), (ConnState::Open, ConnAction::SendKeepAlive));
    let (s, a) = step(s, ConnEvent::PeerClosed);
    assert_eq!((s, a), (ConnState::Closing, ConnAction::Deregister));
    let (s, a) = step(s, ConnEvent::Drained);
    assert_eq!((s, a), (ConnState::Closed, ConnAction::Nothing));
    assert_eq!(step(s, ConnEvent::Upgrade), (ConnState::Closed, ConnAction::Nothing));
}

#[test]
fn failed_authentication_rejects_without_registering() {
    let (s, a) = step(ConnState::Authenticating, ConnEvent::AuthFailed);
    assert_eq!((s, a), (ConnState::Unauthorized, ConnAction::Reject));
    assert_eq!(
        step(s, ConnEvent::Authenticated { principal: 1 }),
        (ConnState::Unauthorized, ConnAction::Nothing)
    );
}
