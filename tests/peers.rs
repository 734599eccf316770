use bot_bridge::event::{ClientEvent, CommandEvent, DropEvent};
use bot_bridge::registry::{delivery_outcome, Registry, SendError};
use tokio::sync::mpsc::channel;
use tokio::sync::mpsc::error::TrySendError;

fn command(id: u64) -> ClientEvent {
    ClientEvent::Command(CommandEvent { command_id: id, command: "list".to_string() })
}

const A: (u128, u16) = (0xffff_7f00_0001, 4000);
const B: (u128, u16) = (0xffff_7f00_0001, 4001);

#[test]
fn send_to_unknown_address_is_not_connected() {
    let r = Registry::new();
    assert_eq!(r.send_to(A, command(1)), Err(SendError::NotConnected));
    assert!(!r.is_registered(A));
}

#[test]
fn registered_peer_receives_events_in_order() {
    let mut r = Registry::new();
    let (tx, mut rx) = channel(100);
    r.register(A, tx);
    assert!(r.is_registered(A));
    assert_eq!(r.send_to(A, command(1)), Ok(()));
    assert_eq!(r.send_to(A, command(2)), Ok(()));
    match rx.try_recv().unwrap() {
        ClientEvent::Command(c) => assert_eq!(c.command_id, 1),
        other => panic!("unexpected {:?}", other),
    }
    match rx.try_recv().unwrap() {
        ClientEvent::Command(c) => assert_eq!(c.command_id, 2),
        other => panic!("unexpected {:?}", other),
    }
}

#[test]
fn unregister_removes_only_that_address() {
    let mut r = Registry::new();
    let (ta, _ra) = channel(10);
    let (tb, mut rb) = channel(10);
    r.register(A, ta);
    r.register(B, tb);
    r.unregister(A);
    assert!(!r.is_registered(A));
    assert!(r.is_registered(B));
    assert_eq!(r.send_to(A, command(3)), Err(SendError::NotConnected));
    assert_eq!(r.send_to(B, command(4)), Ok(()));
    assert!(rb.try_recv().is_ok());
    r.unregister(A);
    assert!(r.is_registered(B));
}

#[test]
fn register_replaces_stale_entry() {
    let mut r = Registry::new();
    let (old_tx, old_rx) = channel(10);
    drop(old_rx);
    r.register(A, old_tx);
    assert_eq!(r.send_to(A, command(5)), Err(SendError::Closed));
    let (tx, mut rx) = channel(10);
    r.register(A, tx);
    assert_eq!(r.send_to(A, command(6)), Ok(()));
    assert!(rx.try_recv().is_ok());
}

#[test]
fn full_queue_is_reported() {
    let mut r = Registry::new();
    let (tx, _rx) = channel(1);
    r.register(A, tx);
    assert_eq!(r.send_to(A, command(1)), Ok(()));
    assert_eq!(r.send_to(A, command(2)), Err(SendError::QueueFull));
}

#[test]
fn delivery_outcome_maps_each_result() {
    let drop_event = || ClientEvent::Drop(DropEvent { reason: "bye".to_string() });
    assert_eq!(delivery_outcome(Ok(())), Ok(()));
    assert_eq!(delivery_outcome(Err(TrySendError::Full(drop_event()))), Err(SendError::QueueFull));
    assert_eq!(delivery_outcome(Err(TrySendError::Closed(drop_event()))), Err(SendError::Closed));
}
