//! The registry of live connections: for each peer address, the sending end
//! of that connection's outbound queue.
use vstd::prelude::*;
use dashmap::DashMap;
use tokio::sync::mpsc::Sender;
use tokio::sync::mpsc::error::TrySendError;
use crate::event::ClientEvent;

verus! {

/// A peer's address: its IP address as 128 bits (IPv4 addresses mapped into
/// IPv6) and its port.
pub type PeerAddr = (u128, u16);

#[verifier::external_type_specification]
#[verifier::external_body]
#[verifier::reject_recursive_types(K)]
#[verifier::reject_recursive_types(V)]
#[verifier::reject_recursive_types(S)]
pub struct ExDashMap<K, V, S>(DashMap<K, V, S>);

#[verifier::external_type_specification]
#[verifier::external_body]
#[verifier::reject_recursive_types(T)]
pub struct ExSender<T>(Sender<T>);

#[verifier::external_type_specification]
#[verifier::reject_recursive_types(T)]
pub struct ExTrySendError<T>(TrySendError<T>);

/// The addresses that hold an entry in a map of outbound senders.
pub uninterp spec fn registered(m: DashMap<PeerAddr, Sender<ClientEvent>>) -> Set<PeerAddr>;

/// Relies on `tokio::sync::mpsc::Sender::try_send`: it either queues the
/// message, or fails because the queue is full or its receiver is gone and
/// hands the message back unchanged.
pub assume_specification<T>[ Sender::<T>::try_send ](
    sender: &Sender<T>,
    message: T,
) -> (r: Result<(), TrySendError<T>>)
    ensures
        r matches Err(TrySendError::Full(m)) ==> m == message,
        r matches Err(TrySendError::Closed(m)) ==> m == message,
;

/// Relies on `DashMap::new`: a new map is empty.
#[verifier::external_body]
fn map_new() -> (r: DashMap<PeerAddr, Sender<ClientEvent>>)
    ensures
        registered(r) == Set::<PeerAddr>::empty(),
{
    DashMap::new()
}

/// Relies on `DashMap::insert`: the key holds an entry afterwards, replacing
/// any earlier one; no other key changes.
#[verifier::external_body]
fn map_insert(m: &mut DashMap<PeerAddr, Sender<ClientEvent>>, k: PeerAddr, v: Sender<ClientEvent>)
    ensures
        registered(*final(m)) == registered(*old(m)).insert(k),
{
    m.insert(k, v);
}

/// Relies on `DashMap::remove`: the key holds no entry afterwards; no other
/// key changes.
#[verifier::external_body]
fn map_remove(m: &mut DashMap<PeerAddr, Sender<ClientEvent>>, k: PeerAddr)
    ensures
        registered(*final(m)) == registered(*old(m)).remove(k),
{
    m.remove(&k);
}

/// Relies on `DashMap::contains_key`.
#[verifier::external_body]
fn map_contains(m: &DashMap<PeerAddr, Sender<ClientEvent>>, k: PeerAddr) -> (r: bool)
    ensures
        r == registered(*m).contains(k),
{
    m.contains_key(&k)
}

/// Relies on `DashMap::get`: the sender held for the key, if there is one,
/// taken out of the map's read guard by `Sender::clone` (a second handle on
/// the same queue).
#[verifier::external_body]
fn map_sender(m: &DashMap<PeerAddr, Sender<ClientEvent>>, k: PeerAddr) -> (r: Option<Sender<ClientEvent>>)
    ensures
        r.is_some() == registered(*m).contains(k),
{
    m.get(&k).map(|e| e.value().clone())
}

/// Why an event could not be queued for a peer.
#[derive(Clone, Copy, Debug, PartialEq, Eq, Structural)]
pub enum SendError {
    /// No connection with that address is registered.
    NotConnected,
    /// The connection's outbound queue is full.
    QueueFull,
    /// The connection's session has ended.
    Closed,
}

/// Maps each live peer address to the sending end of its outbound queue.
pub struct Registry {
    map: DashMap<PeerAddr, Sender<ClientEvent>>,
}

impl View for Registry {
    type V = Set<PeerAddr>;

    closed spec fn view(&self) -> Set<PeerAddr> {
        registered(self.map)
    }
}

impl Registry {
    /// A registry with no entry.
    pub fn new() -> (r: Registry)
        ensures
            r@ == Set::<PeerAddr>::empty(),
    {
        Registry { map: map_new() }
    }

    /// Records the sender of the connection with address `addr`, replacing
    /// any stale entry for that address.
    pub fn register(&mut self, addr: PeerAddr, sender: Sender<ClientEvent>)
        ensures
            final(self)@ == old(self)@.insert(addr),
    {
        map_insert(&mut self.map, addr, sender);
    }

    /// Removes the entry for `addr`, if there is one.
    pub fn unregister(&mut self, addr: PeerAddr)
        ensures
            final(self)@ == old(self)@.remove(addr),
    {
        map_remove(&mut self.map, addr);
    }

    /// Whether a connection with address `addr` is registered.
    pub fn is_registered(&self, addr: PeerAddr) -> (r: bool)
        ensures
            r == self@.contains(addr),
    {
        map_contains(&self.map, addr)
    }

    /// Queues `event` for the connection with address `addr`. Fails with
    /// `NotConnected` exactly when no such connection is registered; a
    /// registered connection may still refuse the event when its queue is
    /// full or its session has ended.
    pub fn send_to(&self, addr: PeerAddr, event: ClientEvent) -> (r: Result<(), SendError>)
        ensures
            (r == Err::<(), SendError>(SendError::NotConnected)) == !self@.contains(addr),
    {
        match map_sender(&self.map, addr) {
            None => Err(SendError::NotConnected),
            Some(sender) => delivery_outcome(sender.try_send(event)),
        }
    }
}

/// What queueing on a registered connection's sender comes to.
pub fn delivery_outcome(r: Result<(), TrySendError<ClientEvent>>) -> (out: Result<(), SendError>)
    ensures
        r is Ok ==> out == Ok::<(), SendError>(()),
        r matches Err(TrySendError::Full(_)) ==> out == Err::<(), SendError>(SendError::QueueFull),
        r matches Err(TrySendError::Closed(_)) ==> out == Err::<(), SendError>(SendError::Closed),
{
    match r {
        Ok(()) => Ok(()),
        Err(TrySendError::Full(_)) => Err(SendError::QueueFull),
        Err(TrySendError::Closed(_)) => Err(SendError::Closed),
    }
}

/// Registering or unregistering one address leaves the entry of every other
/// address as it was, and such operations on two different addresses give
/// the same registry in either order.
pub proof fn lemma_disjoint_addresses(s: Set<PeerAddr>, a: PeerAddr, b: PeerAddr)
    requires
        a != b,
    ensures
        s.insert(a).contains(b) == s.contains(b),
        s.remove(a).contains(b) == s.contains(b),
        s.insert(a).insert(b) == s.insert(b).insert(a),
        s.insert(a).remove(b) == s.remove(b).insert(a),
        s.remove(a).remove(b) == s.remove(b).remove(a),
{
    assert(s.insert(a).insert(b) =~= s.insert(b).insert(a));
    assert(s.insert(a).remove(b) =~= s.remove(b).insert(a));
    assert(s.remove(a).remove(b) =~= s.remove(b).remove(a));
}

} // verus!
