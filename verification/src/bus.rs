//! In-process event fan-out built on a `tokio` broadcast channel.

use vstd::prelude::*;
use crate::event::{Event, RawEvent, severity_for};
use crate::ids::is_random_uuid;

verus! {

/// Default number of events retained for slow consumers.
pub const DEFAULT_CAPACITY: usize = 1024;

#[verifier::external_type_specification]
#[verifier::external_body]
#[verifier::reject_recursive_types(T)]
pub struct ExBroadcastSender<T>(tokio::sync::broadcast::Sender<T>);

#[verifier::external_type_specification]
#[verifier::external_body]
#[verifier::reject_recursive_types(T)]
pub struct ExBroadcastReceiver<T>(tokio::sync::broadcast::Receiver<T>);

/// Calls `tokio::sync::broadcast::channel` and keeps the sending half (the
/// first receiver is dropped). tokio panics when `capacity` is zero or above
/// `usize::MAX / 2`, which `requires` rules out. Nothing is claimed of the
/// channel's state: it is shared and mutated behind `&self`.
#[verifier::external_body]
fn open_channel(capacity: usize) -> (tx: tokio::sync::broadcast::Sender<Event>)
    requires
        0 < capacity <= usize::MAX / 2,
{
    tokio::sync::broadcast::channel(capacity).0
}

/// Calls `Sender::send` with a clone of `event`. tokio's source returns
/// `Ok(n)` with `n` the number of live receivers, which is positive, and an
/// error exactly when there are none; which of the two happens depends on
/// subscribers elsewhere, so only the bound on `n` is claimed.
#[verifier::external_body]
fn channel_send(tx: &tokio::sync::broadcast::Sender<Event>, event: &Event) -> (r: Result<usize, ()>)
    ensures
        r matches Ok(n) ==> n > 0,
{
    tx.send(event.clone()).map_err(|_| ())
}

/// Calls `Sender::subscribe`: a new receiver of the events sent from now on.
#[verifier::external_body]
fn channel_subscribe(tx: &tokio::sync::broadcast::Sender<Event>) -> (rx: tokio::sync::broadcast::Receiver<Event>)
{
    tx.subscribe()
}

/// Calls `Sender::receiver_count`; the count changes as receivers come and go,
/// so nothing is claimed of it.
#[verifier::external_body]
fn channel_receiver_count(tx: &tokio::sync::broadcast::Sender<Event>) -> (n: usize)
{
    tx.receiver_count()
}

/// Calls `Sender::clone`. tokio's clone copies the `Arc` of the shared channel
/// state (and counts one more sender), so the clone sends on the same channel.
/// The library models a sender by the channel it feeds; in that model the
/// clone equals the original.
#[verifier::external_body]
fn channel_clone(tx: &tokio::sync::broadcast::Sender<Event>) -> (c: tokio::sync::broadcast::Sender<Event>)
    ensures
        c == *tx,
{
    tx.clone()
}

/// Producer handle.
pub type EventSender = tokio::sync::broadcast::Sender<Event>;

/// Consumer handle; each subscriber gets its own.
pub type EventReceiver = tokio::sync::broadcast::Receiver<Event>;

/// Shared fan-out bus: ingest raw producer events, broadcast enriched events.
#[derive(Debug)]
pub struct EventBus {
    tx: tokio::sync::broadcast::Sender<Event>,
    /// The capacity the channel was opened with.
    capacity: usize,
}

/// Errors that can occur when publishing (reserved for a future
/// back-pressure policy; publishing never fails today).
#[derive(Debug, Clone, Copy, PartialEq, Eq, Structural)]
pub enum PublishError {
    Closed,
}

impl PublishError {
    /// Human-readable message for the error.
    pub fn message(&self) -> (s: &'static str)
        ensures
            s@ == "event bus closed"@,
    {
        "event bus closed"
    }
}

impl EventBus {
    /// The capacity the bus's channel was opened with.
    pub closed spec fn capacity(&self) -> nat {
        self.capacity as nat
    }

    /// A bus on a new channel retaining up to `capacity` events for slow
    /// consumers.
    pub fn new(capacity: usize) -> (b: Self)
        requires
            0 < capacity <= usize::MAX / 2,
        ensures
            b.capacity() == capacity,
    {
        EventBus { tx: open_channel(capacity), capacity }
    }

    /// A bus with [`DEFAULT_CAPACITY`].
    pub fn with_default_capacity() -> (b: Self)
        ensures
            b.capacity() == DEFAULT_CAPACITY,
    {
        EventBus::new(DEFAULT_CAPACITY)
    }

    /// Subscribe to the live event stream.
    pub fn subscribe(&self) -> (rx: EventReceiver) {
        channel_subscribe(&self.tx)
    }

    /// Promote a [`RawEvent`] and broadcast it; returns the enriched event.
    pub fn publish_raw(&self, raw: RawEvent) -> (r: Result<Event, PublishError>)
        ensures
            r matches Ok(e) && e.session_id == raw.session_id && e.source == raw.source && e.kind == raw.kind
                && e.severity == severity_for(raw.kind) && is_random_uuid(e.id.0),
    {
        let event = raw.into_event();
        self.publish(event)
    }

    /// Broadcast an enriched event. Publishing with no subscriber is not an
    /// error: the event is handed back either way.
    pub fn publish(&self, event: Event) -> (r: Result<Event, PublishError>)
        ensures
            r == Ok::<Event, PublishError>(event),
    {
        match channel_send(&self.tx, &event) {
            Ok(_subscribers) => Ok(event),
            Err(()) => Ok(event),
        }
    }

    /// Number of active subscribers (approximate; for diagnostics).
    pub fn receiver_count(&self) -> (n: usize) {
        channel_receiver_count(&self.tx)
    }

    /// Another handle on the same channel, which keeps its capacity.
    pub fn share(&self) -> (b: Self)
        ensures
            b == *self,
            b.capacity() == self.capacity(),
    {
        EventBus { tx: channel_clone(&self.tx), capacity: self.capacity }
    }
}

impl Clone for EventBus {
    fn clone(&self) -> (b: Self)
        ensures
            b == *self,
            b.capacity() == self.capacity(),
    {
        self.share()
    }
}

impl Default for EventBus {
    fn default() -> (b: Self)
        ensures
            b.capacity() == DEFAULT_CAPACITY,
    {
        EventBus::with_default_capacity()
    }
}

} // verus!
