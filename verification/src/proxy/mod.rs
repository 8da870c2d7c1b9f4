//! Events that the data plane publishes, and the single slot that carries
//! them to the supervisor.

use vstd::prelude::*;

pub mod tcp;
pub mod udp;

verus! {

/// What a proxy task tells the supervisor.
#[derive(Debug, Clone, Copy, PartialEq, Eq, Structural)]
pub enum ProxyEvent {
    /// The destination refused or dropped a connection: the child is down.
    DestinationNotResponding,
    /// A failure outside the transient set: terminal for the whole program.
    UnknownError,
    /// Payload was forwarded: the child is in use.
    GotPacket,
    /// The slot's initial value: nothing happened yet.
    Nothing,
}

/// A last-value-wins slot: a publish overwrites what was there, and the
/// consumer sees only the latest value, once.
#[derive(Debug, Clone, Copy, PartialEq, Eq, Structural)]
pub struct EventSlot {
    latest: ProxyEvent,
    unseen: bool,
}

impl EventSlot {
    /// The value that the consumer would read now.
    pub closed spec fn latest(&self) -> ProxyEvent {
        self.latest
    }

    /// Whether a publish happened since the consumer last looked.
    pub closed spec fn changed(&self) -> bool {
        self.unseen
    }

    /// The slot after `event` was published.
    pub closed spec fn after_send(&self, event: ProxyEvent) -> EventSlot {
        EventSlot { latest: event, unseen: true }
    }

    /// The slot after each of `events` was published, in order.
    pub open spec fn after_sends(&self, events: Seq<ProxyEvent>) -> EventSlot
        decreases events.len(),
    {
        if events.len() == 0 {
            *self
        } else {
            self.after_sends(events.drop_last()).after_send(events.last())
        }
    }

    /// A slot that holds `Nothing`, with no change to report.
    pub fn new() -> (slot: EventSlot)
        ensures
            slot.latest() == ProxyEvent::Nothing,
            !slot.changed(),
    {
        EventSlot { latest: ProxyEvent::Nothing, unseen: false }
    }

    /// Overwrites the slot with `event` and marks it as changed.
    pub fn send(&mut self, event: ProxyEvent)
        ensures
            *final(self) == old(self).after_send(event),
            final(self).latest() == event,
            final(self).changed(),
    {
        self.latest = event;
        self.unseen = true;
    }

    /// Hands out the latest value if one was published since the last call,
    /// and marks it as seen. The value itself stays in the slot.
    pub fn take_changed(&mut self) -> (seen: Option<ProxyEvent>)
        ensures
            seen == (if old(self).changed() {
                Some(old(self).latest())
            } else {
                None
            }),
            final(self).latest() == old(self).latest(),
            !final(self).changed(),
    {
        if self.unseen {
            self.unseen = false;
            Some(self.latest)
        } else {
            None
        }
    }
}

/// Events coalesce: however many were published since the consumer last
/// looked, it finds a change and reads the last of them.
pub proof fn lemma_latest_event_wins(slot: EventSlot, events: Seq<ProxyEvent>)
    requires
        events.len() > 0,
    ensures
        slot.after_sends(events).changed(),
        slot.after_sends(events).latest() == events.last(),
{
}

} // verus!
