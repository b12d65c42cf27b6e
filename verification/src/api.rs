//! The adapter contract: the capability set every platform binding exposes to
//! the runtime, and the capacity-1 event queue every adapter owns.
use vstd::prelude::*;

use crate::{ApiHandle, Event, User};

pub mod cli;
pub mod mock;
pub mod onebot_11;
pub mod telegram;

verus! {

/// The outcome of pulling from an adapter's event queue: a decoded event, an
/// empty queue that may still fill, or a closed queue that never will again.
#[derive(Debug)]
pub enum Polled {
    Event(Event),
    Empty,
    Closed,
}

/// A capacity-1 event queue with one producer (the adapter's ingestion loop)
/// and one consumer (the runtime's drain loop). The single slot bounds memory:
/// the producer must wait until the previous event has been pulled.
#[derive(Debug)]
pub struct EventSlot {
    pub slot: Option<Event>,
    pub closed: bool,
}

impl EventSlot {
    /// An empty, open queue.
    pub fn new() -> (q: Self)
        ensures
            q.slot is None,
            !q.closed,
    {
        Self { slot: None, closed: false }
    }

    /// Offers an event. An empty open queue accepts it; a full or closed
    /// queue hands it back unchanged, and the producer must try again after
    /// the consumer has pulled.
    pub fn push(&mut self, event: Event) -> (r: Option<Event>)
        ensures
            final(self).closed == old(self).closed,
            old(self).slot is None && !old(self).closed ==> final(self).slot == Some(event)
                && r is None,
            old(self).slot is Some || old(self).closed ==> *final(self) == *old(self) && r == Some(
                event,
            ),
    {
        if self.closed {
            return Some(event);
        }
        match &self.slot {
            Some(_) => Some(event),
            None => {
                self.slot = Some(event);
                None
            },
        }
    }

    /// Pulls the pending event if there is one; otherwise reports whether the
    /// queue is merely empty or closed for good.
    pub fn pull(&mut self) -> (r: Polled)
        ensures
            final(self).closed == old(self).closed,
            final(self).slot is None,
            match r {
                Polled::Event(e) => old(self).slot == Some(e),
                Polled::Empty => old(self).slot is None && !old(self).closed,
                Polled::Closed => old(self).slot is None && old(self).closed,
            },
    {
        match self.slot.take() {
            Some(event) => Polled::Event(event),
            None => if self.closed {
                Polled::Closed
            } else {
                Polled::Empty
            },
        }
    }

    /// Closes the queue: a pending event can still be pulled, after which
    /// every pull reports end of stream.
    pub fn close(&mut self)
        ensures
            final(self).slot == old(self).slot,
            final(self).closed,
    {
        self.closed = true;
    }
}

/// The capability set every platform adapter exposes: its routing handle with
/// the bot's own identity, and pull-style retrieval from its capacity-1 event
/// queue. The platform-specific ingestion and outbound calls live with each
/// adapter.
pub trait BotAPI: Sized {
    /// The adapter's routing handle: its runtime key and its bot identity.
    spec fn api(&self) -> ApiHandle;

    /// The adapter's inbound event queue.
    spec fn events(&self) -> EventSlot;

    /// This adapter's own bot identity, used for self-mention detection.
    fn get_self_user(&self) -> (u: &User)
        ensures
            *u == self.api().self_user,
    ;

    /// The routing handle under which chats decoded by this adapter are
    /// issued.
    fn get_handle(&self) -> (h: &ApiHandle)
        ensures
            *h == self.api(),
    ;

    /// Pulls one decoded event from the adapter's queue; reports end of
    /// stream once the queue is closed and drained.
    fn next_event(&mut self) -> (r: Polled)
        ensures
            final(self).api() == old(self).api(),
            final(self).events().closed == old(self).events().closed,
            final(self).events().slot is None,
            match r {
                Polled::Event(e) => old(self).events().slot == Some(e),
                Polled::Empty => old(self).events().slot is None && !old(self).events().closed,
                Polled::Closed => old(self).events().slot is None && old(self).events().closed,
            },
    ;
}

} // verus!
