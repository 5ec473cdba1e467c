//! The outbound submission slot: a channel of capacity one between the
//! local application and the event loop.

use vstd::prelude::*;
use crate::message::{Message, MessageView};

verus! {

/// How many messages the outbound slot holds.
pub const OUTBOUND_CAPACITY: usize = 1;

/// The slot after a send is tried: a free slot takes the message, a taken
/// slot stays as it is.
pub open spec fn slot_after_send(
    slot: Option<MessageView>,
    msg: MessageView,
) -> Option<MessageView> {
    match slot {
        None => Some(msg),
        Some(waiting) => Some(waiting),
    }
}

/// A send is accepted exactly if the slot is free.
pub open spec fn send_accepted(slot: Option<MessageView>) -> bool {
    slot is None
}

/// Of two sends with no drain between them the second is never accepted,
/// whatever the slot held before, and it leaves the slot as the first left
/// it. After a drain the next send is accepted.
pub proof fn lemma_second_send_must_wait(
    slot: Option<MessageView>,
    first: MessageView,
    second: MessageView,
)
    ensures
        !send_accepted(slot_after_send(slot, first)),
        slot_after_send(slot_after_send(slot, first), second) == slot_after_send(slot, first),
        send_accepted(None),
{
}

/// The outbound slot. A sender that finds it taken has to wait until the
/// event loop has drained it.
pub struct Outbox {
    pub slot: Option<Message>,
}

impl View for Outbox {
    type V = Option<MessageView>;

    open spec fn view(&self) -> Option<MessageView> {
        match self.slot {
            Some(msg) => Some(msg@),
            None => None,
        }
    }
}

impl Outbox {
    /// A free slot.
    pub fn new() -> (outbox: Outbox)
        ensures
            outbox@ is None,
    {
        Outbox { slot: None }
    }

    /// Tells whether the slot is taken.
    pub fn is_full(&self) -> (full: bool)
        ensures
            full == !send_accepted(self@),
    {
        self.slot.is_some()
    }

    /// The number of messages that wait: zero or one.
    pub fn len(&self) -> (n: usize)
        ensures
            n <= OUTBOUND_CAPACITY,
            n == (if self@ is Some { 1usize } else { 0usize }),
    {
        if self.slot.is_some() {
            1
        } else {
            0
        }
    }

    /// Puts `msg` into the slot if it is free. If it is taken, the message
    /// comes back and the sender has to wait for a drain.
    pub fn try_send(&mut self, msg: Message) -> (sent: Result<(), Message>)
        ensures
            sent is Ok <==> send_accepted(old(self)@),
            final(self)@ == slot_after_send(old(self)@, msg@),
            sent matches Err(back) ==> back@ == msg@,
    {
        if self.slot.is_some() {
            Err(msg)
        } else {
            self.slot = Some(msg);
            Ok(())
        }
    }

    /// Takes the waiting message out, if there is one, and frees the slot.
    pub fn drain(&mut self) -> (msg: Option<Message>)
        ensures
            final(self)@ is None,
            msg is Some <==> old(self)@ is Some,
            msg matches Some(m) ==> old(self)@ == Some(m@),
    {
        self.slot.take()
    }
}

} // verus!
