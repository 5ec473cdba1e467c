//! The inbound delivery sink: where the event loop leaves messages for the
//! local application. A message that the sink cannot take is dropped.

use vstd::prelude::*;
use crate::message::{Message, MessageView};

verus! {

/// Why the sink did not take a message.
#[derive(Clone, Copy, Debug, PartialEq, Eq, Structural)]
pub enum SinkError {
    /// The application has closed the sink.
    Closed,
    /// The sink holds as many messages as it can.
    Full,
}

/// A sink as the contracts see it.
pub struct SinkView {
    pub waiting: Seq<MessageView>,
    pub capacity: usize,
    pub closed: bool,
}

/// Why a sink in this state refuses a message, if it does. A closed sink
/// refuses everything; an open one refuses when it is full.
pub open spec fn refusal(sink: SinkView) -> Option<SinkError> {
    if sink.closed {
        Some(SinkError::Closed)
    } else if sink.waiting.len() >= sink.capacity {
        Some(SinkError::Full)
    } else {
        None
    }
}

/// The sink after `msg` was offered: the message is added at the end if it
/// was not refused, and dropped if it was.
pub open spec fn after_offer(sink: SinkView, msg: MessageView) -> SinkView {
    if refusal(sink) is None {
        SinkView { waiting: sink.waiting.push(msg), ..sink }
    } else {
        sink
    }
}

/// The messages of a vector, each by its view.
pub open spec fn message_views(messages: Seq<Message>) -> Seq<MessageView> {
    Seq::new(messages.len(), |i: int| messages[i]@)
}

/// A bounded queue of delivered messages that the application reads from
/// and may close.
#[derive(Debug)]
pub struct InboundSink {
    pub waiting: Vec<Message>,
    pub capacity: usize,
    pub closed: bool,
}

impl View for InboundSink {
    type V = SinkView;

    open spec fn view(&self) -> SinkView {
        SinkView {
            waiting: message_views(self.waiting@),
            capacity: self.capacity,
            closed: self.closed,
        }
    }
}

impl InboundSink {
    /// An open, empty sink that holds up to `capacity` messages.
    pub fn new(capacity: usize) -> (sink: InboundSink)
        ensures
            sink@ == (SinkView { waiting: Seq::<MessageView>::empty(), capacity, closed: false }),
    {
        let sink = InboundSink { waiting: Vec::new(), capacity, closed: false };
        assert(message_views(sink.waiting@) =~= Seq::<MessageView>::empty());
        sink
    }

    /// Offers `msg` to the sink without waiting. A message that is refused
    /// is dropped, and the reason comes back.
    pub fn offer(&mut self, msg: Message) -> (taken: Result<(), SinkError>)
        ensures
            final(self)@ == after_offer(old(self)@, msg@),
            taken is Ok <==> refusal(old(self)@) is None,
            taken matches Err(reason) ==> refusal(old(self)@) == Some(reason),
    {
        if self.closed {
            Err(SinkError::Closed)
        } else if self.waiting.len() >= self.capacity {
            Err(SinkError::Full)
        } else {
            let ghost before = message_views(self.waiting@);
            let ghost added = msg@;
            self.waiting.push(msg);
            assert(message_views(self.waiting@) =~= before.push(added));
            Ok(())
        }
    }

    /// Takes the oldest waiting message out, if there is one.
    pub fn take(&mut self) -> (msg: Option<Message>)
        ensures
            final(self)@.capacity == old(self)@.capacity,
            final(self)@.closed == old(self)@.closed,
            msg is Some <==> old(self)@.waiting.len() > 0,
            msg is None ==> final(self)@ == old(self)@,
            msg matches Some(m) ==> m@ == old(self)@.waiting[0]
                && final(self)@.waiting == old(self)@.waiting.skip(1),
    {
        if self.waiting.len() == 0 {
            None
        } else {
            let ghost before = message_views(self.waiting@);
            let first = self.waiting.remove(0);
            assert(message_views(self.waiting@) =~= before.skip(1));
            Some(first)
        }
    }

    /// Closes the sink. What waits in it stays; nothing more is taken.
    pub fn close(&mut self)
        ensures
            final(self)@ == (SinkView { closed: true, ..old(self)@ }),
    {
        self.closed = true;
    }
}

} // verus!
