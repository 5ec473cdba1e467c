//! Messages that cross the two local channels, and the status notes that
//! report a peer joining or leaving.

use vstd::prelude::*;
use crate::peer::{copy_bytes, PeerId};

verus! {

/// What a message is for. Status messages stay on the local side of the
/// transport; only data messages travel over the mesh.
#[derive(Clone, Copy, Debug, PartialEq, Eq, Structural)]
pub enum MessageKind {
    Status,
    Data,
}

/// A message as the contracts see it.
pub struct MessageView {
    pub kind: MessageKind,
    pub origin: Seq<u8>,
    pub payload: Seq<u8>,
}

/// A message: its kind, the peer it comes from, and opaque payload bytes.
#[derive(Debug, PartialEq, Eq)]
pub struct Message {
    pub kind: MessageKind,
    pub origin: PeerId,
    pub payload: Vec<u8>,
}

impl View for Message {
    type V = MessageView;

    open spec fn view(&self) -> MessageView {
        MessageView { kind: self.kind, origin: self.origin@, payload: self.payload@ }
    }
}

/// The two things a status note can report.
#[derive(Clone, Copy, Debug, PartialEq, Eq, Structural)]
pub enum StatusKind {
    Join,
    Leave,
}

/// A status note as the contracts see it.
pub struct StatusView {
    pub kind: StatusKind,
    pub note: Seq<u8>,
}

/// A status note: what happened, and free text about it.
#[derive(Debug, PartialEq, Eq)]
pub struct StatusMessage {
    pub kind: StatusKind,
    pub note: Vec<u8>,
}

impl View for StatusMessage {
    type V = StatusView;

    open spec fn view(&self) -> StatusView {
        StatusView { kind: self.kind, note: self.note@ }
    }
}

/// The byte that stands for a status kind at the head of an encoded note.
pub open spec fn status_tag(kind: StatusKind) -> u8 {
    match kind {
        StatusKind::Join => 1u8,
        StatusKind::Leave => 2u8,
    }
}

/// The encoding of a status note: its tag, then the text.
pub open spec fn encode_status(status: StatusView) -> Seq<u8> {
    seq![status_tag(status.kind)] + status.note
}

/// The status note that `bytes` encode, if they encode one.
pub open spec fn decode_status(bytes: Seq<u8>) -> Option<StatusView> {
    if bytes.len() == 0 {
        None
    } else if bytes[0] == 1u8 {
        Some(StatusView { kind: StatusKind::Join, note: bytes.skip(1) })
    } else if bytes[0] == 2u8 {
        Some(StatusView { kind: StatusKind::Leave, note: bytes.skip(1) })
    } else {
        None
    }
}

/// Decoding an encoded status note gives the note back.
pub proof fn lemma_status_round_trip(status: StatusView)
    ensures
        decode_status(encode_status(status)) == Some(status),
{
    let bytes = encode_status(status);
    assert(bytes[0] == status_tag(status.kind));
    assert(bytes.skip(1) =~= status.note);
}

/// Two status notes with the same encoding are the same note.
pub proof fn lemma_status_encoding_injective(a: StatusView, b: StatusView)
    requires
        encode_status(a) == encode_status(b),
    ensures
        a == b,
{
    lemma_status_round_trip(a);
    lemma_status_round_trip(b);
}

impl StatusMessage {
    /// A note that a peer joined.
    pub fn new_join(note: Vec<u8>) -> (status: StatusMessage)
        ensures
            status@ == (StatusView { kind: StatusKind::Join, note: note@ }),
    {
        StatusMessage { kind: StatusKind::Join, note }
    }

    /// A note that a peer left.
    pub fn new_leave(note: Vec<u8>) -> (status: StatusMessage)
        ensures
            status@ == (StatusView { kind: StatusKind::Leave, note: note@ }),
    {
        StatusMessage { kind: StatusKind::Leave, note }
    }

    /// The bytes that carry this note as a payload.
    pub fn encode(&self) -> (bytes: Vec<u8>)
        ensures
            bytes@ == encode_status(self@),
    {
        let mut bytes: Vec<u8> = Vec::new();
        match self.kind {
            StatusKind::Join => bytes.push(1u8),
            StatusKind::Leave => bytes.push(2u8),
        }
        let mut i: usize = 0;
        while i < self.note.len()
            invariant
                i <= self.note.len(),
                bytes@ == seq![status_tag(self.kind)] + self.note@.take(i as int),
            decreases self.note.len() - i,
        {
            bytes.push(self.note[i]);
            i += 1;
            assert(self.note@.take(i as int) == self.note@.take(i as int - 1).push(
                self.note@[i as int - 1],
            ));
            assert(bytes@ =~= seq![status_tag(self.kind)] + self.note@.take(i as int));
        }
        assert(self.note@.take(self.note.len() as int) == self.note@);
        bytes
    }

    /// Reads a status note back from payload bytes. Bytes that are empty or
    /// start with an unknown tag carry no note.
    pub fn decode(bytes: &Vec<u8>) -> (status: Option<StatusMessage>)
        ensures
            status is Some <==> decode_status(bytes@) is Some,
            status matches Some(s) ==> Some(s@) == decode_status(bytes@),
    {
        if bytes.len() == 0 {
            return None;
        }
        let tag: u8 = bytes[0];
        if tag != 1u8 && tag != 2u8 {
            return None;
        }
        let mut note: Vec<u8> = Vec::new();
        let mut i: usize = 1;
        while i < bytes.len()
            invariant
                1 <= i <= bytes.len(),
                note@ == bytes@.subrange(1, i as int),
            decreases bytes.len() - i,
        {
            note.push(bytes[i]);
            i += 1;
            assert(bytes@.subrange(1, i as int) == bytes@.subrange(1, i as int - 1).push(
                bytes@[i as int - 1],
            ));
        }
        assert(bytes@.subrange(1, bytes.len() as int) == bytes@.skip(1));
        if tag == 1u8 {
            Some(StatusMessage { kind: StatusKind::Join, note })
        } else {
            Some(StatusMessage { kind: StatusKind::Leave, note })
        }
    }
}

impl Message {
    /// A message of the given kind.
    pub fn new(kind: MessageKind, origin: PeerId, payload: Vec<u8>) -> (msg: Message)
        ensures
            msg@ == (MessageView { kind, origin: origin@, payload: payload@ }),
    {
        Message { kind, origin, payload }
    }

    /// A data message.
    pub fn new_data(origin: PeerId, payload: Vec<u8>) -> (msg: Message)
        ensures
            msg@ == (MessageView { kind: MessageKind::Data, origin: origin@, payload: payload@ }),
    {
        Message { kind: MessageKind::Data, origin, payload }
    }

    /// A status message about `origin` that carries `status`.
    pub fn new_status(origin: PeerId, status: &StatusMessage) -> (msg: Message)
        ensures
            msg@ == status_message(origin@, status@),
    {
        Message { kind: MessageKind::Status, origin, payload: status.encode() }
    }

    /// Tells whether this is a status message.
    pub fn is_status(&self) -> (yes: bool)
        ensures
            yes == (self@.kind == MessageKind::Status),
    {
        self.kind == MessageKind::Status
    }

    /// Tells whether this is a data message.
    pub fn is_data(&self) -> (yes: bool)
        ensures
            yes == (self@.kind == MessageKind::Data),
    {
        self.kind == MessageKind::Data
    }
}

impl Clone for Message {
    fn clone(&self) -> (copy: Message)
        ensures
            copy@ == self@,
    {
        Message { kind: self.kind, origin: self.origin.clone(), payload: copy_bytes(&self.payload) }
    }
}

/// The status message about `origin` that carries `status`.
pub open spec fn status_message(origin: Seq<u8>, status: StatusView) -> MessageView {
    MessageView { kind: MessageKind::Status, origin, payload: encode_status(status) }
}

/// The message that tells the local application that `peer` joined. Its
/// note is the peer's identifier.
pub open spec fn join_message(peer: Seq<u8>) -> MessageView {
    status_message(peer, StatusView { kind: StatusKind::Join, note: peer })
}

/// The message that tells the local application that `peer` left. Its note
/// is the peer's identifier.
pub open spec fn leave_message(peer: Seq<u8>) -> MessageView {
    status_message(peer, StatusView { kind: StatusKind::Leave, note: peer })
}

/// The data message that relays `payload` from `origin`.
pub open spec fn data_message(origin: Seq<u8>, payload: Seq<u8>) -> MessageView {
    MessageView { kind: MessageKind::Data, origin, payload }
}

} // verus!
