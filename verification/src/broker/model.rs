//! The vocabulary of the broker: correlation keys, what comes in, what goes
//! out, and the broker's own lifecycle.

use vstd::prelude::*;
use serde_json::Value;
use crate::error::StreamingError;
use crate::model::text::same_text;

verus! {

/// Identifies one outstanding call.
#[derive(Clone, Copy, PartialEq, Eq, Hash, Debug, Structural)]
pub struct ApiRequestId(pub u128);

/// Identifies one active subscription to a named channel.
#[derive(Clone, Copy, PartialEq, Eq, Hash, Debug, Structural)]
pub struct ChannelId(pub u128);

/// Identifies one subscription to the updates of a note.
#[derive(Clone, Copy, PartialEq, Eq, Hash, Debug, Structural)]
pub struct SubNoteId(pub u128);

/// Identifies one active subscription to a broadcast type.
#[derive(Clone, Copy, PartialEq, Eq, Hash, Debug, Structural)]
pub struct BroadcastId(pub u128);

/// `Uuid::new_v4` draws a random UUID, and `Uuid::as_u128` packs its bytes
/// into a number. Every outcome carries the marks of a random UUID: version
/// four and the RFC variant.
#[verifier::external_body]
fn random_uuid() -> (id: u128)
    ensures
        id & 0x0000_0000_0000_f000_c000_0000_0000_0000u128
            == 0x0000_0000_0000_4000_8000_0000_0000_0000u128,
{
    uuid::Uuid::new_v4().as_u128()
}

/// The marks of a random UUID: version four, RFC variant.
pub open spec fn random_uuid_marks(id: u128) -> bool {
    id & 0x0000_0000_0000_f000_c000_0000_0000_0000u128
        == 0x0000_0000_0000_4000_8000_0000_0000_0000u128
}

impl ApiRequestId {
    /// A fresh id: a random UUID of version four.
    pub fn new() -> (id: ApiRequestId)
        ensures
            random_uuid_marks(id.0),
    {
        ApiRequestId(random_uuid())
    }
}

impl ChannelId {
    /// A fresh id: a random UUID of version four.
    pub fn new() -> (id: ChannelId)
        ensures
            random_uuid_marks(id.0),
    {
        ChannelId(random_uuid())
    }
}

impl SubNoteId {
    /// A fresh id: a random UUID of version four.
    pub fn new() -> (id: SubNoteId)
        ensures
            random_uuid_marks(id.0),
    {
        SubNoteId(random_uuid())
    }
}

impl BroadcastId {
    /// A fresh id: a random UUID of version four.
    pub fn new() -> (id: BroadcastId)
        ensures
            random_uuid_marks(id.0),
    {
        BroadcastId(random_uuid())
    }
}

/// The four kinds of correlation key.
#[derive(Clone, Copy, PartialEq, Eq, Hash, Debug, Structural)]
pub enum Kind {
    ApiRequest,
    Channel,
    SubNote,
    Broadcast,
}

/// A correlation key: a kind and an id that is unique within the kind.
#[derive(Clone, Copy, PartialEq, Eq, Hash, Debug, Structural)]
pub struct Key {
    pub kind: Kind,
    pub id: u128,
}

impl ApiRequestId {
    /// The key of this call.
    pub open spec fn key(self) -> Key {
        Key { kind: Kind::ApiRequest, id: self.0 }
    }
}

impl ChannelId {
    /// The key of this channel subscription.
    pub open spec fn key(self) -> Key {
        Key { kind: Kind::Channel, id: self.0 }
    }
}

impl SubNoteId {
    /// The key of this note subscription.
    pub open spec fn key(self) -> Key {
        Key { kind: Kind::SubNote, id: self.0 }
    }
}

impl BroadcastId {
    /// The key of this broadcast subscription.
    pub open spec fn key(self) -> Key {
        Key { kind: Kind::Broadcast, id: self.0 }
    }
}

/// The target of a subscription: where its values go, where the keepalive
/// pings of a channel go, and for a broadcast subscription the type of
/// message it listens for.
#[derive(Debug)]
pub struct Stream<S, P> {
    pub target: S,
    pub pong: Option<P>,
    pub topic: Option<String>,
}

/// A pending entry of the dispatch table.
#[derive(Debug)]
pub enum Entry<O, S, P> {
    /// A target that takes one value, once.
    OneShot(O),
    /// A target that takes values until it is closed.
    Stream(Stream<S, P>),
}

/// One entry with the key it is filed under.
#[derive(Debug)]
pub struct Slot<O, S, P> {
    pub key: Key,
    pub entry: Entry<O, S, P>,
}

/// What a decoded inbound frame says.
#[derive(Debug)]
#[allow(inconsistent_fields)]
pub enum Envelope {
    ApiResponse { id: ApiRequestId, result: Value },
    ChannelMessage { channel_id: ChannelId, body: Value },
    ChannelPong { channel_id: ChannelId },
    NoteUpdate { sub_note_id: SubNoteId, body: Value },
    Broadcast { type_: String, body: Value },
    /// A frame of no known shape, with its text.
    Unrecognized { frame: String },
}

/// What the driver reads off a frame so that it can be sorted: the type it is
/// tagged with, the correlation id it carries, and whether a channel frame is
/// a keepalive ping.
#[derive(Debug)]
pub struct Header {
    pub type_: String,
    pub id: Option<u128>,
    pub ping: bool,
}

impl Envelope {
    /// What a frame with this header says. A frame tagged `api` answers a
    /// call, one tagged `channel` belongs to a channel, one tagged
    /// `noteUpdated` to a note subscription; each of them must carry its id.
    /// Any other tag names a broadcast. A frame without a tag, or without the
    /// id it needs, has no known shape.
    pub open spec fn sorted(header: Header, body: Value, frame: String) -> Envelope {
        if header.type_@ == "api"@ {
            match header.id {
                Some(id) => Envelope::ApiResponse { id: ApiRequestId(id), result: body },
                None => Envelope::Unrecognized { frame },
            }
        } else if header.type_@ == "channel"@ {
            match header.id {
                Some(id) => if header.ping {
                    Envelope::ChannelPong { channel_id: ChannelId(id) }
                } else {
                    Envelope::ChannelMessage { channel_id: ChannelId(id), body }
                },
                None => Envelope::Unrecognized { frame },
            }
        } else if header.type_@ == "noteUpdated"@ {
            match header.id {
                Some(id) => Envelope::NoteUpdate { sub_note_id: SubNoteId(id), body },
                None => Envelope::Unrecognized { frame },
            }
        } else if header.type_@.len() > 0 {
            Envelope::Broadcast { type_: header.type_, body }
        } else {
            Envelope::Unrecognized { frame }
        }
    }

    /// Sorts a frame by its header. `frame` is the text of the frame, kept
    /// for the error in case the frame has no known shape.
    pub fn sort(header: Header, body: Value, frame: String) -> (e: Envelope)
        ensures
            e == Envelope::sorted(header, body, frame),
    {
        let Header { type_, id, ping } = header;
        if same_text(type_.as_str(), "api") {
            match id {
                Some(id) => Envelope::ApiResponse { id: ApiRequestId(id), result: body },
                None => Envelope::Unrecognized { frame },
            }
        } else if same_text(type_.as_str(), "channel") {
            match id {
                Some(id) => if ping {
                    Envelope::ChannelPong { channel_id: ChannelId(id) }
                } else {
                    Envelope::ChannelMessage { channel_id: ChannelId(id), body }
                },
                None => Envelope::Unrecognized { frame },
            }
        } else if same_text(type_.as_str(), "noteUpdated") {
            match id {
                Some(id) => Envelope::NoteUpdate { sub_note_id: SubNoteId(id), body },
                None => Envelope::Unrecognized { frame },
            }
        } else if type_.as_str().unicode_len() > 0 {
            Envelope::Broadcast { type_, body }
        } else {
            Envelope::Unrecognized { frame }
        }
    }
}

/// A control frame that the broker writes to the connection.
#[derive(Debug)]
#[allow(inconsistent_fields)]
pub enum OutgoingFrame {
    ApiCall { id: ApiRequestId, endpoint: String, parameters: Value },
    Connect { id: ChannelId, name: String, params: Value },
    Disconnect { id: ChannelId },
    SubscribeNote { id: SubNoteId, note_id: String },
    UnsubscribeNote { id: SubNoteId },
}

impl OutgoingFrame {
    /// The type that the frame is tagged with on the wire.
    pub open spec fn tag(self) -> Seq<char> {
        match self {
            OutgoingFrame::ApiCall { .. } => "api"@,
            OutgoingFrame::Connect { .. } => "connect"@,
            OutgoingFrame::Disconnect { .. } => "disconnect"@,
            OutgoingFrame::SubscribeNote { .. } => "subNote"@,
            OutgoingFrame::UnsubscribeNote { .. } => "unsubNote"@,
        }
    }

    /// The type that the frame is tagged with on the wire.
    pub fn wire_type(&self) -> (name: &'static str)
        ensures
            name@ == self.tag(),
    {
        match self {
            OutgoingFrame::ApiCall { .. } => "api",
            OutgoingFrame::Connect { .. } => "connect",
            OutgoingFrame::Disconnect { .. } => "disconnect",
            OutgoingFrame::SubscribeNote { .. } => "subNote",
            OutgoingFrame::UnsubscribeNote { .. } => "unsubNote",
        }
    }
}

/// A command that a client handle sends to the broker.
#[derive(Debug)]
#[allow(inconsistent_fields)]
pub enum BrokerControl<O, S, P> {
    ApiCall { id: ApiRequestId, endpoint: String, parameters: Value, sender: O },
    Connect { id: ChannelId, name: String, params: Value, sender: S, pong: P },
    Disconnect { id: ChannelId },
    SubscribeNote { id: SubNoteId, note_id: String, sender: S },
    UnsubscribeNote { id: SubNoteId },
    StartBroadcast { id: BroadcastId, type_: String, sender: S },
    StopBroadcast { id: BroadcastId },
}

/// Where the broker stands in its life. It starts working and ends, once,
/// either exited on purpose or dead of an error.
#[derive(Debug)]
pub enum BrokerState {
    Working,
    Exited,
    Dead(StreamingError),
}

/// What a client handle does after looking at the broker's state.
#[derive(Debug)]
pub enum Admission {
    /// The broker works: send the command.
    Proceed,
    /// The broker died: fail with this error.
    Refused(StreamingError),
    /// The broker has shut down: there is nobody to send to.
    Closed,
}

impl BrokerState {
    /// The error the broker died of, if it died. A broker that exited on
    /// purpose has no handles left to ask.
    pub fn dead(&self) -> (r: Option<&StreamingError>)
        requires
            !(self is Exited),
        ensures
            match *self {
                BrokerState::Dead(e) => r == Some(&e),
                _ => r is None,
            },
    {
        match self {
            BrokerState::Dead(e) => Some(e),
            _ => None,
        }
    }

    /// Decides for every state whether a command may be sent.
    pub fn admission(&self) -> (r: Admission)
        ensures
            r == match *self {
                BrokerState::Working => Admission::Proceed,
                BrokerState::Dead(e) => Admission::Refused(e),
                BrokerState::Exited => Admission::Closed,
            },
    {
        match self {
            BrokerState::Working => Admission::Proceed,
            BrokerState::Dead(e) => Admission::Refused(e.duplicate()),
            BrokerState::Exited => Admission::Closed,
        }
    }

    /// Another handle to this state.
    pub fn duplicate(&self) -> (r: BrokerState)
        ensures
            r == *self,
    {
        match self {
            BrokerState::Working => BrokerState::Working,
            BrokerState::Dead(e) => BrokerState::Dead(e.duplicate()),
            BrokerState::Exited => BrokerState::Exited,
        }
    }
}

/// One thing that the broker asks its driver to do.
#[derive(Debug)]
#[allow(inconsistent_fields)]
pub enum Action<O, S, P> {
    /// Deliver the result to the caller and be done with the target.
    Reply { target: O, result: Value },
    /// Fail the caller with the error the broker died of.
    Refuse { target: O, error: StreamingError },
    /// Fail the caller because the broker is closed.
    Cancel { target: O },
    /// Push the body into the stream filed under the key.
    Push { key: Key, body: Value },
    /// Tell the pong target filed under the key to answer a ping.
    Pong { key: Key },
    /// End the stream: cleanly without an error, abruptly with one.
    End { stream: Stream<S, P>, error: Option<StreamingError> },
    /// Write the frame to the connection.
    Write(OutgoingFrame),
}

/// One thing that happens to the broker.
#[derive(Debug)]
pub enum Event<O, S, P> {
    /// A frame came in and was decoded.
    Inbound(Envelope),
    /// A client handle sent a command.
    Control(BrokerControl<O, S, P>),
    /// The connection or the decoding failed for good.
    Failure(StreamingError),
    /// The client asked the broker to stop.
    Shutdown,
}

} // verus!
