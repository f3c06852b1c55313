//! The broker's decisions. The broker itself reads no socket and wakes no
//! task: for every event it updates its table and its state and says what is
//! to be done, and its driver does it.

use vstd::prelude::*;
use serde_json::Value;
use crate::broker::model::{
    Action, BrokerControl, BrokerState, Entry, Envelope, Event, Key, Kind, OutgoingFrame, Slot,
    Stream,
};
use crate::broker::laws::lemma_react_keeps_sound;
use crate::broker::table::{distinct, filed, listeners, lookup, position, DispatchTable};
use crate::channel::Frame;
use crate::error::StreamingError;

verus! {

/// `Value::clone` copies a JSON document; the copy equals the document it was
/// made from.
#[verifier::external_body]
fn copy_value(v: &Value) -> (r: Value)
    ensures
        r == *v,
{
    v.clone()
}

/// The broker as mathematical values: the pending entries, oldest first, and
/// the state.
pub struct Model<O, S, P> {
    pub slots: Seq<Slot<O, S, P>>,
    pub state: BrokerState,
}

/// The broker is sound when no key is filed twice and nothing is pending
/// once it has stopped working.
pub open spec fn sound<O, S, P>(m: Model<O, S, P>) -> bool {
    &&& distinct(m.slots)
    &&& !(m.state is Working) ==> m.slots.len() == 0
}

/// The stream target filed under the key, if the entry there is one.
pub open spec fn stream_at<O, S, P>(slots: Seq<Slot<O, S, P>>, key: Key) -> Option<Stream<S, P>> {
    match lookup(slots, key) {
        Some(Entry::Stream(stream)) => Some(stream),
        _ => None,
    }
}

/// The one-shot target filed under the key, if the entry there is one.
pub open spec fn one_shot_at<O, S, P>(slots: Seq<Slot<O, S, P>>, key: Key) -> Option<O> {
    match lookup(slots, key) {
        Some(Entry::OneShot(target)) => Some(target),
        _ => None,
    }
}

/// The slots without the one filed under the key.
pub open spec fn without<O, S, P>(slots: Seq<Slot<O, S, P>>, key: Key) -> Seq<Slot<O, S, P>> {
    slots.remove(position(slots, key))
}

/// What a message for one stream leads to: a push if the stream is there,
/// nothing if it is not.
pub open spec fn pushed<O, S, P>(slots: Seq<Slot<O, S, P>>, key: Key, body: Value) -> Seq<
    Action<O, S, P>,
> {
    if stream_at(slots, key) is Some {
        seq![Action::Push { key, body }]
    } else {
        Seq::empty()
    }
}

/// What a keepalive ping for a channel leads to: a request to its pong
/// target, if the channel is there and has one.
pub open spec fn ponged<O, S, P>(slots: Seq<Slot<O, S, P>>, key: Key) -> Seq<Action<O, S, P>> {
    match stream_at(slots, key) {
        Some(stream) => if stream.pong is Some {
            seq![Action::Pong { key }]
        } else {
            Seq::empty()
        },
        None => Seq::empty(),
    }
}

/// The error that a frame of no known shape is fatal with.
pub open spec fn unrecognized(frame: String) -> StreamingError {
    StreamingError::UnexpectedMessage(std::sync::Arc::new(Frame::Text(frame)))
}

/// What a working broker does with a decoded frame. A response is delivered
/// to the call that waits for it, which is then forgotten; a message is
/// pushed to its stream, a broadcast to every subscription of its type; and
/// whatever finds no entry is dropped. A frame of no known shape is fatal:
/// the broker dies of it as of any failure. A broker that is not working
/// drops everything.
pub open spec fn route<O, S, P>(m: Model<O, S, P>, envelope: Envelope) -> (Model<O, S, P>, Seq<
    Action<O, S, P>,
>) {
    if !(m.state is Working) {
        (m, Seq::empty())
    } else {
        match envelope {
            Envelope::ApiResponse { id, result } => match one_shot_at(m.slots, id.key()) {
                Some(target) => (
                    Model { slots: without(m.slots, id.key()), state: m.state },
                    seq![Action::Reply { target, result }],
                ),
                None => (m, Seq::empty()),
            },
            Envelope::ChannelMessage { channel_id, body } => (
                m,
                pushed(m.slots, channel_id.key(), body),
            ),
            Envelope::ChannelPong { channel_id } => (m, ponged(m.slots, channel_id.key())),
            Envelope::NoteUpdate { sub_note_id, body } => (
                m,
                pushed(m.slots, sub_note_id.key(), body),
            ),
            Envelope::Broadcast { type_, body } => (
                m,
                listeners(m.slots, type_@).map_values(|key: Key| Action::Push { key, body }),
            ),
            Envelope::Unrecognized { frame } => collapse(m, Some(unrecognized(frame))),
        }
    }
}

/// Opening a subscription: the stream is filed and `then` is done, unless the
/// key is taken, in which case the stream that was offered is ended at once.
pub open spec fn opened<O, S, P>(
    m: Model<O, S, P>,
    key: Key,
    stream: Stream<S, P>,
    then: Seq<Action<O, S, P>>,
) -> (Model<O, S, P>, Seq<Action<O, S, P>>) {
    if filed(m.slots, key) {
        (m, seq![Action::End { stream, error: None }])
    } else {
        (
            Model { slots: m.slots.push(Slot { key, entry: Entry::Stream(stream) }), state: m.state },
            then,
        )
    }
}

/// Closing a subscription: the stream under the key, if there is one, leaves
/// the table and is ended cleanly; `then` is done either way.
pub open spec fn closed<O, S, P>(m: Model<O, S, P>, key: Key, then: Seq<Action<O, S, P>>) -> (
    Model<O, S, P>,
    Seq<Action<O, S, P>>,
) {
    match stream_at(m.slots, key) {
        Some(stream) => (
            Model { slots: without(m.slots, key), state: m.state },
            seq![Action::End { stream, error: None }] + then,
        ),
        None => (m, then),
    }
}

/// How a broker that no longer works answers a command: whoever brought a
/// target gets it back failed, with the error the broker died of or, after a
/// shutdown, as closed.
pub open spec fn rejected<O, S, P>(
    command: BrokerControl<O, S, P>,
    cause: Option<StreamingError>,
) -> Seq<Action<O, S, P>> {
    match command {
        BrokerControl::ApiCall { id, endpoint, parameters, sender } => match cause {
            Some(error) => seq![Action::Refuse { target: sender, error }],
            None => seq![Action::Cancel { target: sender }],
        },
        BrokerControl::Connect { id, name, params, sender, pong } => seq![
            Action::End {
                stream: Stream { target: sender, pong: Some(pong), topic: None },
                error: cause,
            },
        ],
        BrokerControl::SubscribeNote { id, note_id, sender } => seq![
            Action::End { stream: Stream { target: sender, pong: None, topic: None }, error: cause },
        ],
        BrokerControl::StartBroadcast { id, type_, sender } => seq![
            Action::End {
                stream: Stream { target: sender, pong: None, topic: Some(type_) },
                error: cause,
            },
        ],
        _ => Seq::empty(),
    }
}

/// What a working broker does with a command. A call or a subscription is
/// filed before its frame is written; an unsubscription ends the stream and
/// writes its frame whether or not there was a stream; broadcast
/// subscriptions are kept in the table alone and write nothing.
pub open spec fn accepted<O, S, P>(m: Model<O, S, P>, command: BrokerControl<O, S, P>) -> (
    Model<O, S, P>,
    Seq<Action<O, S, P>>,
) {
    match command {
        BrokerControl::ApiCall { id, endpoint, parameters, sender } => if filed(m.slots, id.key()) {
            (m, seq![Action::Cancel { target: sender }])
        } else {
            (
                Model {
                    slots: m.slots.push(Slot { key: id.key(), entry: Entry::OneShot(sender) }),
                    state: m.state,
                },
                seq![Action::Write(OutgoingFrame::ApiCall { id, endpoint, parameters })],
            )
        },
        BrokerControl::Connect { id, name, params, sender, pong } => opened(
            m,
            id.key(),
            Stream { target: sender, pong: Some(pong), topic: None },
            seq![Action::Write(OutgoingFrame::Connect { id, name, params })],
        ),
        BrokerControl::Disconnect { id } => closed(
            m,
            id.key(),
            seq![Action::Write(OutgoingFrame::Disconnect { id })],
        ),
        BrokerControl::SubscribeNote { id, note_id, sender } => opened(
            m,
            id.key(),
            Stream { target: sender, pong: None, topic: None },
            seq![Action::Write(OutgoingFrame::SubscribeNote { id, note_id })],
        ),
        BrokerControl::UnsubscribeNote { id } => closed(
            m,
            id.key(),
            seq![Action::Write(OutgoingFrame::UnsubscribeNote { id })],
        ),
        BrokerControl::StartBroadcast { id, type_, sender } => opened(
            m,
            id.key(),
            Stream { target: sender, pong: None, topic: Some(type_) },
            Seq::empty(),
        ),
        BrokerControl::StopBroadcast { id } => closed(m, id.key(), Seq::empty()),
    }
}

/// What the broker does with a command, in every state.
pub open spec fn obey<O, S, P>(m: Model<O, S, P>, command: BrokerControl<O, S, P>) -> (
    Model<O, S, P>,
    Seq<Action<O, S, P>>,
) {
    match m.state {
        BrokerState::Working => accepted(m, command),
        BrokerState::Dead(error) => (m, rejected(command, Some(error))),
        BrokerState::Exited => (m, rejected(command, None)),
    }
}

/// How one pending entry is settled when the broker stops: a call fails,
/// with the error if there is one and as closed if not; a stream ends, with
/// the error or cleanly.
pub open spec fn settle<O, S, P>(slot: Slot<O, S, P>, cause: Option<StreamingError>) -> Action<
    O,
    S,
    P,
> {
    match slot.entry {
        Entry::OneShot(target) => match cause {
            Some(error) => Action::Refuse { target, error },
            None => Action::Cancel { target },
        },
        Entry::Stream(stream) => Action::End { stream, error: cause },
    }
}

/// How all pending entries are settled, the newest first.
pub open spec fn settled<O, S, P>(slots: Seq<Slot<O, S, P>>, cause: Option<StreamingError>) -> Seq<
    Action<O, S, P>,
>
    decreases slots.len(),
{
    if slots.len() == 0 {
        Seq::empty()
    } else {
        seq![settle(slots.last(), cause)] + settled(slots.drop_last(), cause)
    }
}

/// The end of a working broker: it dies of the error, or exits if there is
/// none, its table is emptied, and every entry that was pending is settled.
/// A broker that has ended stays as it is.
pub open spec fn collapse<O, S, P>(m: Model<O, S, P>, cause: Option<StreamingError>) -> (
    Model<O, S, P>,
    Seq<Action<O, S, P>>,
) {
    if !(m.state is Working) {
        (m, Seq::empty())
    } else {
        (
            Model {
                slots: Seq::empty(),
                state: match cause {
                    Some(error) => BrokerState::Dead(error),
                    None => BrokerState::Exited,
                },
            },
            settled(m.slots, cause),
        )
    }
}

/// What the broker does with an event.
pub open spec fn react<O, S, P>(m: Model<O, S, P>, event: Event<O, S, P>) -> (
    Model<O, S, P>,
    Seq<Action<O, S, P>>,
) {
    match event {
        Event::Inbound(envelope) => route(m, envelope),
        Event::Control(command) => obey(m, command),
        Event::Failure(error) => collapse(m, Some(error)),
        Event::Shutdown => collapse(m, None),
    }
}

/// The broker: the dispatch table and the lifecycle state.
pub struct Broker<O, S, P> {
    table: DispatchTable<O, S, P>,
    state: BrokerState,
}

impl<O, S, P> Broker<O, S, P> {
    /// The broker as mathematical values.
    pub closed spec fn model(self) -> Model<O, S, P> {
        Model { slots: self.table.entries(), state: self.state }
    }

    /// A working broker with nothing pending.
    pub fn new() -> (b: Self)
        ensures
            b.model() == (Model::<O, S, P> { slots: Seq::empty(), state: BrokerState::Working }),
            sound(b.model()),
    {
        Broker { table: DispatchTable::new(), state: BrokerState::Working }
    }

    /// The state of the broker.
    pub fn state(&self) -> (s: &BrokerState)
        ensures
            *s == self.model().state,
    {
        &self.state
    }

    /// The number of pending entries.
    pub fn pending(&self) -> (n: usize)
        ensures
            n == self.model().slots.len(),
            distinct(self.model().slots),
    {
        self.table.len()
    }

    /// The stream filed under a key, for the driver to push into.
    pub fn stream(&self, key: Key) -> (r: Option<&Stream<S, P>>)
        ensures
            match stream_at(self.model().slots, key) {
                Some(stream) => r == Some(&stream),
                None => r is None,
            },
    {
        self.table.peek_stream(key.kind, key.id)
    }

    /// Whether the broker still works.
    fn working(&self) -> (b: bool)
        ensures
            b == (self.model().state is Working),
    {
        match &self.state {
            BrokerState::Working => true,
            _ => false,
        }
    }

    /// The actions for a message to one stream.
    fn push_to(&self, key: Key, body: Value) -> (actions: Vec<Action<O, S, P>>)
        ensures
            actions@ == pushed(self.model().slots, key, body),
    {
        let mut actions: Vec<Action<O, S, P>> = Vec::new();
        if self.table.peek_stream(key.kind, key.id).is_some() {
            actions.push(Action::Push { key, body });
            assert(actions@ =~= seq![Action::Push { key, body }]);
        }
        actions
    }

    /// Routes a decoded frame.
    pub fn handle_inbound(&mut self, envelope: Envelope) -> (actions: Vec<Action<O, S, P>>)
        ensures
            (final(self).model(), actions@) == route(old(self).model(), envelope),
            sound(old(self).model()) ==> sound(final(self).model()),
    {
        proof {
            if sound(self.model()) {
                lemma_react_keeps_sound(self.model(), Event::Inbound(envelope));
            }
        }
        let mut actions: Vec<Action<O, S, P>> = Vec::new();
        if !self.working() {
            return actions;
        }
        match envelope {
            Envelope::ApiResponse { id, result } => {
                match self.table.take_one_shot(Kind::ApiRequest, id.0) {
                    Some(target) => {
                        actions.push(Action::Reply { target, result });
                        assert(actions@ =~= seq![Action::Reply { target, result }]);
                    },
                    None => {},
                }
                actions
            },
            Envelope::ChannelMessage { channel_id, body } => self.push_to(
                Key { kind: Kind::Channel, id: channel_id.0 },
                body,
            ),
            Envelope::ChannelPong { channel_id } => {
                let key = Key { kind: Kind::Channel, id: channel_id.0 };
                match self.table.peek_stream(key.kind, key.id) {
                    Some(stream) => {
                        if stream.pong.is_some() {
                            actions.push(Action::Pong { key });
                            assert(actions@ =~= seq![Action::Pong { key }]);
                        }
                    },
                    None => {},
                }
                actions
            },
            Envelope::NoteUpdate { sub_note_id, body } => self.push_to(
                Key { kind: Kind::SubNote, id: sub_note_id.0 },
                body,
            ),
            Envelope::Broadcast { type_, body } => {
                let keys = self.table.listeners(type_.as_str());
                let mut i: usize = 0;
                while i < keys.len()
                    invariant
                        i <= keys@.len(),
                        actions@ == keys@.take(i as int).map_values(
                            |key: Key| Action::<O, S, P>::Push { key, body },
                        ),
                    decreases keys@.len() - i,
                {
                    actions.push(Action::Push { key: keys[i], body: copy_value(&body) });
                    i = i + 1;
                    assert(actions@ =~= keys@.take(i as int).map_values(
                        |key: Key| Action::<O, S, P>::Push { key, body },
                    ));
                }
                assert(keys@.take(i as int) =~= keys@);
                actions
            },
            Envelope::Unrecognized { frame } => self.stop(
                Some(StreamingError::unexpected(Frame::Text(frame))),
            ),
        }
    }

    /// Files a stream and answers with `then`, or ends the stream at once if
    /// its key is taken.
    fn open(&mut self, key: Key, stream: Stream<S, P>, then: Vec<Action<O, S, P>>) -> (actions: Vec<
        Action<O, S, P>,
    >)
        ensures
            (final(self).model(), actions@) == opened(old(self).model(), key, stream, then@),
    {
        match self.table.insert_stream(key.kind, key.id, stream) {
            Ok(_) => then,
            Err(back) => {
                let mut actions: Vec<Action<O, S, P>> = Vec::new();
                actions.push(Action::End { stream: back, error: None });
                assert(actions@ =~= seq![Action::End { stream, error: None }]);
                actions
            },
        }
    }

    /// Ends the stream under the key, if there is one, and goes on with
    /// `then`.
    fn close(&mut self, key: Key, then: Option<OutgoingFrame>) -> (actions: Vec<Action<O, S, P>>)
        ensures
            (final(self).model(), actions@) == closed(
                old(self).model(),
                key,
                match then {
                    Some(frame) => seq![Action::Write(frame)],
                    None => Seq::empty(),
                },
            ),
    {
        let mut actions: Vec<Action<O, S, P>> = Vec::new();
        match self.table.remove_stream(key.kind, key.id) {
            Some(stream) => {
                actions.push(Action::End { stream, error: None });
            },
            None => {},
        }
        match then {
            Some(frame) => {
                actions.push(Action::Write(frame));
            },
            None => {},
        }
        assert(actions@ =~= closed(
            old(self).model(),
            key,
            match then {
                Some(frame) => seq![Action::Write(frame)],
                None => Seq::empty(),
            },
        ).1);
        actions
    }

    /// One action, alone.
    fn only(action: Action<O, S, P>) -> (actions: Vec<Action<O, S, P>>)
        ensures
            actions@ == seq![action],
    {
        let mut actions: Vec<Action<O, S, P>> = Vec::new();
        actions.push(action);
        assert(actions@ =~= seq![action]);
        actions
    }

    /// Answers a command that comes after the broker has ended.
    fn reject(command: BrokerControl<O, S, P>, cause: Option<StreamingError>) -> (actions: Vec<
        Action<O, S, P>,
    >)
        ensures
            actions@ == rejected(command, cause),
    {
        match command {
            BrokerControl::ApiCall { id, endpoint, parameters, sender } => match cause {
                Some(error) => Self::only(Action::Refuse { target: sender, error }),
                None => Self::only(Action::Cancel { target: sender }),
            },
            BrokerControl::Connect { id, name, params, sender, pong } => Self::only(
                Action::End {
                    stream: Stream { target: sender, pong: Some(pong), topic: None },
                    error: cause,
                },
            ),
            BrokerControl::SubscribeNote { id, note_id, sender } => Self::only(
                Action::End {
                    stream: Stream { target: sender, pong: None, topic: None },
                    error: cause,
                },
            ),
            BrokerControl::StartBroadcast { id, type_, sender } => Self::only(
                Action::End {
                    stream: Stream { target: sender, pong: None, topic: Some(type_) },
                    error: cause,
                },
            ),
            _ => Vec::new(),
        }
    }

    /// Carries out a command of a working broker.
    fn accept(&mut self, command: BrokerControl<O, S, P>) -> (actions: Vec<Action<O, S, P>>)
        ensures
            (final(self).model(), actions@) == accepted(old(self).model(), command),
    {
        match command {
            BrokerControl::ApiCall { id, endpoint, parameters, sender } => {
                match self.table.insert_one_shot(Kind::ApiRequest, id.0, sender) {
                    Ok(_) => Self::only(
                        Action::Write(OutgoingFrame::ApiCall { id, endpoint, parameters }),
                    ),
                    Err(back) => Self::only(Action::Cancel { target: back }),
                }
            },
            BrokerControl::Connect { id, name, params, sender, pong } => self.open(
                Key { kind: Kind::Channel, id: id.0 },
                Stream { target: sender, pong: Some(pong), topic: None },
                Self::only(Action::Write(OutgoingFrame::Connect { id, name, params })),
            ),
            BrokerControl::Disconnect { id } => self.close(
                Key { kind: Kind::Channel, id: id.0 },
                Some(OutgoingFrame::Disconnect { id }),
            ),
            BrokerControl::SubscribeNote { id, note_id, sender } => self.open(
                Key { kind: Kind::SubNote, id: id.0 },
                Stream { target: sender, pong: None, topic: None },
                Self::only(Action::Write(OutgoingFrame::SubscribeNote { id, note_id })),
            ),
            BrokerControl::UnsubscribeNote { id } => self.close(
                Key { kind: Kind::SubNote, id: id.0 },
                Some(OutgoingFrame::UnsubscribeNote { id }),
            ),
            BrokerControl::StartBroadcast { id, type_, sender } => self.open(
                Key { kind: Kind::Broadcast, id: id.0 },
                Stream { target: sender, pong: None, topic: Some(type_) },
                Vec::new(),
            ),
            BrokerControl::StopBroadcast { id } => self.close(
                Key { kind: Kind::Broadcast, id: id.0 },
                None,
            ),
        }
    }

    /// Carries out or rejects a command of a client handle.
    pub fn handle_control(&mut self, command: BrokerControl<O, S, P>) -> (actions: Vec<
        Action<O, S, P>,
    >)
        ensures
            (final(self).model(), actions@) == obey(old(self).model(), command),
            sound(old(self).model()) ==> sound(final(self).model()),
    {
        proof {
            if sound(self.model()) {
                lemma_react_keeps_sound(self.model(), Event::Control(command));
            }
        }
        let cause = match &self.state {
            BrokerState::Working => {
                return self.accept(command);
            },
            BrokerState::Dead(error) => Some(error.duplicate()),
            BrokerState::Exited => None,
        };
        Self::reject(command, cause)
    }

    /// Ends the broker and settles everything that is pending.
    fn stop(&mut self, cause: Option<StreamingError>) -> (actions: Vec<Action<O, S, P>>)
        ensures
            (final(self).model(), actions@) == collapse(old(self).model(), cause),
            sound(old(self).model()) ==> sound(final(self).model()),
    {
        let mut actions: Vec<Action<O, S, P>> = Vec::new();
        if !self.working() {
            return actions;
        }
        let mut all = self.table.drain_all();
        let ghost pending = all@;
        while all.len() > 0
            invariant
                actions@ + settled(all@, cause) == settled(pending, cause),
            decreases all@.len(),
        {
            let ghost before = all@;
            let slot = all.pop().unwrap();
            let error = match &cause {
                Some(e) => Some(e.duplicate()),
                None => None,
            };
            let action = match slot.entry {
                Entry::OneShot(target) => match error {
                    Some(error) => Action::Refuse { target, error },
                    None => Action::Cancel { target },
                },
                Entry::Stream(stream) => Action::End { stream, error },
            };
            actions.push(action);
            proof {
                assert(all@ =~= before.drop_last());
                assert(actions@ + settled(all@, cause) =~= settled(pending, cause));
            }
        }
        proof {
            assert(actions@ + settled(all@, cause) =~= actions@);
        }
        self.state = match cause {
            Some(error) => BrokerState::Dead(error),
            None => BrokerState::Exited,
        };
        actions
    }

    /// The connection or the decoding failed for good: the broker dies of
    /// the error and every pending entry is failed with it.
    pub fn fail(&mut self, error: StreamingError) -> (actions: Vec<Action<O, S, P>>)
        ensures
            (final(self).model(), actions@) == collapse(old(self).model(), Some(error)),
            sound(old(self).model()) ==> sound(final(self).model()),
    {
        self.stop(Some(error))
    }

    /// The client shuts the broker down: calls fail as closed, streams end
    /// cleanly.
    pub fn shutdown(&mut self) -> (actions: Vec<Action<O, S, P>>)
        ensures
            (final(self).model(), actions@) == collapse(old(self).model(), None),
            sound(old(self).model()) ==> sound(final(self).model()),
    {
        self.stop(None)
    }

    /// Takes one event and says what is to be done about it.
    pub fn step(&mut self, event: Event<O, S, P>) -> (actions: Vec<Action<O, S, P>>)
        ensures
            (final(self).model(), actions@) == react(old(self).model(), event),
            sound(old(self).model()) ==> sound(final(self).model()),
    {
        match event {
            Event::Inbound(envelope) => self.handle_inbound(envelope),
            Event::Control(command) => self.handle_control(command),
            Event::Failure(error) => self.fail(error),
            Event::Shutdown => self.shutdown(),
        }
    }
}

} // verus!
