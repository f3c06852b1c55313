//! What holds of the broker whatever happens to it.

use vstd::prelude::*;
use serde_json::Value;
use crate::broker::engine::{
    closed, obey, one_shot_at, opened, react, rejected, route, settle, settled, sound, stream_at,
    unrecognized, without, Model,
};
use crate::broker::model::{
    Action, ApiRequestId, BroadcastId, BrokerControl, BrokerState, ChannelId, Entry, Envelope,
    Event, Key, Kind, OutgoingFrame, Slot, Stream, SubNoteId,
};
use crate::broker::table::{
    distinct, filed, is_position, lemma_position, lemma_position_unique, listeners, lookup,
    position,
};
use crate::error::StreamingError;

verus! {

/// The broker after a run of events, and everything it asked for on the way,
/// in order.
pub open spec fn run<O, S, P>(m: Model<O, S, P>, events: Seq<Event<O, S, P>>) -> (
    Model<O, S, P>,
    Seq<Action<O, S, P>>,
)
    decreases events.len(),
{
    if events.len() == 0 {
        (m, Seq::empty())
    } else {
        let (before, earlier) = run(m, events.drop_last());
        let (after, now) = react(before, events.last());
        (after, earlier + now)
    }
}

/// Filing an entry under a free key keeps the keys distinct.
pub proof fn lemma_push_distinct<O, S, P>(slots: Seq<Slot<O, S, P>>, slot: Slot<O, S, P>)
    requires
        distinct(slots),
        !filed(slots, slot.key),
    ensures
        distinct(slots.push(slot)),
{
    let after = slots.push(slot);
    assert forall|i: int, j: int| 0 <= i < j < after.len() implies (#[trigger] after[i]).key != (
    #[trigger] after[j]).key by {
        assert(after[i] == slots[i]);
        if j < slots.len() {
            assert(after[j] == slots[j]);
        }
    }
}

/// Taking an entry out keeps the keys distinct, and its key is then free.
pub proof fn lemma_remove_distinct<O, S, P>(slots: Seq<Slot<O, S, P>>, p: int)
    requires
        distinct(slots),
        0 <= p < slots.len(),
    ensures
        distinct(slots.remove(p)),
        !filed(slots.remove(p), slots[p].key),
{
    let after = slots.remove(p);
    assert forall|i: int| 0 <= i < after.len() implies (#[trigger] after[i]).key
        != slots[p].key by {
        let a = if i < p {
            i
        } else {
            i + 1
        };
        assert(after[i] == slots[a]);
    }
    assert forall|i: int, j: int| 0 <= i < j < after.len() implies (#[trigger] after[i]).key != (
    #[trigger] after[j]).key by {
        let a = if i < p {
            i
        } else {
            i + 1
        };
        let b = if j < p {
            j
        } else {
            j + 1
        };
        assert(after[i] == slots[a] && after[j] == slots[b]);
    }
}

/// Taking the entry under one key out leaves the entry under every other key
/// as it was.
pub proof fn lemma_without_keeps_others<O, S, P>(slots: Seq<Slot<O, S, P>>, key: Key, other: Key)
    requires
        other != key,
        filed(slots, key),
    ensures
        lookup(without(slots, key), other) == lookup(slots, other),
        filed(without(slots, key), other) == filed(slots, other),
{
    lemma_position(slots, key);
    lemma_position(slots, other);
    let p = position(slots, key);
    let q = position(slots, other);
    let after = slots.remove(p);
    let r = if q < p {
        q
    } else {
        q - 1
    };
    assert(is_position(after, other, r)) by {
        assert forall|j: int| 0 <= j < r implies (#[trigger] after[j]).key != other by {
            let a = if j < p {
                j
            } else {
                j + 1
            };
            assert(after[j] == slots[a]);
        }
        if r < after.len() {
            assert(after[r] == slots[q]);
        }
    }
    lemma_position_unique(after, other, r);
    lemma_position(after, other);
}

/// Whatever happens, no key is ever filed twice, and a broker that has
/// stopped working has nothing pending.
pub proof fn lemma_react_keeps_sound<O, S, P>(m: Model<O, S, P>, event: Event<O, S, P>)
    requires
        sound(m),
    ensures
        sound(react(m, event).0),
{
    let after = react(m, event).0;
    if after.slots != m.slots && m.state is Working {
        match event {
            Event::Inbound(envelope) => {
                match envelope {
                    Envelope::ApiResponse { id, result } => {
                        lemma_position(m.slots, id.key());
                        lemma_remove_distinct(m.slots, position(m.slots, id.key()));
                    },
                    _ => {},
                }
            },
            Event::Control(command) => {
                match command {
                    BrokerControl::ApiCall { id, endpoint, parameters, sender } => {
                        lemma_push_distinct(
                            m.slots,
                            Slot { key: id.key(), entry: Entry::OneShot(sender) },
                        );
                    },
                    BrokerControl::Connect { id, name, params, sender, pong } => {
                        lemma_opened_keeps_distinct(m, id.key());
                    },
                    BrokerControl::SubscribeNote { id, note_id, sender } => {
                        lemma_opened_keeps_distinct(m, id.key());
                    },
                    BrokerControl::StartBroadcast { id, type_, sender } => {
                        lemma_opened_keeps_distinct(m, id.key());
                    },
                    BrokerControl::Disconnect { id } => {
                        lemma_closed_keeps_distinct(m, id.key());
                    },
                    BrokerControl::UnsubscribeNote { id } => {
                        lemma_closed_keeps_distinct(m, id.key());
                    },
                    BrokerControl::StopBroadcast { id } => {
                        lemma_closed_keeps_distinct(m, id.key());
                    },
                }
            },
            _ => {},
        }
    }
}

/// Opening a subscription keeps the keys distinct.
pub proof fn lemma_opened_keeps_distinct<O, S, P>(m: Model<O, S, P>, key: Key)
    requires
        distinct(m.slots),
    ensures
        forall|stream, then| distinct((#[trigger] opened(m, key, stream, then)).0.slots),
{
    assert forall|stream, then| distinct((#[trigger] opened(m, key, stream, then)).0.slots) by {
        if !filed(m.slots, key) {
            lemma_push_distinct(m.slots, Slot { key, entry: Entry::Stream(stream) });
        }
    }
}

/// Closing a subscription keeps the keys distinct.
pub proof fn lemma_closed_keeps_distinct<O, S, P>(m: Model<O, S, P>, key: Key)
    requires
        distinct(m.slots),
    ensures
        forall|then| distinct((#[trigger] closed(m, key, then)).0.slots),
{
    lemma_position(m.slots, key);
    if position(m.slots, key) < m.slots.len() {
        lemma_remove_distinct(m.slots, position(m.slots, key));
    }
}

/// However commands, frames and failures interleave, the table never holds
/// two entries under one key: a sound broker stays sound through every run
/// of events.
pub proof fn lemma_run_keeps_sound<O, S, P>(m: Model<O, S, P>, events: Seq<Event<O, S, P>>)
    requires
        sound(m),
    ensures
        sound(run(m, events).0),
    decreases events.len(),
{
    if events.len() > 0 {
        lemma_run_keeps_sound(m, events.drop_last());
        lemma_react_keeps_sound(run(m, events.drop_last()).0, events.last());
    }
}

/// A fresh broker is sound, so every broker reached from it is.
pub proof fn lemma_fresh_run_is_sound<O, S, P>(events: Seq<Event<O, S, P>>)
    ensures
        sound(
            run(
                Model::<O, S, P> { slots: Seq::empty(), state: BrokerState::Working },
                events,
            ).0,
        ),
{
    lemma_run_keeps_sound(
        Model::<O, S, P> { slots: Seq::empty(), state: BrokerState::Working },
        events,
    );
}

/// Disconnecting a channel that has no entry changes nothing in the table;
/// the frame is written all the same.
pub proof fn lemma_disconnect_absent<O, S, P>(m: Model<O, S, P>, id: ChannelId)
    requires
        m.state is Working,
        stream_at(m.slots, id.key()) is None,
    ensures
        obey(m, BrokerControl::Disconnect { id }) == (
            m,
            seq![Action::<O, S, P>::Write(OutgoingFrame::Disconnect { id })],
        ),
{
}

/// Unsubscribing from a note that has no entry changes nothing in the table;
/// the frame is written all the same.
pub proof fn lemma_unsubscribe_absent<O, S, P>(m: Model<O, S, P>, id: SubNoteId)
    requires
        m.state is Working,
        stream_at(m.slots, id.key()) is None,
    ensures
        obey(m, BrokerControl::UnsubscribeNote { id }) == (
            m,
            seq![Action::<O, S, P>::Write(OutgoingFrame::UnsubscribeNote { id })],
        ),
{
}

/// Stopping a broadcast subscription that has no entry changes nothing and
/// asks for nothing.
pub proof fn lemma_stop_absent<O, S, P>(m: Model<O, S, P>, id: BroadcastId)
    requires
        m.state is Working,
        stream_at(m.slots, id.key()) is None,
    ensures
        obey(m, BrokerControl::StopBroadcast { id }) == (m, Seq::<Action<O, S, P>>::empty()),
{
}

/// Ending a subscription that is there takes out its entry alone: the entry
/// under every other key stays as it was.
pub proof fn lemma_close_leaves_others<O, S, P>(
    m: Model<O, S, P>,
    key: Key,
    then: Seq<Action<O, S, P>>,
    other: Key,
)
    requires
        other != key,
    ensures
        lookup(closed(m, key, then).0.slots, other) == lookup(m.slots, other),
{
    lemma_position(m.slots, key);
    if stream_at(m.slots, key) is Some {
        lemma_without_keeps_others(m.slots, key, other);
    }
}

/// A response finds the call that waits for it: the caller gets exactly the
/// result, the entry leaves the table, and the entries under other keys stay.
/// A second response for the same call is dropped and changes nothing.
pub proof fn lemma_response_delivered_once<O, S, P>(
    m: Model<O, S, P>,
    id: ApiRequestId,
    target: O,
    result: Value,
    again: Value,
    other: Key,
)
    requires
        sound(m),
        m.state is Working,
        one_shot_at(m.slots, id.key()) == Some(target),
        other != id.key(),
    ensures
        route(m, Envelope::ApiResponse { id, result }).1 == seq![
            Action::<O, S, P>::Reply { target, result },
        ],
        !filed(route(m, Envelope::ApiResponse { id, result }).0.slots, id.key()),
        lookup(route(m, Envelope::ApiResponse { id, result }).0.slots, other) == lookup(
            m.slots,
            other,
        ),
        route(
            route(m, Envelope::ApiResponse { id, result }).0,
            Envelope::ApiResponse { id, result: again },
        ) == (route(m, Envelope::ApiResponse { id, result }).0, Seq::<Action<O, S, P>>::empty()),
{
    let key = id.key();
    lemma_position(m.slots, key);
    lemma_remove_distinct(m.slots, position(m.slots, key));
    lemma_without_keeps_others(m.slots, key, other);
    lemma_position(without(m.slots, key), key);
}

/// The events that the messages `bodies` for one channel arrive as.
pub open spec fn channel_messages<O, S, P>(channel_id: ChannelId, bodies: Seq<Value>) -> Seq<
    Event<O, S, P>,
> {
    Seq::new(
        bodies.len(),
        |i: int| Event::Inbound(Envelope::ChannelMessage { channel_id, body: bodies[i] }),
    )
}

/// The messages for one channel reach its subscriber in the order in which
/// the connection delivered them, each exactly once, and the table stays as
/// it is.
pub proof fn lemma_channel_order<O, S, P>(
    m: Model<O, S, P>,
    channel_id: ChannelId,
    bodies: Seq<Value>,
)
    requires
        m.state is Working,
        stream_at(m.slots, channel_id.key()) is Some,
    ensures
        run(m, channel_messages(channel_id, bodies)) == (
            m,
            Seq::new(
                bodies.len(),
                |i: int| Action::<O, S, P>::Push { key: channel_id.key(), body: bodies[i] },
            ),
        ),
    decreases bodies.len(),
{
    let events = channel_messages::<O, S, P>(channel_id, bodies);
    let pushes = Seq::new(
        bodies.len(),
        |i: int| Action::<O, S, P>::Push { key: channel_id.key(), body: bodies[i] },
    );
    if bodies.len() == 0 {
        assert(pushes =~= Seq::empty());
    } else {
        let earlier = bodies.drop_last();
        lemma_channel_order(m, channel_id, earlier);
        assert(events.drop_last() =~= channel_messages::<O, S, P>(channel_id, earlier));
        let before = Seq::new(
            earlier.len(),
            |i: int| Action::<O, S, P>::Push { key: channel_id.key(), body: earlier[i] },
        );
        assert(before + seq![
            Action::<O, S, P>::Push { key: channel_id.key(), body: bodies.last() },
        ] =~= pushes);
    }
}

/// The bodies that the actions push into the stream under the key, in order.
pub open spec fn pushes_to<O, S, P>(actions: Seq<Action<O, S, P>>, key: Key) -> Seq<Value>
    decreases actions.len(),
{
    if actions.len() == 0 {
        Seq::empty()
    } else {
        let earlier = pushes_to(actions.drop_last(), key);
        match actions.last() {
            Action::Push { key: k, body } => if k == key {
                earlier.push(body)
            } else {
                earlier
            },
            _ => earlier,
        }
    }
}

/// The bodies of the messages for the channel that arrive, in a run of
/// events, while the broker works and the channel is subscribed.
pub open spec fn heard<O, S, P>(
    m: Model<O, S, P>,
    events: Seq<Event<O, S, P>>,
    channel_id: ChannelId,
) -> Seq<Value>
    decreases events.len(),
{
    if events.len() == 0 {
        Seq::empty()
    } else {
        let earlier = heard(m, events.drop_last(), channel_id);
        let before = run(m, events.drop_last()).0;
        match events.last() {
            Event::Inbound(Envelope::ChannelMessage { channel_id: c, body }) => if c == channel_id
                && before.state is Working && stream_at(before.slots, channel_id.key()) is Some {
                earlier.push(body)
            } else {
                earlier
            },
            _ => earlier,
        }
    }
}

/// Actions among which none pushes into the stream under the key push
/// nothing into it.
pub proof fn lemma_no_push<O, S, P>(actions: Seq<Action<O, S, P>>, key: Key)
    requires
        forall|i: int|
            0 <= i < actions.len() ==> !((#[trigger] actions[i]) matches Action::Push { key: k, .. }
                && k == key),
    ensures
        pushes_to(actions, key) == Seq::<Value>::empty(),
    decreases actions.len(),
{
    if actions.len() > 0 {
        let init = actions.drop_last();
        assert forall|i: int| 0 <= i < init.len() implies !((#[trigger] init[i]) matches Action::Push {
            key: k,
            ..
        } && k == key) by {
            assert(init[i] == actions[i]);
        }
        lemma_no_push(init, key);
        assert(actions.last() == actions[actions.len() - 1]);
    }
}

/// What two runs of actions push into a stream is what the first pushes,
/// then what the second pushes.
pub proof fn lemma_pushes_concat<O, S, P>(
    first: Seq<Action<O, S, P>>,
    second: Seq<Action<O, S, P>>,
    key: Key,
)
    ensures
        pushes_to(first + second, key) == pushes_to(first, key) + pushes_to(second, key),
    decreases second.len(),
{
    if second.len() == 0 {
        assert(first + second =~= first);
        assert(pushes_to(first, key) + pushes_to(second, key) =~= pushes_to(first, key));
    } else {
        lemma_pushes_concat(first, second.drop_last(), key);
        assert((first + second).drop_last() =~= first + second.drop_last());
        assert((first + second).last() == second.last());
        assert(pushes_to(first + second, key) =~= pushes_to(first, key) + pushes_to(second, key));
    }
}

/// Broadcast subscriptions are filed under keys of the broadcast kind.
pub proof fn lemma_listeners_kind<O, S, P>(slots: Seq<Slot<O, S, P>>, topic: Seq<char>)
    ensures
        forall|i: int|
            0 <= i < listeners(slots, topic).len() ==> (#[trigger] listeners(slots, topic)[i]).kind
                == Kind::Broadcast,
    decreases slots.len(),
{
    if slots.len() > 0 {
        lemma_listeners_kind(slots.drop_last(), topic);
    }
}

/// No entry is settled by a push.
pub proof fn lemma_settled_no_push<O, S, P>(
    slots: Seq<Slot<O, S, P>>,
    cause: Option<StreamingError>,
    key: Key,
)
    ensures
        pushes_to(settled(slots, cause), key) == Seq::<Value>::empty(),
{
    lemma_settled_all(slots, cause);
    let actions = settled(slots, cause);
    assert forall|i: int| 0 <= i < actions.len() implies !((#[trigger] actions[i]) matches Action::Push {
        key: k,
        ..
    } && k == key) by {
        assert(actions[i] == settle(slots[slots.len() - 1 - i], cause));
    }
    lemma_no_push(actions, key);
}

/// One event pushes into the stream of a channel exactly when it is a
/// message for that channel, the broker works and the channel is
/// subscribed; then it pushes the body of the message, once.
pub proof fn lemma_react_pushes<O, S, P>(
    m: Model<O, S, P>,
    event: Event<O, S, P>,
    channel_id: ChannelId,
)
    ensures
        pushes_to(react(m, event).1, channel_id.key()) == match event {
            Event::Inbound(Envelope::ChannelMessage { channel_id: c, body }) => if c == channel_id
                && m.state is Working && stream_at(m.slots, channel_id.key()) is Some {
                seq![body]
            } else {
                Seq::<Value>::empty()
            },
            _ => Seq::<Value>::empty(),
        },
{
    let key = channel_id.key();
    let actions = react(m, event).1;
    match event {
        Event::Inbound(Envelope::ChannelMessage { channel_id: c, body }) => {
            if c == channel_id && m.state is Working && stream_at(m.slots, key) is Some {
                assert(actions =~= seq![Action::Push { key, body }]);
                assert(actions.drop_last().len() == 0);
                assert(pushes_to(actions.drop_last(), key) =~= Seq::<Value>::empty());
                assert(actions.last() == Action::<O, S, P>::Push { key, body });
                assert(pushes_to(actions, key) =~= seq![body]);
            } else {
                lemma_no_push(actions, key);
            }
        },
        Event::Inbound(Envelope::Broadcast { type_, body }) => {
            lemma_listeners_kind(m.slots, type_@);
            lemma_no_push(actions, key);
        },
        Event::Inbound(Envelope::Unrecognized { frame }) => {
            if m.state is Working {
                lemma_settled_no_push(m.slots, Some(unrecognized(frame)), key);
            }
        },
        Event::Inbound(_) => {
            lemma_no_push(actions, key);
        },
        Event::Control(command) => {
            lemma_no_push(actions, key);
        },
        Event::Failure(error) => {
            if m.state is Working {
                lemma_settled_no_push(m.slots, Some(error), key);
            }
        },
        Event::Shutdown => {
            if m.state is Working {
                lemma_settled_no_push(m.slots, None, key);
            }
        },
    }
}

/// Whatever else happens on the connection, the subscriber of a channel is
/// handed exactly the messages that arrive for the channel while it is
/// subscribed, each once, in the order in which they arrived: a message that
/// comes before the subscription or after its end is dropped.
pub proof fn lemma_channel_hears_in_order<O, S, P>(
    m: Model<O, S, P>,
    events: Seq<Event<O, S, P>>,
    channel_id: ChannelId,
)
    ensures
        pushes_to(run(m, events).1, channel_id.key()) == heard(m, events, channel_id),
    decreases events.len(),
{
    if events.len() > 0 {
        let (before, earlier) = run(m, events.drop_last());
        lemma_channel_hears_in_order(m, events.drop_last(), channel_id);
        lemma_react_pushes(before, events.last(), channel_id);
        lemma_pushes_concat(earlier, react(before, events.last()).1, channel_id.key());
        assert(pushes_to(run(m, events).1, channel_id.key()) =~= heard(m, events, channel_id));
    }
}

/// Every pending entry is settled exactly once: the actions are as many as
/// the entries, and the entry at place `i`, counted from the oldest, is
/// settled by the action at place `i`, counted from the last.
pub proof fn lemma_settled_all<O, S, P>(slots: Seq<Slot<O, S, P>>, cause: Option<StreamingError>)
    ensures
        settled(slots, cause).len() == slots.len(),
        forall|i: int|
            0 <= i < slots.len() ==> settled(slots, cause)[slots.len() - 1 - i] == settle(
                #[trigger] slots[i],
                cause,
            ),
    decreases slots.len(),
{
    if slots.len() > 0 {
        let init = slots.drop_last();
        lemma_settled_all(init, cause);
        assert forall|i: int| 0 <= i < slots.len() implies settled(slots, cause)[slots.len() - 1
            - i] == settle(#[trigger] slots[i], cause) by {
            if i < slots.len() - 1 {
                assert(slots[i] == init[i]);
                assert(settled(slots, cause)[slots.len() - 1 - i] == settled(init, cause)[init.len()
                    - 1 - i]);
            }
        }
    }
}

/// When the connection fails for good, the broker dies of the error, the
/// table is empty afterwards, and every pending entry is failed with that
/// very error: each call is refused with it and each stream ended with it.
pub proof fn lemma_failure_reaches_everyone<O, S, P>(m: Model<O, S, P>, error: StreamingError)
    requires
        m.state is Working,
    ensures
        react(m, Event::Failure(error)).0 == (Model::<O, S, P> {
            slots: Seq::empty(),
            state: BrokerState::Dead(error),
        }),
        react(m, Event::Failure(error)).1.len() == m.slots.len(),
        forall|i: int|
            0 <= i < m.slots.len() ==> react(m, Event::Failure(error)).1[m.slots.len() - 1 - i]
                == match (#[trigger] m.slots[i]).entry {
                Entry::OneShot(target) => Action::Refuse { target, error },
                Entry::Stream(stream) => Action::End { stream, error: Some(error) },
            },
{
    lemma_settled_all(m.slots, Some(error));
}

/// When the client shuts the broker down, the broker exits, the table is
/// empty afterwards, every pending call fails as closed and every stream
/// ends without an error.
pub proof fn lemma_shutdown_reaches_everyone<O, S, P>(m: Model<O, S, P>)
    requires
        m.state is Working,
    ensures
        react(m, Event::Shutdown).0 == (Model::<O, S, P> {
            slots: Seq::empty(),
            state: BrokerState::Exited,
        }),
        react(m, Event::Shutdown).1.len() == m.slots.len(),
        forall|i: int|
            0 <= i < m.slots.len() ==> react(m, Event::Shutdown).1[m.slots.len() - 1 - i]
                == match (#[trigger] m.slots[i]).entry {
                Entry::OneShot(target) => Action::Cancel { target },
                Entry::Stream(stream) => Action::End { stream, error: None },
            },
{
    lemma_settled_all(m.slots, None);
}

/// A broker that has ended stays as it ended: neither a failure nor a
/// shutdown nor a frame changes it or asks for anything, and every command
/// is answered at once, with the error the broker died of if it died.
pub proof fn lemma_terminal_is_final<O, S, P>(m: Model<O, S, P>, event: Event<O, S, P>)
    requires
        !(m.state is Working),
    ensures
        react(m, event).0 == m,
        !(event is Control) ==> react(m, event).1 == Seq::<Action<O, S, P>>::empty(),
        event matches Event::Control(command) ==> react(m, event).1 == rejected(
            command,
            match m.state {
                BrokerState::Dead(error) => Some(error),
                _ => None,
            },
        ),
{
}

/// An entry filed under a free key is found there afterwards.
pub proof fn lemma_push_found<O, S, P>(slots: Seq<Slot<O, S, P>>, slot: Slot<O, S, P>)
    requires
        !filed(slots, slot.key),
    ensures
        lookup(slots.push(slot), slot.key) == Some(slot.entry),
        filed(slots.push(slot), slot.key),
{
    let after = slots.push(slot);
    assert(is_position(after, slot.key, slots.len() as int)) by {
        assert forall|j: int| 0 <= j < slots.len() implies (#[trigger] after[j]).key
            != slot.key by {
            assert(after[j] == slots[j]);
        }
    }
    lemma_position_unique(after, slot.key, slots.len() as int);
    assert(after[slots.len() as int].key == slot.key);
}

/// A call is on file before its frame is written: when the broker asks for
/// the frame of a call, the caller's target already waits in the table, so
/// that no reply can come too early to find it.
pub proof fn lemma_call_filed_before_written<O, S, P>(
    m: Model<O, S, P>,
    id: ApiRequestId,
    endpoint: String,
    parameters: Value,
    sender: O,
)
    requires
        m.state is Working,
        !filed(m.slots, id.key()),
    ensures
        obey(m, BrokerControl::ApiCall { id, endpoint, parameters, sender }).1 == seq![
            Action::<O, S, P>::Write(OutgoingFrame::ApiCall { id, endpoint, parameters }),
        ],
        one_shot_at(
            obey(m, BrokerControl::ApiCall { id, endpoint, parameters, sender }).0.slots,
            id.key(),
        ) == Some(sender),
{
    lemma_push_found(m.slots, Slot { key: id.key(), entry: Entry::OneShot(sender) });
}

/// A channel is on file before its frame is written: when the broker asks
/// for the frame that connects a channel, the subscriber's stream is already
/// in the table.
pub proof fn lemma_channel_filed_before_written<O, S, P>(
    m: Model<O, S, P>,
    id: ChannelId,
    name: String,
    params: Value,
    sender: S,
    pong: P,
)
    requires
        m.state is Working,
        !filed(m.slots, id.key()),
    ensures
        obey(m, BrokerControl::Connect { id, name, params, sender, pong }).1 == seq![
            Action::<O, S, P>::Write(OutgoingFrame::Connect { id, name, params }),
        ],
        stream_at(
            obey(m, BrokerControl::Connect { id, name, params, sender, pong }).0.slots,
            id.key(),
        ) == Some(Stream { target: sender, pong: Some(pong), topic: None }),
{
    lemma_push_found(
        m.slots,
        Slot {
            key: id.key(),
            entry: Entry::Stream(Stream { target: sender, pong: Some(pong), topic: None }),
        },
    );
}

} // verus!
