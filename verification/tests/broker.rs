use std::sync::Arc;

use async_tungstenite::tungstenite;
use misskey::broker::engine::Broker;
use misskey::broker::model::{
    Action, Admission, ApiRequestId, BroadcastId, BrokerControl, BrokerState, ChannelId, Envelope,
    Event, Header, Key, Kind, OutgoingFrame, Stream, SubNoteId,
};
use misskey::channel::Frame;
use misskey::error::StreamingError;
use serde_json::Value;

type TestBroker = Broker<u32, u32, u32>;
type TestAction = Action<u32, u32, u32>;

fn text(s: &str) -> Value {
    Value::String(s.to_string())
}

fn call(id: u128, sender: u32) -> BrokerControl<u32, u32, u32> {
    BrokerControl::ApiCall {
        id: ApiRequestId(id),
        endpoint: "notes/show".to_string(),
        parameters: text("params"),
        sender,
    }
}

fn connect(id: u128, sender: u32, pong: u32) -> BrokerControl<u32, u32, u32> {
    BrokerControl::Connect {
        id: ChannelId(id),
        name: "main".to_string(),
        params: Value::Null,
        sender,
        pong,
    }
}

fn message(id: u128, body: &str) -> Envelope {
    Envelope::ChannelMessage { channel_id: ChannelId(id), body: text(body) }
}

fn transport_error() -> StreamingError {
    StreamingError::from_websocket(tungstenite::Error::ConnectionClosed)
}

fn same_cause(a: &StreamingError, b: &StreamingError) -> bool {
    match (a, b) {
        (StreamingError::WebSocket(x), StreamingError::WebSocket(y)) => Arc::ptr_eq(x, y),
        (StreamingError::Json(x), StreamingError::Json(y)) => Arc::ptr_eq(x, y),
        (StreamingError::UnexpectedMessage(x), StreamingError::UnexpectedMessage(y)) => {
            Arc::ptr_eq(x, y)
        }
        _ => false,
    }
}

fn pushed_body(action: &TestAction, kind: Kind, id: u128) -> Value {
    match action {
        Action::Push { key, body } => {
            assert_eq!(*key, Key { kind, id });
            body.clone()
        }
        other => panic!("expected a push, got {:?}", other),
    }
}

#[test]
fn fresh_broker_works_and_holds_nothing() {
    let broker = TestBroker::new();
    assert!(matches!(broker.state(), BrokerState::Working));
    assert_eq!(broker.pending(), 0);
    assert!(broker.stream(Key { kind: Kind::Channel, id: 1 }).is_none());
}

#[test]
fn api_call_is_filed_then_written() {
    let mut broker = TestBroker::new();
    let actions = broker.handle_control(call(1, 10));
    assert_eq!(broker.pending(), 1);
    assert_eq!(actions.len(), 1);
    match &actions[0] {
        Action::Write(OutgoingFrame::ApiCall { id, endpoint, parameters }) => {
            assert_eq!(*id, ApiRequestId(1));
            assert_eq!(endpoint, "notes/show");
            assert_eq!(*parameters, text("params"));
        }
        other => panic!("expected a write, got {:?}", other),
    }
}

#[test]
fn response_is_delivered_once() {
    let mut broker = TestBroker::new();
    broker.handle_control(call(1, 10));
    broker.handle_control(call(2, 20));
    let actions =
        broker.handle_inbound(Envelope::ApiResponse { id: ApiRequestId(1), result: text("r") });
    assert_eq!(actions.len(), 1);
    match &actions[0] {
        Action::Reply { target, result } => {
            assert_eq!(*target, 10);
            assert_eq!(*result, text("r"));
        }
        other => panic!("expected a reply, got {:?}", other),
    }
    assert_eq!(broker.pending(), 1);
    let again =
        broker.handle_inbound(Envelope::ApiResponse { id: ApiRequestId(1), result: text("r2") });
    assert!(again.is_empty());
    assert_eq!(broker.pending(), 1);
    let other =
        broker.handle_inbound(Envelope::ApiResponse { id: ApiRequestId(2), result: text("s") });
    assert!(matches!(&other[0], Action::Reply { target: 20, .. }));
    assert_eq!(broker.pending(), 0);
}

#[test]
fn response_for_unknown_call_is_dropped() {
    let mut broker = TestBroker::new();
    broker.handle_control(connect(7, 1, 2));
    let actions =
        broker.handle_inbound(Envelope::ApiResponse { id: ApiRequestId(7), result: text("r") });
    assert!(actions.is_empty());
    assert_eq!(broker.pending(), 1);
}

#[test]
fn replies_out_of_order_reach_their_callers() {
    let mut broker = TestBroker::new();
    broker.handle_control(call(0xa1, 1));
    broker.handle_control(call(0xa2, 2));
    let second = broker
        .handle_inbound(Envelope::ApiResponse { id: ApiRequestId(0xa2), result: text("two") });
    let first = broker
        .handle_inbound(Envelope::ApiResponse { id: ApiRequestId(0xa1), result: text("one") });
    match (&second[0], &first[0]) {
        (
            Action::Reply { target: t2, result: r2 },
            Action::Reply { target: t1, result: r1 },
        ) => {
            assert_eq!((*t2, r2), (2, &text("two")));
            assert_eq!((*t1, r1), (1, &text("one")));
        }
        other => panic!("expected two replies, got {:?}", other),
    }
    assert_eq!(broker.pending(), 0);
}

#[test]
fn channel_frames_arrive_in_order_until_disconnect() {
    let mut broker = TestBroker::new();
    let opened = broker.handle_control(connect(0xc1, 5, 6));
    assert!(matches!(
        &opened[0],
        Action::Write(OutgoingFrame::Connect { id: ChannelId(0xc1), .. })
    ));
    let mut seen = Vec::new();
    for body in ["m1", "m2", "m3"] {
        let actions = broker.handle_inbound(message(0xc1, body));
        assert_eq!(actions.len(), 1);
        seen.push(pushed_body(&actions[0], Kind::Channel, 0xc1));
    }
    assert_eq!(seen, vec![text("m1"), text("m2"), text("m3")]);
    let stream = broker.stream(Key { kind: Kind::Channel, id: 0xc1 }).unwrap();
    assert_eq!(stream.target, 5);
    assert_eq!(stream.pong, Some(6));

    let closed = broker.handle_control(BrokerControl::Disconnect { id: ChannelId(0xc1) });
    assert_eq!(closed.len(), 2);
    match &closed[0] {
        Action::End { stream, error } => {
            assert_eq!(stream.target, 5);
            assert_eq!(stream.pong, Some(6));
            assert!(error.is_none());
        }
        other => panic!("expected the stream to end, got {:?}", other),
    }
    assert!(matches!(
        &closed[1],
        Action::Write(OutgoingFrame::Disconnect { id: ChannelId(0xc1) })
    ));
    assert_eq!(broker.pending(), 0);
    let late = broker.handle_inbound(message(0xc1, "m4"));
    assert!(late.is_empty());
}

#[test]
fn channel_order_holds_among_other_traffic() {
    let mut broker = TestBroker::new();
    let mut heard = Vec::new();
    let mut hear = |actions: Vec<TestAction>| {
        for action in actions {
            if let Action::Push { key: Key { kind: Kind::Channel, id: 1 }, body } = action {
                heard.push(body);
            }
        }
    };
    hear(broker.handle_inbound(message(1, "early")));
    hear(broker.handle_control(connect(1, 5, 6)));
    hear(broker.handle_control(connect(2, 7, 8)));
    hear(broker.handle_inbound(message(1, "a")));
    hear(broker.handle_control(call(1, 10)));
    hear(broker.handle_inbound(message(2, "other")));
    hear(broker.handle_inbound(message(1, "b")));
    hear(broker.handle_inbound(Envelope::ApiResponse { id: ApiRequestId(1), result: text("r") }));
    hear(broker.handle_inbound(Envelope::NoteUpdate { sub_note_id: SubNoteId(1), body: text("n") }));
    hear(broker.handle_inbound(Envelope::ChannelPong { channel_id: ChannelId(1) }));
    hear(broker.handle_inbound(message(1, "c")));
    hear(broker.handle_control(BrokerControl::Disconnect { id: ChannelId(1) }));
    hear(broker.handle_inbound(message(1, "late")));
    hear(broker.handle_control(connect(1, 9, 9)));
    hear(broker.handle_inbound(message(1, "d")));
    hear(broker.fail(transport_error()));
    hear(broker.handle_inbound(message(1, "dead")));
    assert_eq!(heard, vec![text("a"), text("b"), text("c"), text("d")]);
}

#[test]
fn disconnect_without_entry_is_a_no_op_that_still_writes() {
    let mut broker = TestBroker::new();
    broker.handle_control(connect(1, 5, 6));
    broker.handle_control(call(1, 9));
    let actions = broker.handle_control(BrokerControl::Disconnect { id: ChannelId(2) });
    assert_eq!(actions.len(), 1);
    assert!(matches!(
        &actions[0],
        Action::Write(OutgoingFrame::Disconnect { id: ChannelId(2) })
    ));
    assert_eq!(broker.pending(), 2);
    assert!(broker.stream(Key { kind: Kind::Channel, id: 1 }).is_some());
    let twice = broker.handle_control(BrokerControl::Disconnect { id: ChannelId(1) });
    assert_eq!(twice.len(), 2);
    let thrice = broker.handle_control(BrokerControl::Disconnect { id: ChannelId(1) });
    assert_eq!(thrice.len(), 1);
    assert_eq!(broker.pending(), 1);
}

#[test]
fn note_subscription_round() {
    let mut broker = TestBroker::new();
    let opened = broker.handle_control(BrokerControl::SubscribeNote {
        id: SubNoteId(3),
        note_id: "8dhe5zqiabcd5273".to_string(),
        sender: 30,
    });
    match &opened[0] {
        Action::Write(OutgoingFrame::SubscribeNote { id, note_id }) => {
            assert_eq!(*id, SubNoteId(3));
            assert_eq!(note_id, "8dhe5zqiabcd5273");
        }
        other => panic!("expected a write, got {:?}", other),
    }
    let update = broker
        .handle_inbound(Envelope::NoteUpdate { sub_note_id: SubNoteId(3), body: text("u") });
    assert_eq!(pushed_body(&update[0], Kind::SubNote, 3), text("u"));
    let wrong_kind = broker.handle_inbound(message(3, "x"));
    assert!(wrong_kind.is_empty());
    let closed = broker.handle_control(BrokerControl::UnsubscribeNote { id: SubNoteId(3) });
    assert_eq!(closed.len(), 2);
    assert!(matches!(&closed[0], Action::End { error: None, .. }));
    assert!(matches!(
        &closed[1],
        Action::Write(OutgoingFrame::UnsubscribeNote { id: SubNoteId(3) })
    ));
    let absent = broker.handle_control(BrokerControl::UnsubscribeNote { id: SubNoteId(3) });
    assert_eq!(absent.len(), 1);
    let late = broker
        .handle_inbound(Envelope::NoteUpdate { sub_note_id: SubNoteId(3), body: text("u") });
    assert!(late.is_empty());
}

#[test]
fn broadcast_reaches_every_listener_of_its_type() {
    let mut broker = TestBroker::new();
    for (id, type_, sender) in [(1, "emojiAdded", 11), (2, "other", 12), (3, "emojiAdded", 13)] {
        let actions = broker.handle_control(BrokerControl::StartBroadcast {
            id: BroadcastId(id),
            type_: type_.to_string(),
            sender,
        });
        assert!(actions.is_empty());
    }
    broker.handle_control(connect(1, 5, 6));
    assert_eq!(broker.pending(), 4);
    let actions = broker.handle_inbound(Envelope::Broadcast {
        type_: "emojiAdded".to_string(),
        body: text("emoji"),
    });
    assert_eq!(actions.len(), 2);
    assert_eq!(pushed_body(&actions[0], Kind::Broadcast, 1), text("emoji"));
    assert_eq!(pushed_body(&actions[1], Kind::Broadcast, 3), text("emoji"));
    let nobody = broker
        .handle_inbound(Envelope::Broadcast { type_: "main".to_string(), body: text("x") });
    assert!(nobody.is_empty());

    let stopped = broker.handle_control(BrokerControl::StopBroadcast { id: BroadcastId(1) });
    assert_eq!(stopped.len(), 1);
    match &stopped[0] {
        Action::End { stream, error } => {
            assert_eq!(stream.target, 11);
            assert_eq!(stream.topic.as_deref(), Some("emojiAdded"));
            assert!(error.is_none());
        }
        other => panic!("expected the stream to end, got {:?}", other),
    }
    let absent = broker.handle_control(BrokerControl::StopBroadcast { id: BroadcastId(1) });
    assert!(absent.is_empty());
    let actions = broker.handle_inbound(Envelope::Broadcast {
        type_: "emojiAdded".to_string(),
        body: text("again"),
    });
    assert_eq!(actions.len(), 1);
    assert_eq!(pushed_body(&actions[0], Kind::Broadcast, 3), text("again"));
}

#[test]
fn pong_goes_to_channels_with_a_pong_target() {
    let mut broker = TestBroker::new();
    broker.handle_control(connect(1, 5, 6));
    let actions = broker.handle_inbound(Envelope::ChannelPong { channel_id: ChannelId(1) });
    assert_eq!(actions.len(), 1);
    assert!(matches!(
        &actions[0],
        Action::Pong { key: Key { kind: Kind::Channel, id: 1 } }
    ));
    let absent = broker.handle_inbound(Envelope::ChannelPong { channel_id: ChannelId(2) });
    assert!(absent.is_empty());
    assert_eq!(broker.pending(), 1);
}

#[test]
fn unrecognized_frame_is_fatal() {
    let mut broker = TestBroker::new();
    broker.handle_control(call(1, 10));
    let actions =
        broker.handle_inbound(Envelope::Unrecognized { frame: "{\"x\":1}".to_string() });
    assert_eq!(actions.len(), 1);
    assert_eq!(broker.pending(), 0);
    match (&actions[0], broker.state()) {
        (Action::Refuse { target, error }, BrokerState::Dead(e)) => {
            assert_eq!(*target, 10);
            assert!(same_cause(error, e));
            match error {
                StreamingError::UnexpectedMessage(frame) => {
                    assert!(matches!(&**frame, Frame::Text(t) if t == "{\"x\":1}"))
                }
                other => panic!("unexpected {:?}", other),
            }
        }
        other => panic!("unexpected {:?}", other),
    }
    let mut dead = TestBroker::new();
    dead.shutdown();
    assert!(dead.handle_inbound(Envelope::Unrecognized { frame: String::new() }).is_empty());
    assert!(matches!(dead.state(), BrokerState::Exited));
}

#[test]
fn same_id_of_different_kinds_does_not_clash() {
    let mut broker = TestBroker::new();
    broker.handle_control(call(1, 10));
    broker.handle_control(connect(1, 5, 6));
    broker.handle_control(BrokerControl::SubscribeNote {
        id: SubNoteId(1),
        note_id: "n".to_string(),
        sender: 7,
    });
    broker.handle_control(BrokerControl::StartBroadcast {
        id: BroadcastId(1),
        type_: "t".to_string(),
        sender: 8,
    });
    assert_eq!(broker.pending(), 4);
}

#[test]
fn taken_id_is_refused_and_the_table_stays() {
    let mut broker = TestBroker::new();
    broker.handle_control(call(1, 10));
    let again = broker.handle_control(call(1, 11));
    assert_eq!(again.len(), 1);
    assert!(matches!(&again[0], Action::Cancel { target: 11 }));
    broker.handle_control(connect(1, 5, 6));
    let twice = broker.handle_control(connect(1, 50, 60));
    assert_eq!(twice.len(), 1);
    match &twice[0] {
        Action::End { stream, error } => {
            assert_eq!(stream.target, 50);
            assert_eq!(stream.pong, Some(60));
            assert!(error.is_none());
        }
        other => panic!("expected the offered stream to end, got {:?}", other),
    }
    assert_eq!(broker.pending(), 2);
    assert_eq!(broker.stream(Key { kind: Kind::Channel, id: 1 }).unwrap().target, 5);
    let reply =
        broker.handle_inbound(Envelope::ApiResponse { id: ApiRequestId(1), result: text("r") });
    assert!(matches!(&reply[0], Action::Reply { target: 10, .. }));
}

#[test]
fn transport_failure_fails_the_pending_call() {
    let mut broker = TestBroker::new();
    broker.handle_control(call(0xa1, 1));
    let actions = broker.fail(transport_error());
    assert_eq!(actions.len(), 1);
    let died_of = match broker.state() {
        BrokerState::Dead(e) => e,
        other => panic!("expected a dead broker, got {:?}", other),
    };
    match &actions[0] {
        Action::Refuse { target, error } => {
            assert_eq!(*target, 1);
            assert!(same_cause(error, died_of));
            match error {
                StreamingError::WebSocket(e) => {
                    assert!(matches!(**e, tungstenite::Error::ConnectionClosed))
                }
                other => panic!("expected a transport error, got {:?}", other),
            }
        }
        other => panic!("expected a refusal, got {:?}", other),
    }
    assert_eq!(broker.pending(), 0);
}

#[test]
fn failure_reaches_every_pending_entry() {
    let mut broker = TestBroker::new();
    broker.handle_control(call(1, 10));
    broker.handle_control(connect(1, 20, 21));
    broker.handle_control(call(2, 30));
    broker.handle_control(BrokerControl::StartBroadcast {
        id: BroadcastId(9),
        type_: "t".to_string(),
        sender: 40,
    });
    let actions = broker.step(Event::Failure(transport_error()));
    assert_eq!(actions.len(), 4);
    assert_eq!(broker.pending(), 0);
    let died_of = match broker.state() {
        BrokerState::Dead(e) => e,
        other => panic!("expected a dead broker, got {:?}", other),
    };
    let mut calls = Vec::new();
    let mut streams = Vec::new();
    for action in &actions {
        match action {
            Action::Refuse { target, error } => {
                assert!(same_cause(error, died_of));
                calls.push(*target);
            }
            Action::End { stream, error } => {
                assert!(same_cause(error.as_ref().unwrap(), died_of));
                streams.push(stream.target);
            }
            other => panic!("unexpected action {:?}", other),
        }
    }
    assert_eq!(calls, vec![30, 10]);
    assert_eq!(streams, vec![40, 20]);
}

#[test]
fn dead_broker_rejects_commands_with_its_error() {
    let mut broker = TestBroker::new();
    broker.fail(transport_error());
    let refused = broker.handle_control(call(1, 10));
    assert_eq!(refused.len(), 1);
    match (&refused[0], broker.state()) {
        (Action::Refuse { target, error }, BrokerState::Dead(e)) => {
            assert_eq!(*target, 10);
            assert!(same_cause(error, e));
        }
        other => panic!("unexpected {:?}", other),
    }
    let ended = broker.handle_control(connect(1, 5, 6));
    match (&ended[0], broker.state()) {
        (Action::End { stream, error: Some(error) }, BrokerState::Dead(e)) => {
            assert_eq!(stream.target, 5);
            assert_eq!(stream.pong, Some(6));
            assert!(same_cause(error, e));
        }
        other => panic!("unexpected {:?}", other),
    }
    let note = broker.handle_control(BrokerControl::SubscribeNote {
        id: SubNoteId(1),
        note_id: "n".to_string(),
        sender: 7,
    });
    assert!(matches!(&note[0], Action::End { error: Some(_), .. }));
    let cast = broker.handle_control(BrokerControl::StartBroadcast {
        id: BroadcastId(1),
        type_: "t".to_string(),
        sender: 8,
    });
    match &cast[0] {
        Action::End { stream, error: Some(_) } => {
            assert_eq!(stream.topic.as_deref(), Some("t"));
        }
        other => panic!("unexpected {:?}", other),
    }
    assert!(broker.handle_control(BrokerControl::Disconnect { id: ChannelId(1) }).is_empty());
    assert!(broker.handle_control(BrokerControl::UnsubscribeNote { id: SubNoteId(1) }).is_empty());
    assert!(broker.handle_control(BrokerControl::StopBroadcast { id: BroadcastId(1) }).is_empty());
    assert!(broker.handle_inbound(message(1, "m")).is_empty());
    assert_eq!(broker.pending(), 0);
}

#[test]
fn terminal_state_is_reached_once() {
    let mut broker = TestBroker::new();
    broker.fail(transport_error());
    let first = match broker.state() {
        BrokerState::Dead(e) => e.duplicate(),
        other => panic!("expected a dead broker, got {:?}", other),
    };
    assert!(broker.fail(transport_error()).is_empty());
    assert!(broker.shutdown().is_empty());
    match broker.state() {
        BrokerState::Dead(e) => assert!(same_cause(e, &first)),
        other => panic!("expected a dead broker, got {:?}", other),
    }
    let mut exited = TestBroker::new();
    exited.shutdown();
    assert!(exited.fail(transport_error()).is_empty());
    assert!(matches!(exited.state(), BrokerState::Exited));
}

#[test]
fn shutdown_ends_streams_cleanly_and_cancels_calls() {
    let mut broker = TestBroker::new();
    broker.handle_control(call(1, 10));
    broker.handle_control(connect(1, 20, 21));
    let actions = broker.step(Event::Shutdown);
    assert_eq!(actions.len(), 2);
    match &actions[0] {
        Action::End { stream, error } => {
            assert_eq!(stream.target, 20);
            assert!(error.is_none());
        }
        other => panic!("unexpected {:?}", other),
    }
    assert!(matches!(&actions[1], Action::Cancel { target: 10 }));
    assert!(matches!(broker.state(), BrokerState::Exited));
    assert_eq!(broker.pending(), 0);
    let late = broker.step(Event::Control(call(2, 11)));
    assert!(matches!(&late[0], Action::Cancel { target: 11 }));
    let stream = broker.step(Event::Control(connect(2, 22, 23)));
    assert!(matches!(&stream[0], Action::End { error: None, .. }));
    assert!(broker.step(Event::Inbound(message(1, "m"))).is_empty());
}

#[test]
fn step_dispatches_on_the_event() {
    let mut broker = TestBroker::new();
    let written = broker.step(Event::Control(connect(1, 5, 6)));
    assert!(matches!(&written[0], Action::Write(OutgoingFrame::Connect { .. })));
    let pushed = broker.step(Event::Inbound(message(1, "m")));
    assert_eq!(pushed_body(&pushed[0], Kind::Channel, 1), text("m"));
}

#[test]
fn state_tells_handles_what_to_do() {
    assert!(matches!(BrokerState::Working.admission(), Admission::Proceed));
    assert!(matches!(BrokerState::Exited.admission(), Admission::Closed));
    let dead = BrokerState::Dead(transport_error());
    match (&dead, dead.admission()) {
        (BrokerState::Dead(e), Admission::Refused(error)) => assert!(same_cause(e, &error)),
        other => panic!("unexpected {:?}", other),
    }
    assert!(BrokerState::Working.dead().is_none());
    match (&dead, dead.dead()) {
        (BrokerState::Dead(e), Some(error)) => assert!(same_cause(e, error)),
        other => panic!("unexpected {:?}", other),
    }
    assert!(matches!(BrokerState::Working.duplicate(), BrokerState::Working));
    assert!(matches!(BrokerState::Exited.duplicate(), BrokerState::Exited));
    match (&dead, dead.duplicate()) {
        (BrokerState::Dead(e), BrokerState::Dead(copy)) => assert!(same_cause(e, &copy)),
        other => panic!("unexpected {:?}", other),
    }
}

#[test]
fn broadcast_ids_are_random_uuids() {
    let a = BroadcastId::new();
    let b = BroadcastId::new();
    assert_ne!(a, b);
    for id in [a, b] {
        assert_eq!((id.0 >> 76) & 0xf, 4);
        assert_eq!((id.0 >> 62) & 0x3, 2);
        assert_eq!(uuid::Uuid::from_u128(id.0).get_version_num(), 4);
    }
}

#[test]
fn every_kind_of_id_is_minted_fresh() {
    assert_ne!(ApiRequestId::new(), ApiRequestId::new());
    assert_ne!(ChannelId::new(), ChannelId::new());
    assert_ne!(SubNoteId::new(), SubNoteId::new());
    for id in [ApiRequestId::new().0, ChannelId::new().0, SubNoteId::new().0] {
        assert_eq!(id & 0x0000_0000_0000_f000_c000_0000_0000_0000, 0x4000_8000_0000_0000_0000);
    }
}

#[test]
fn stream_literal_is_plain_data() {
    let stream: Stream<u32, u32> = Stream { target: 1, pong: None, topic: None };
    assert_eq!(stream.target, 1);
    assert!(stream.pong.is_none());
    assert!(stream.topic.is_none());
}

#[test]
fn frames_are_sorted_by_their_header() {
    let header = |type_: &str, id: Option<u128>, ping: bool| Header {
        type_: type_.to_string(),
        id,
        ping,
    };
    let sort = |h: Header| Envelope::sort(h, text("b"), "frame".to_string());
    assert!(matches!(
        sort(header("api", Some(1), false)),
        Envelope::ApiResponse { id: ApiRequestId(1), result } if result == text("b")
    ));
    assert!(matches!(
        sort(header("api", Some(1), true)),
        Envelope::ApiResponse { id: ApiRequestId(1), .. }
    ));
    assert!(matches!(
        sort(header("channel", Some(2), false)),
        Envelope::ChannelMessage { channel_id: ChannelId(2), body } if body == text("b")
    ));
    assert!(matches!(
        sort(header("channel", Some(2), true)),
        Envelope::ChannelPong { channel_id: ChannelId(2) }
    ));
    assert!(matches!(
        sort(header("noteUpdated", Some(3), false)),
        Envelope::NoteUpdate { sub_note_id: SubNoteId(3), body } if body == text("b")
    ));
    assert!(matches!(
        sort(header("emojiAdded", None, false)),
        Envelope::Broadcast { type_, body } if type_ == "emojiAdded" && body == text("b")
    ));
    assert!(matches!(
        sort(header("Api", Some(4), false)),
        Envelope::Broadcast { type_, .. } if type_ == "Api"
    ));
    for (type_, id) in [("api", None), ("channel", None), ("noteUpdated", None), ("", Some(1)), ("", None)] {
        assert!(matches!(
            sort(header(type_, id, false)),
            Envelope::Unrecognized { frame } if frame == "frame"
        ));
    }
}

#[test]
fn control_frames_carry_their_wire_type() {
    assert_eq!(
        OutgoingFrame::ApiCall {
            id: ApiRequestId(1),
            endpoint: "e".to_string(),
            parameters: Value::Null
        }
        .wire_type(),
        "api"
    );
    assert_eq!(
        OutgoingFrame::Connect { id: ChannelId(1), name: "n".to_string(), params: Value::Null }
            .wire_type(),
        "connect"
    );
    assert_eq!(OutgoingFrame::Disconnect { id: ChannelId(1) }.wire_type(), "disconnect");
    assert_eq!(
        OutgoingFrame::SubscribeNote { id: SubNoteId(1), note_id: "n".to_string() }.wire_type(),
        "subNote"
    );
    assert_eq!(OutgoingFrame::UnsubscribeNote { id: SubNoteId(1) }.wire_type(), "unsubNote");
}
