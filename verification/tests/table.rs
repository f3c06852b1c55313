use misskey::broker::model::{Entry, Key, Kind, Stream};
use misskey::broker::table::DispatchTable;

type Table = DispatchTable<&'static str, &'static str, &'static str>;

fn stream(target: &'static str) -> Stream<&'static str, &'static str> {
    Stream { target, pong: None, topic: None }
}

fn listener(target: &'static str, topic: &str) -> Stream<&'static str, &'static str> {
    Stream { target, pong: None, topic: Some(topic.to_string()) }
}

#[test]
fn new_table_is_empty() {
    let table = Table::new();
    assert_eq!(table.len(), 0);
    assert!(!table.contains(Kind::ApiRequest, 0));
}

#[test]
fn insert_refuses_a_taken_key() {
    let mut table = Table::new();
    assert_eq!(table.insert_one_shot(Kind::ApiRequest, 1, "a"), Ok(()));
    assert_eq!(table.insert_one_shot(Kind::ApiRequest, 1, "b"), Err("b"));
    assert!(table.insert_one_shot(Kind::Channel, 1, "c").is_ok());
    match table.insert_stream(Kind::Channel, 1, stream("d")) {
        Err(back) => assert_eq!(back.target, "d"),
        Ok(()) => panic!("a taken key was accepted"),
    }
    assert!(table.insert_stream(Kind::SubNote, 1, stream("e")).is_ok());
    assert_eq!(table.len(), 3);
    assert!(table.contains(Kind::ApiRequest, 1));
    assert!(table.contains(Kind::Channel, 1));
    assert!(table.contains(Kind::SubNote, 1));
    assert!(!table.contains(Kind::Broadcast, 1));
    assert_eq!(table.take_one_shot(Kind::ApiRequest, 1), Some("a"));
}

#[test]
fn take_one_shot_removes_exactly_one() {
    let mut table = Table::new();
    table.insert_one_shot(Kind::ApiRequest, 1, "a").unwrap();
    table.insert_one_shot(Kind::ApiRequest, 2, "b").unwrap();
    table.insert_one_shot(Kind::ApiRequest, 3, "c").unwrap();
    assert_eq!(table.take_one_shot(Kind::ApiRequest, 2), Some("b"));
    assert_eq!(table.take_one_shot(Kind::ApiRequest, 2), None);
    assert_eq!(table.len(), 2);
    assert_eq!(table.take_one_shot(Kind::ApiRequest, 4), None);
    assert_eq!(table.take_one_shot(Kind::Channel, 1), None);
    assert_eq!(table.take_one_shot(Kind::ApiRequest, 3), Some("c"));
    assert_eq!(table.take_one_shot(Kind::ApiRequest, 1), Some("a"));
    assert_eq!(table.len(), 0);
}

#[test]
fn one_shot_and_stream_do_not_stand_in_for_each_other() {
    let mut table = Table::new();
    table.insert_one_shot(Kind::Channel, 1, "call").unwrap();
    table.insert_stream(Kind::ApiRequest, 1, stream("stream")).unwrap();
    assert!(table.peek_stream(Kind::Channel, 1).is_none());
    assert!(table.remove_stream(Kind::Channel, 1).is_none());
    assert_eq!(table.take_one_shot(Kind::ApiRequest, 1), None);
    assert_eq!(table.len(), 2);
    assert_eq!(table.peek_stream(Kind::ApiRequest, 1).unwrap().target, "stream");
    assert_eq!(table.take_one_shot(Kind::Channel, 1), Some("call"));
}

#[test]
fn peek_keeps_and_remove_takes() {
    let mut table = Table::new();
    table
        .insert_stream(Kind::Channel, 1, Stream { target: "s", pong: Some("p"), topic: None })
        .unwrap();
    assert_eq!(table.peek_stream(Kind::Channel, 1).unwrap().target, "s");
    assert_eq!(table.peek_stream(Kind::Channel, 1).unwrap().pong, Some("p"));
    assert_eq!(table.len(), 1);
    let removed = table.remove_stream(Kind::Channel, 1).unwrap();
    assert_eq!(removed.target, "s");
    assert_eq!(removed.pong, Some("p"));
    assert!(table.peek_stream(Kind::Channel, 1).is_none());
    assert!(table.remove_stream(Kind::Channel, 1).is_none());
    assert_eq!(table.len(), 0);
}

#[test]
fn listeners_in_filing_order() {
    let mut table = Table::new();
    table.insert_stream(Kind::Broadcast, 5, listener("a", "x")).unwrap();
    table.insert_stream(Kind::Broadcast, 3, listener("b", "y")).unwrap();
    table.insert_stream(Kind::Channel, 9, listener("c", "x")).unwrap();
    table.insert_stream(Kind::Broadcast, 1, listener("d", "x")).unwrap();
    table.insert_stream(Kind::Broadcast, 2, stream("e")).unwrap();
    table.insert_one_shot(Kind::Broadcast, 7, "f").unwrap();
    assert_eq!(
        table.listeners("x"),
        vec![Key { kind: Kind::Broadcast, id: 5 }, Key { kind: Kind::Broadcast, id: 1 }]
    );
    assert_eq!(table.listeners("y"), vec![Key { kind: Kind::Broadcast, id: 3 }]);
    assert!(table.listeners("z").is_empty());
    assert!(table.listeners("").is_empty());
    assert_eq!(table.len(), 6);
}

#[test]
fn drain_hands_out_everything_oldest_first() {
    let mut table = Table::new();
    table.insert_one_shot(Kind::ApiRequest, 1, "a").unwrap();
    table.insert_stream(Kind::Channel, 2, stream("b")).unwrap();
    table.insert_one_shot(Kind::ApiRequest, 3, "c").unwrap();
    table.take_one_shot(Kind::ApiRequest, 1);
    table.insert_one_shot(Kind::ApiRequest, 1, "a2").unwrap();
    let all = table.drain_all();
    assert_eq!(table.len(), 0);
    assert!(table.drain_all().is_empty());
    let keys: Vec<Key> = all.iter().map(|slot| slot.key).collect();
    assert_eq!(
        keys,
        vec![
            Key { kind: Kind::Channel, id: 2 },
            Key { kind: Kind::ApiRequest, id: 3 },
            Key { kind: Kind::ApiRequest, id: 1 },
        ]
    );
    assert!(matches!(&all[0].entry, Entry::Stream(s) if s.target == "b"));
    assert!(matches!(&all[1].entry, Entry::OneShot("c")));
    assert!(matches!(&all[2].entry, Entry::OneShot("a2")));
    assert!(table.insert_one_shot(Kind::ApiRequest, 3, "again").is_ok());
}

#[test]
fn ids_use_the_whole_width() {
    let mut table = Table::new();
    table.insert_one_shot(Kind::ApiRequest, u128::MAX, "max").unwrap();
    table.insert_one_shot(Kind::ApiRequest, 0, "zero").unwrap();
    table.insert_one_shot(Kind::ApiRequest, 1u128 << 64, "high").unwrap();
    assert_eq!(table.take_one_shot(Kind::ApiRequest, 1u128 << 64), Some("high"));
    assert_eq!(table.take_one_shot(Kind::ApiRequest, u128::MAX), Some("max"));
    assert_eq!(table.take_one_shot(Kind::ApiRequest, 0), Some("zero"));
}
