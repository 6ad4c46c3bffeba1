use redisgo::command::{plan, Command, Refusal, Request};
use redisgo::connector::connector_for;
use redisgo::slot::{ConnectionSlot, Step};

fn s(x: &str) -> String {
    x.to_string()
}

#[test]
fn new_slot_is_empty() {
    let slot: ConnectionSlot<u32> = ConnectionSlot::new();
    assert!(!slot.is_connected());
    assert_eq!(slot.connection_status(), "Not connected");
}

#[test]
fn unconfigured_handle_refuses() {
    let mut slot: ConnectionSlot<u32> = ConnectionSlot::new();
    assert_eq!(slot.next_step(false), Step::Refuse);
    assert_eq!(slot.settle::<()>(Ok(7)), Ok(()));
    assert_eq!(slot.next_step(false), Step::Refuse);
}

#[test]
fn empty_slot_connects_then_reuses() {
    let mut slot: ConnectionSlot<u32> = ConnectionSlot::new();
    assert_eq!(slot.next_step(true), Step::Connect);
    assert_eq!(slot.settle::<&str>(Ok(7)), Ok(()));
    assert!(slot.is_connected());
    assert_eq!(slot.conn, Some(7));
    assert_eq!(slot.connection_status(), "Connected");
    assert_eq!(slot.next_step(true), Step::Reuse);
}

#[test]
fn failed_connect_leaves_slot_empty() {
    let mut slot: ConnectionSlot<u32> = ConnectionSlot::new();
    assert_eq!(slot.settle(Err("refused")), Err("refused"));
    assert!(!slot.is_connected());
    assert_eq!(slot.next_step(true), Step::Connect);
    assert_eq!(slot.settle::<&str>(Ok(3)), Ok(()));
    assert_eq!(slot.next_step(true), Step::Reuse);
}

#[test]
fn every_request_refused_without_connector() {
    let requests = vec![
        Request::Put { key: s("k"), value: s("v") },
        Request::PutWithTtl { key: s("k"), value: s("v"), ttl: Some(10) },
        Request::Get { key: s("k") },
        Request::Delete { key: s("k") },
        Request::Exists { key: s("k") },
        Request::FlushAll,
        Request::Ping,
    ];
    for r in requests {
        assert!(matches!(plan(r, false), Err(Refusal::NotConfigured)));
    }
}

#[test]
fn ttl_becomes_expiring_put() {
    match plan(Request::PutWithTtl { key: s("k"), value: s("v"), ttl: Some(10) }, true) {
        Ok(Command::PutExpiring { key, value, seconds }) => {
            assert_eq!((key.as_str(), value.as_str(), seconds), ("k", "v", 10));
        }
        _ => panic!("expected an expiring put"),
    }
}

#[test]
fn zero_ttl_is_handed_on() {
    match plan(Request::PutWithTtl { key: s("k"), value: s("v"), ttl: Some(0) }, true) {
        Ok(Command::PutExpiring { seconds, .. }) => assert_eq!(seconds, 0),
        _ => panic!("expected an expiring put"),
    }
}

#[test]
fn largest_ttl_is_handed_on() {
    match plan(Request::PutWithTtl { key: s("k"), value: s("v"), ttl: Some(usize::MAX) }, true) {
        Ok(Command::PutExpiring { seconds, .. }) => assert_eq!(seconds, usize::MAX as u64),
        _ => panic!("expected an expiring put"),
    }
}

#[test]
fn no_ttl_is_a_plain_put() {
    match plan(Request::PutWithTtl { key: s("k"), value: s("v"), ttl: None }, true) {
        Ok(Command::Put { key, value }) => assert_eq!((key.as_str(), value.as_str()), ("k", "v")),
        _ => panic!("expected a plain put"),
    }
}

#[test]
fn each_request_has_its_command() {
    assert!(matches!(plan(Request::Put { key: s("a"), value: s("b") }, true),
        Ok(Command::Put { ref key, ref value }) if key == "a" && value == "b"));
    assert!(matches!(plan(Request::Get { key: s("a") }, true),
        Ok(Command::Get { ref key }) if key == "a"));
    assert!(matches!(plan(Request::Delete { key: s("a") }, true),
        Ok(Command::Del { ref key }) if key == "a"));
    assert!(matches!(plan(Request::Exists { key: s("a") }, true),
        Ok(Command::Exists { ref key }) if key == "a"));
    assert!(matches!(plan(Request::FlushAll, true), Ok(Command::FlushAll)));
    assert!(matches!(plan(Request::Ping, true), Ok(Command::Ping)));
}

#[test]
fn store_url_gives_a_connector() {
    assert!(connector_for(Some(s("redis://127.0.0.1:6379/"))).is_some());
    assert!(connector_for(Some(s("unix:///tmp/store.sock"))).is_some());
}

#[test]
fn other_targets_give_no_connector() {
    assert!(connector_for(None).is_none());
    assert!(connector_for(Some(s("http://127.0.0.1/"))).is_none());
    assert!(connector_for(Some(s("not a url"))).is_none());
    assert!(connector_for(Some(s(""))).is_none());
}
