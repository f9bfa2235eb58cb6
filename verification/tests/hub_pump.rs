use spawn_core::hub::{BroadcastHub, HubRecv, HUB_CAPACITY};
use spawn_core::pty_manager::PtyManager;
use spawn_core::pump::{pump_chunk, run_scripted_pump};
use spawn_core::session::SessionStatus;

fn expect_message(r: HubRecv) -> (String, Vec<u8>) {
    match r {
        HubRecv::Message(m) => (m.session_id, m.data),
        HubRecv::Lagged => panic!("expected a message, found a lag"),
        HubRecv::Empty => panic!("expected a message, found nothing"),
    }
}

#[test]
fn test_subscriber_receives_chunks_in_order() {
    // A subscriber connected before both writes sees b1 strictly
    // before b2.
    let mut hub = BroadcastHub::new(HUB_CAPACITY);
    let mut sub = hub.subscribe();
    hub.publish("s1".to_string(), b"b1".to_vec());
    hub.publish("s1".to_string(), b"b2".to_vec());
    let (id1, d1) = expect_message(hub.receive(&mut sub));
    let (id2, d2) = expect_message(hub.receive(&mut sub));
    assert_eq!(id1, "s1");
    assert_eq!(d1, b"b1".to_vec());
    assert_eq!(id2, "s1");
    assert_eq!(d2, b"b2".to_vec());
    assert!(matches!(hub.receive(&mut sub), HubRecv::Empty));
}

#[test]
fn test_late_subscriber_gets_no_replay() {
    // A subscriber that connects after output was produced receives
    // none of it, but receives everything published afterwards.
    let mut hub = BroadcastHub::new(HUB_CAPACITY);
    hub.publish("s1".to_string(), b"history".to_vec());
    let mut sub = hub.subscribe();
    assert!(matches!(hub.receive(&mut sub), HubRecv::Empty));
    hub.publish("s1".to_string(), b"fresh".to_vec());
    let (_, data) = expect_message(hub.receive(&mut sub));
    assert_eq!(data, b"fresh".to_vec());
    assert!(matches!(hub.receive(&mut sub), HubRecv::Empty));
}

#[test]
fn test_slow_subscriber_lags_and_recovers() {
    // With the window full, the oldest messages are dropped; a
    // subscriber that fell behind sees one lag marker, then resumes
    // from the oldest retained message instead of being disconnected.
    let mut hub = BroadcastHub::new(2);
    let mut sub = hub.subscribe();
    hub.publish("s1".to_string(), b"m0".to_vec());
    hub.publish("s1".to_string(), b"m1".to_vec());
    hub.publish("s1".to_string(), b"m2".to_vec());
    assert!(matches!(hub.receive(&mut sub), HubRecv::Lagged));
    let (_, d1) = expect_message(hub.receive(&mut sub));
    assert_eq!(d1, b"m1".to_vec());
    let (_, d2) = expect_message(hub.receive(&mut sub));
    assert_eq!(d2, b"m2".to_vec());
    assert!(matches!(hub.receive(&mut sub), HubRecv::Empty));
}

#[test]
fn test_publish_never_blocks_without_subscribers() {
    // Publishing with nobody listening is not an error.
    let mut hub = BroadcastHub::new(1);
    hub.publish("s1".to_string(), b"a".to_vec());
    hub.publish("s1".to_string(), b"b".to_vec());
}

#[test]
fn test_pump_appends_and_publishes() {
    // One pump iteration distributes the chunk and appends the very
    // same bytes to the scrollback.
    let mut manager: PtyManager<u32> = PtyManager::new();
    let mut hub = BroadcastHub::new(HUB_CAPACITY);
    manager.insert_session("s1".to_string(), "p1".to_string(), 0);
    assert!(manager.contains_session("s1"));
    let mut sub = hub.subscribe();
    assert!(pump_chunk(&mut manager, &mut hub, "s1", b"b1"));
    assert!(pump_chunk(&mut manager, &mut hub, "s1", b"b2"));
    assert_eq!(manager.get_scrollback("s1", None), b"b1b2".to_vec());
    let (id1, d1) = expect_message(hub.receive(&mut sub));
    assert_eq!((id1.as_str(), d1), ("s1", b"b1".to_vec()));
    let (id2, d2) = expect_message(hub.receive(&mut sub));
    assert_eq!((id2.as_str(), d2), ("s1", b"b2".to_vec()));
}

#[test]
fn test_scripted_pump_run() {
    // A scripted session end to end: both chunks distributed in order,
    // scrollback accumulated, one stopped transition, one exit notice;
    // after a kill, a second stream end owes nothing.
    let mut manager: PtyManager<u32> = PtyManager::new();
    let mut hub = BroadcastHub::new(HUB_CAPACITY);
    manager.insert_session("s1".to_string(), "p1".to_string(), 0);
    let mut sub = hub.subscribe();
    let script: Vec<Vec<u8>> = vec![b"b1".to_vec(), b"b2".to_vec()];
    let notify = run_scripted_pump(&mut manager, &mut hub, "s1", &script);
    assert!(notify);
    let (status, scrollback) = manager.get_session("s1").unwrap();
    assert_eq!(status, SessionStatus::Stopped);
    assert_eq!(scrollback, b"b1b2".to_vec());
    let (_, d1) = expect_message(hub.receive(&mut sub));
    let (_, d2) = expect_message(hub.receive(&mut sub));
    assert_eq!((d1, d2), (b"b1".to_vec(), b"b2".to_vec()));
    manager.kill_session("s1");
    assert!(!run_scripted_pump(&mut manager, &mut hub, "s1", &Vec::new()));
}

#[test]
fn test_pump_tolerates_removed_session() {
    // The pump may race an explicit kill: the chunk still goes to the
    // hub, the append is a tolerated no-op, and the stream-end pass
    // reports that no exit notice is owed.
    let mut manager: PtyManager<u32> = PtyManager::new();
    let mut hub = BroadcastHub::new(HUB_CAPACITY);
    manager.insert_session("s1".to_string(), "p1".to_string(), 0);
    manager.kill_session("s1");
    assert!(!pump_chunk(&mut manager, &mut hub, "s1", b"late"));
    assert!(!manager.mark_stopped("s1"));
    assert_eq!(manager.len(), 0);
}
