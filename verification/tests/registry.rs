use spawn_core::errors::PtyError;
use spawn_core::pty_manager::PtyManager;
use spawn_core::session::SessionStatus;

#[test]
fn test_new_manager_has_no_sessions() {
    let manager: PtyManager<u32> = PtyManager::new();
    assert_eq!(manager.len(), 0);
}

#[test]
fn test_get_nonexistent_session_returns_none() {
    let manager: PtyManager<u32> = PtyManager::new();
    let result = manager.get_session("nonexistent");
    assert!(result.is_none());
}

#[test]
fn test_kill_nonexistent_session_is_noop() {
    let mut manager: PtyManager<u32> = PtyManager::new();
    // Should not panic
    manager.kill_session("nonexistent");
    assert_eq!(manager.len(), 0);
}

#[test]
fn test_unknown_id_is_inert() {
    // A session id that was never spawned: empty scrollback, write is
    // NotFound, kill is a silent no-op that keeps the registry's size.
    let mut manager: PtyManager<u32> = PtyManager::new();
    manager.insert_session("other".to_string(), "p1".to_string(), 7);
    assert_eq!(manager.get_scrollback("ghost", None), Vec::<u8>::new());
    assert_eq!(manager.write_target("ghost").unwrap_err(), PtyError::NotFound);
    assert_eq!(manager.kill_session("ghost"), None);
    assert_eq!(manager.len(), 1);
}

#[test]
fn test_spawn_shell_twice_is_idempotent() {
    // Two attach attempts under one id leave exactly one live session.
    let mut manager: PtyManager<u32> = PtyManager::new();
    let first = manager.attach_session("s1".to_string(), String::new(), 1);
    assert_eq!(first, None);
    assert_eq!(manager.len(), 1);
    let second = manager.attach_session("s1".to_string(), String::new(), 2);
    // The second handle is handed back untouched: nothing was replaced.
    assert_eq!(second, Some(2));
    assert_eq!(manager.len(), 1);
    let (status, scrollback) = manager.get_session("s1").unwrap();
    assert_eq!(status, SessionStatus::Running);
    assert_eq!(scrollback, Vec::<u8>::new());
}

#[test]
fn test_insert_displaces_previous_holder() {
    let mut manager: PtyManager<u32> = PtyManager::new();
    assert_eq!(manager.insert_session("s1".to_string(), "p1".to_string(), 1), None);
    let displaced = manager.insert_session("s1".to_string(), "p2".to_string(), 2);
    assert_eq!(displaced, Some(1));
    assert_eq!(manager.len(), 1);
}

#[test]
fn test_kill_returns_handle_and_removes() {
    let mut manager: PtyManager<u32> = PtyManager::new();
    manager.insert_session("s1".to_string(), "p1".to_string(), 42);
    assert_eq!(manager.kill_session("s1"), Some(42));
    assert!(manager.get_session("s1").is_none());
    assert_eq!(manager.len(), 0);
}

#[test]
fn test_scrollback_appends_in_order() {
    let mut manager: PtyManager<u32> = PtyManager::new();
    manager.insert_session("s1".to_string(), "p1".to_string(), 0);
    assert!(manager.append_scrollback("s1", b"hello "));
    assert!(manager.append_scrollback("s1", b"world"));
    let (_, scrollback) = manager.get_session("s1").unwrap();
    assert_eq!(scrollback, b"hello world".to_vec());
    assert_eq!(manager.get_scrollback("s1", None), b"hello world".to_vec());
}

#[test]
fn test_natural_exit_stops_once_and_kill_stays_silent() {
    // Natural process exit: Running -> Stopped, one exit notice owed;
    // a later kill removes the entry; the stream-end pass after a kill
    // finds nothing and owes no second notice.
    let mut manager: PtyManager<u32> = PtyManager::new();
    manager.insert_session("s1".to_string(), "p1".to_string(), 0);
    let (status, _) = manager.get_session("s1").unwrap();
    assert_eq!(status, SessionStatus::Running);
    assert!(manager.mark_stopped("s1"));
    let (status, _) = manager.get_session("s1").unwrap();
    assert_eq!(status, SessionStatus::Stopped);
    manager.kill_session("s1");
    assert!(!manager.mark_stopped("s1"));
}

#[test]
fn test_stopped_session_keeps_scrollback() {
    let mut manager: PtyManager<u32> = PtyManager::new();
    manager.insert_session("s1".to_string(), "p1".to_string(), 0);
    manager.append_scrollback("s1", b"output");
    manager.mark_stopped("s1");
    assert_eq!(manager.get_scrollback("s1", None), b"output".to_vec());
}

#[test]
fn test_get_scrollback_falls_back_to_store() {
    let manager: PtyManager<u32> = PtyManager::new();
    let stored = Some(b"from the store".to_vec());
    assert_eq!(manager.get_scrollback("gone", stored), b"from the store".to_vec());
}

#[test]
fn test_resize_absent_session_is_tolerated() {
    // Resize on a killed or absent id never faults: it reports no
    // target and changes nothing.
    let mut manager: PtyManager<u32> = PtyManager::new();
    assert!(manager.resize_target("ghost").is_none());
    manager.insert_session("s1".to_string(), "p1".to_string(), 9);
    assert_eq!(manager.resize_target("s1"), Some(&9));
    manager.kill_session("s1");
    assert!(manager.resize_target("s1").is_none());
    assert_eq!(manager.len(), 0);
}

#[test]
fn test_write_target_finds_live_session() {
    let mut manager: PtyManager<u32> = PtyManager::new();
    manager.insert_session("s1".to_string(), "p1".to_string(), 5);
    assert_eq!(manager.write_target("s1").unwrap(), &5);
}

#[test]
fn test_default_manager_is_empty() {
    let manager: PtyManager<u32> = PtyManager::default();
    assert!(manager.is_empty());
}
