use game_sync::components::ConnectionPhase;
use game_sync::connections::ConnectionRegistry;

#[test]
fn sweep_removes_exactly_the_silent_and_is_idempotent() {
    let mut reg = ConnectionRegistry::new();
    let rec = reg.on_connect(1, 0, 100);
    assert_eq!(rec.created_at, 100);
    assert_eq!(rec.last_pinged_at, 100);
    assert_eq!(rec.phase, ConnectionPhase::Connecting);
    reg.on_connect(2, 0, 100);
    reg.on_connect(3, 0, 100);
    reg.on_ping(2, 900);
    reg.on_ping(3, 600);
    // silences at 1100: 1000, 200, 500
    let gone = reg.sweep_timeouts(1100, 500);
    assert_eq!(gone, vec![1]);
    assert!(!reg.contains(1));
    assert!(reg.contains(2));
    assert!(reg.contains(3));
    assert!(reg.sweep_timeouts(1100, 500).is_empty());
    let later = reg.sweep_timeouts(1200, 500);
    assert_eq!(later, vec![3]);
    assert_eq!(reg.len(), 1);
}

#[test]
fn ping_of_unknown_connection_is_ignored() {
    let mut reg = ConnectionRegistry::new();
    reg.on_connect(7, 3, 10);
    reg.on_ping(8, 50);
    assert_eq!(reg.len(), 1);
    assert_eq!(reg.get(7).unwrap().last_pinged_at, 10);
}

#[test]
fn handshake_and_close() {
    let mut reg = ConnectionRegistry::new();
    reg.on_connect(7, 3, 10);
    assert!(reg.on_handshake(7));
    assert!(!reg.on_handshake(9));
    assert_eq!(reg.get(7).unwrap().phase, ConnectionPhase::Established);
    let closed = reg.on_close(7).unwrap();
    assert_eq!(closed.reader, 3);
    assert!(reg.on_close(7).is_none());
    assert_eq!(reg.len(), 0);
}
